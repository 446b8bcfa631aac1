use ckicp_minter::blocks::{
    logs_reply, logs_request, BlockAction, BlockEvent, RpcCall, RpcReply, LOGS_REQUEST_CYCLES,
};
use ckicp_minter::error::{EthRpcError, ReturnError};
use ckicp_minter::memory::StableStorage;
use ckicp_minter::minter::Minter;
use ckicp_minter::types::CkicpConfig;

fn block_config() -> CkicpConfig {
    CkicpConfig {
        eth_rpc_service_url: String::from("https://rpc.example"),
        eth_rpc_canister_id: vec![1, 1, 1],
        ckicp_canister_id: vec![2, 2, 2, 2],
        ledger_canister_id: vec![3, 3, 3],
        ckicp_eth_erc20_address: String::from("0xcc"),
        ckicp_eth_address: vec![0xbb; 20],
        expiry_seconds: 3600,
        max_response_bytes: 4000,
        target_chain_ids: vec![1],
        ckicp_fee: 1000,
    }
}

#[test]
fn logs_request_is_compact_json() {
    assert_eq!(
        logs_request("0xcc", "0xabc"),
        "{\"jsonrpc\":\"2.0\",\"method\":\"eth_getLogs\",\"params\":[{\"address\":\"0xcc\",\"blockHash\":\"0xabc\"}]}"
    );
}

#[test]
fn logs_request_escapes_its_texts() {
    let text = logs_request("a\"b", "c\\d\n");
    assert_eq!(
        text,
        "{\"jsonrpc\":\"2.0\",\"method\":\"eth_getLogs\",\"params\":[{\"address\":\"a\\\"b\",\"blockHash\":\"c\\\\d\\n\"}]}"
    );
    let read: serde_json::Value = serde_json::from_str(&text).unwrap();
    assert_eq!(read["params"][0]["address"], "a\"b");
    assert_eq!(read["params"][0]["blockHash"], "c\\d\n");
    assert_eq!(read["method"], "eth_getLogs");
    assert_eq!(read["jsonrpc"], "2.0");
}

#[test]
fn logs_are_answered_as_compact_json() {
    let bytes = b" { \"id\" : 1 ,\n \"result\" : [ { \"data\" : \"0x01\" } , null, 2.5 ] } ".to_vec();
    assert_eq!(
        logs_reply(RpcReply::Returned(bytes)),
        Ok(String::from("{\"id\":1,\"result\":[{\"data\":\"0x01\"},null,2.5]}"))
    );
    assert_eq!(logs_reply(RpcReply::Returned(b"[]".to_vec())), Ok(String::from("[]")));
}

#[test]
fn bytes_that_are_no_json_are_reported() {
    let bytes = b"{\"id\": ".to_vec();
    let report = serde_json::from_slice::<serde_json::Value>(&bytes).unwrap_err().to_string();
    assert!(!report.is_empty());
    assert_eq!(logs_reply(RpcReply::Returned(bytes)), Err(ReturnError::JsonParseError(report)));
    assert!(matches!(
        logs_reply(RpcReply::Returned(vec![])),
        Err(ReturnError::JsonParseError(_))
    ));
    assert!(matches!(
        logs_reply(RpcReply::Returned(vec![0xff, 0xfe])),
        Err(ReturnError::JsonParseError(_))
    ));
}

#[test]
fn service_errors_are_passed_on() {
    assert_eq!(
        logs_reply(RpcReply::Failed(EthRpcError::TooFewCycles(String::from("need more")))),
        Err(ReturnError::EthRpcError(EthRpcError::TooFewCycles(String::from("need more"))))
    );
    assert_eq!(
        logs_reply(RpcReply::Failed(EthRpcError::HttpRequestError {
            code: 503,
            message: String::from("down"),
        })),
        Err(ReturnError::EthRpcError(EthRpcError::HttpRequestError {
            code: 503,
            message: String::from("down"),
        }))
    );
    assert_eq!(
        logs_reply(RpcReply::Failed(EthRpcError::NoPermission)),
        Err(ReturnError::EthRpcError(EthRpcError::NoPermission))
    );
    assert_eq!(
        logs_reply(RpcReply::Unreachable(String::from("timeout"))),
        Err(ReturnError::InterCanisterCallError(String::from("timeout")))
    );
}

#[test]
fn block_is_fetched_then_answered() {
    let mut storage = StableStorage::open(0, 131072).unwrap();
    let minter = Minter::open(&mut storage, block_config());
    let action = minter.process_block(BlockEvent::Requested { block_hash: String::from("0xabc") });
    assert_eq!(
        action,
        BlockAction::Fetch(RpcCall {
            canister: vec![1, 1, 1],
            payload: logs_request("0xcc", "0xabc"),
            service_url: String::from("https://rpc.example"),
            max_response_bytes: 4000,
            cycles: 837614000,
        })
    );
    assert_eq!(LOGS_REQUEST_CYCLES, 837614000);
    assert_eq!(
        minter.process_block(BlockEvent::Fetched(RpcReply::Returned(b"{\"a\": []}".to_vec()))),
        BlockAction::Done(Ok(String::from("{\"a\":[]}")))
    );
    assert_eq!(
        minter.process_block(BlockEvent::Fetched(RpcReply::Failed(EthRpcError::ProviderNotFound))),
        BlockAction::Done(Err(ReturnError::EthRpcError(EthRpcError::ProviderNotFound)))
    );
    assert!(!minter.is_busy());
}
