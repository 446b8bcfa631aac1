//! Reading the burn events of a foreign block: the request for the block's
//! logs, and what becomes of the answer.
//!
//! JSON text is written and read by the crate `serde_json`; what it returns
//! is taken on trust and named here.

use vstd::prelude::*;
use vstd::string::StringExecFns;
use crate::error::{EthRpcError, ReturnError};
use crate::minter::Minter;
use crate::types::CkicpConfig;

verus! {

/// What is paid for a logs request, in cycles.
pub const LOGS_REQUEST_CYCLES: u64 = 837614000;

/// The JSON string literal for a text: the text in quotes, escaped as JSON
/// asks.
pub uninterp spec fn json_string_text(text: Seq<char>) -> Seq<char>;

/// What reading bytes as a JSON document and writing the document again
/// gives: the document's compact text, or the report of why the bytes are
/// no document.
pub uninterp spec fn json_compact_text(bytes: Seq<u8>) -> Result<Seq<char>, Seq<char>>;

/// `serde_json::Value::String` and its `to_string`: the JSON string literal
/// for `text`.
#[verifier::external_body]
fn json_quote(text: &str) -> (quoted: String)
    ensures
        quoted@ == json_string_text(text@),
{
    serde_json::Value::String(text.to_owned()).to_string()
}

/// `serde_json::from_slice` to a `serde_json::Value`, then the value's
/// `to_string`; for bytes that are no JSON document, the `to_string` of the
/// error. Both depend on the bytes alone.
#[verifier::external_body]
fn json_compact(bytes: &[u8]) -> (text: Result<String, String>)
    ensures
        match text {
            Ok(document) => json_compact_text(bytes@) == Ok::<Seq<char>, Seq<char>>(document@),
            Err(report) => json_compact_text(bytes@) == Err::<Seq<char>, Seq<char>>(report@),
        },
{
    match serde_json::from_slice::<serde_json::Value>(bytes) {
        Ok(value) => Ok(value.to_string()),
        Err(error) => Err(error.to_string()),
    }
}

/// A request to the service that reads the foreign chain.
#[derive(Debug, PartialEq, Eq)]
pub struct RpcCall {
    /// The service to call.
    pub canister: Vec<u8>,
    /// The JSON-RPC request.
    pub payload: String,
    pub service_url: String,
    pub max_response_bytes: u64,
    /// What is paid with the call.
    pub cycles: u64,
}

/// How a call to the service ended.
#[derive(Debug, PartialEq, Eq)]
pub enum RpcReply {
    /// The service could not be reached; the text is the transport's report.
    Unreachable(String),
    /// The service reported an error.
    Failed(EthRpcError),
    /// The service returned these bytes.
    Returned(Vec<u8>),
}

/// What happened to a request for a block's events.
#[derive(Debug, PartialEq, Eq)]
pub enum BlockEvent {
    /// Somebody asks for the events of the block with this hash.
    Requested { block_hash: String },
    /// The service answered.
    Fetched(RpcReply),
}

/// What is to be done next for a request for a block's events.
#[derive(Debug, PartialEq, Eq)]
pub enum BlockAction {
    /// Ask the service, and come back with `Fetched`.
    Fetch(RpcCall),
    /// Answer the caller.
    Done(Result<String, ReturnError>),
}

/// The JSON-RPC request for the logs that the contract at `address` wrote
/// in the block with the hash `block_hash`.
pub open spec fn logs_request_text(address: Seq<char>, block_hash: Seq<char>) -> Seq<char> {
    "{\"jsonrpc\":\"2.0\",\"method\":\"eth_getLogs\",\"params\":[{\"address\":"@
        + json_string_text(address) + ",\"blockHash\":"@ + json_string_text(block_hash)
        + "}]}"@
}

/// Whether `call` is the logs request for `block_hash` under `config`.
pub open spec fn logs_call(call: RpcCall, config: CkicpConfig, block_hash: Seq<char>) -> bool {
    &&& call.canister@ == config.eth_rpc_canister_id@
    &&& call.payload@ == logs_request_text(config.ckicp_eth_erc20_address@, block_hash)
    &&& call.service_url@ == config.eth_rpc_service_url@
    &&& call.max_response_bytes == config.max_response_bytes
    &&& call.cycles == LOGS_REQUEST_CYCLES
}

/// What the caller is answered once the service has replied: the logs as
/// compact JSON text, or the error of the stage that failed.
pub open spec fn logs_answer(reply: RpcReply, answer: Result<String, ReturnError>) -> bool {
    match reply {
        RpcReply::Unreachable(report) => answer == Err::<String, ReturnError>(
            ReturnError::InterCanisterCallError(report),
        ),
        RpcReply::Failed(error) => answer == Err::<String, ReturnError>(
            ReturnError::EthRpcError(error),
        ),
        RpcReply::Returned(bytes) => match answer {
            Ok(document) => json_compact_text(bytes@) == Ok::<Seq<char>, Seq<char>>(document@),
            Err(ReturnError::JsonParseError(report)) => json_compact_text(bytes@) == Err::<
                Seq<char>,
                Seq<char>,
            >(report@),
            Err(_) => false,
        },
    }
}

/// The JSON-RPC request for the logs of a block.
pub fn logs_request(address: &str, block_hash: &str) -> (text: String)
    ensures
        text@ == logs_request_text(address@, block_hash@),
{
    let mut text = String::from_str("{\"jsonrpc\":\"2.0\",\"method\":\"eth_getLogs\",\"params\":[{\"address\":");
    let address_literal = json_quote(address);
    text.append(address_literal.as_str());
    text.append(",\"blockHash\":");
    let hash_literal = json_quote(block_hash);
    text.append(hash_literal.as_str());
    text.append("}]}");
    text
}

/// What the caller is answered once the service has replied.
pub fn logs_reply(reply: RpcReply) -> (answer: Result<String, ReturnError>)
    ensures
        logs_answer(reply, answer),
{
    match reply {
        RpcReply::Unreachable(report) => Err(ReturnError::InterCanisterCallError(report)),
        RpcReply::Failed(error) => Err(ReturnError::EthRpcError(error)),
        RpcReply::Returned(bytes) => match json_compact(bytes.as_slice()) {
            Ok(document) => Ok(document),
            Err(report) => Err(ReturnError::JsonParseError(report)),
        },
    }
}

impl Minter {
    /// Takes one step of reading a block's events: `event` is what happened,
    /// the result what is to be done next. Nothing that the minter holds
    /// changes.
    pub fn process_block(&self, event: BlockEvent) -> (action: BlockAction)
        ensures
            match event {
                BlockEvent::Requested { block_hash } => action matches BlockAction::Fetch(call)
                    && logs_call(call, self@.config, block_hash@),
                BlockEvent::Fetched(reply) => action matches BlockAction::Done(answer)
                    && logs_answer(reply, answer),
            },
    {
        match event {
            BlockEvent::Requested { block_hash } => {
                let mut canister: Vec<u8> = Vec::new();
                canister.extend_from_slice(self.config.eth_rpc_canister_id.as_slice());
                assert(canister@ =~= self.config.eth_rpc_canister_id@);
                BlockAction::Fetch(
                    RpcCall {
                        canister,
                        payload: logs_request(
                            self.config.ckicp_eth_erc20_address.as_str(),
                            block_hash.as_str(),
                        ),
                        service_url: self.config.eth_rpc_service_url.clone(),
                        max_response_bytes: self.config.max_response_bytes,
                        cycles: LOGS_REQUEST_CYCLES,
                    },
                )
            },
            BlockEvent::Fetched(reply) => BlockAction::Done(logs_reply(reply)),
        }
    }
}

} // verus!
