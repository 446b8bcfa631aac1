//! The values that pass between the engine and the services around it.

use vstd::prelude::*;
use crate::crypto::EcdsaSignature;
use crate::error::{Fault, ReturnError};

verus! {

/// The configuration, replaced as a whole by the operator. Principals are
/// held as their bytes.
#[derive(Clone, Debug, PartialEq, Eq)]
pub struct CkicpConfig {
    pub eth_rpc_service_url: String,
    pub eth_rpc_canister_id: Vec<u8>,
    /// The owner of the escrow account.
    pub ckicp_canister_id: Vec<u8>,
    /// The ledger that holds the escrow.
    pub ledger_canister_id: Vec<u8>,
    /// The token contract on the foreign chain whose logs are read.
    pub ckicp_eth_erc20_address: String,
    /// The bridge contract on the foreign chain: 20 bytes.
    pub ckicp_eth_address: Vec<u8>,
    /// How long an attestation is valid, in seconds.
    pub expiry_seconds: u64,
    pub max_response_bytes: u64,
    /// The chains that attestations are issued for; the first is signed.
    pub target_chain_ids: Vec<u64>,
    /// What is kept of each deposit.
    pub ckicp_fee: u64,
}

/// An account of the ledger.
#[derive(Clone, Debug, PartialEq, Eq)]
pub struct Account {
    pub owner: Vec<u8>,
    pub subaccount: Option<[u8; 32]>,
}

/// A transfer into escrow, to be asked of the ledger on behalf of the
/// account's owner. No fee and no spender subaccount are named.
#[derive(Debug, PartialEq, Eq)]
pub struct TransferFromCall {
    /// The ledger to call.
    pub ledger: Vec<u8>,
    pub from: Account,
    pub to: Account,
    pub amount: u64,
    /// The request identifier in sixteen bytes, most significant first.
    pub memo: Vec<u8>,
    /// Nanoseconds since the epoch.
    pub created_at_time: u64,
}

/// A payout from escrow, to be asked of the ledger. No fee, no memo and no
/// subaccount of the sender are named.
#[derive(Debug, PartialEq, Eq)]
pub struct TransferCall {
    /// The ledger to call.
    pub ledger: Vec<u8>,
    pub to: Account,
    pub amount: u64,
    /// Nanoseconds since the epoch.
    pub created_at_time: u64,
}

/// How a call to the ledger ended.
#[derive(Debug, PartialEq, Eq)]
pub enum LedgerReply {
    /// The ledger made the transfer.
    Accepted,
    /// The ledger refused the transfer.
    Refused,
    /// The ledger could not be reached; the text is the transport's report.
    Unreachable(String),
}

/// How a call to the signing oracle ended. The oracle returns `r` and `s`
/// in 64 bytes; the recovery indicator is added by whoever can tell which
/// key signed.
#[derive(Debug, PartialEq, Eq)]
pub enum SignerReply {
    Signed { signature: Vec<u8>, recovery: u8 },
    Failed,
}

/// What happened to a mint request.
#[derive(Debug, PartialEq, Eq)]
pub enum MintEvent {
    /// A caller asks to mint. `now` is in nanoseconds since the epoch.
    Requested {
        caller: Vec<u8>,
        from_subaccount: [u8; 32],
        amount: u64,
        target_eth_wallet: [u8; 20],
        now: u64,
    },
    /// The ledger answered the escrow transfer.
    Transferred(LedgerReply),
    /// The signing oracle answered.
    Answered(SignerReply),
}

/// What is to be done next for a mint request.
#[derive(Debug, PartialEq, Eq)]
pub enum MintAction {
    /// Stop the call; the step has changed nothing.
    Abort(Fault),
    /// Ask the ledger for the transfer, and come back with `Transferred`.
    TransferFrom(TransferFromCall),
    /// Ask the oracle to sign the digest, and come back with `Answered`.
    Sign([u8; 32]),
    /// Answer the caller.
    Done(Result<EcdsaSignature, ReturnError>),
}

/// What happened to a release.
#[derive(Debug, PartialEq, Eq)]
pub enum ReleaseEvent {
    /// The operator asks to pay out for a foreign event. `now` is in
    /// nanoseconds since the epoch.
    Requested { dest: Account, amount: u64, event_id: u128, now: u64 },
    /// The ledger answered the payout.
    Transferred(LedgerReply),
}

/// What is to be done next for a release.
#[derive(Debug, PartialEq, Eq)]
pub enum ReleaseAction {
    /// Stop the call; the step has changed nothing.
    Abort(Fault),
    /// Ask the ledger for the transfer, and come back with `Transferred`.
    Transfer(TransferCall),
    /// Answer the caller.
    Done(Result<(), ReturnError>),
}

} // verus!
