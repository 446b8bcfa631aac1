//! What a request can end with other than success.

use vstd::prelude::*;

verus! {

/// An error reported by the service that fetches foreign-chain logs.
#[derive(Clone, Debug, PartialEq, Eq)]
pub enum EthRpcError {
    NoPermission,
    TooFewCycles(String),
    ServiceUrlParseError,
    ServiceUrlHostMissing,
    ServiceUrlHostNotAllowed(String),
    ProviderNotFound,
    HttpRequestError { code: u32, message: String },
}

/// An error returned to the caller of an entry point.
#[derive(Clone, Debug, PartialEq, Eq)]
pub enum ReturnError {
    /// What is stored does not allow the request to go on: its identifier
    /// is in use, or its record cannot make the move that is due.
    GenericError,
    /// An argument, or the configuration it is combined with, is malformed.
    InputError,
    Unauthorized,
    Expired,
    /// A collaborator could not be reached; the text is the transport's report.
    InterCanisterCallError(String),
    /// The signing oracle refused, or answered with something that is no signature.
    TecdsaSignatureError,
    /// The foreign event has been claimed before.
    EventSeen,
    /// The ledger refused the transfer.
    TransferError,
    EthRpcError(EthRpcError),
    JsonParseError(String),
}

/// Why a ledger refuses what is asked of it, and why a step stops the call
/// without an answer to the caller. A step that stops the call has changed
/// nothing, so the host loses nothing by giving the call up.
#[derive(Clone, Copy, Debug, PartialEq, Eq, Structural)]
pub enum Fault {
    /// Another mutating request holds the guard.
    Busy,
    /// The caller's nonce has reached the largest 32-bit value.
    NonceExhausted,
    /// A stored record does not have the form its ledger writes.
    CorruptRecord,
    /// A record for the identifier exists already; records are written once.
    DuplicateRecord,
    /// No record exists for the identifier.
    UnknownRequest,
    /// The transition asked for is not the next one of the record's state.
    OutOfOrder,
    /// The event does not answer what the guard's holder is waiting for.
    UnexpectedEvent,
}

} // verus!
