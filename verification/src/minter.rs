//! The coordinator: the four ledgers, the guard and the configuration, and
//! the read-only entry points.

use vstd::prelude::*;
use crate::crypto::EcdsaSignature;
use crate::error::Fault;
use crate::events::EventDeduplicator;
use crate::guard::{InFlight, MutationGuard};
use crate::memory::StableStorage;
use crate::nonces::{nonce_in, NonceLedger};
use crate::signatures::{signature_in, SignatureStore};
use crate::status::MintStatus;
use crate::statuses::{status_in, StatusLedger};
use crate::types::CkicpConfig;

verus! {

/// The memory that the nonce ledger is kept in.
pub const NONCE_MEMORY: u8 = 0;

/// The memory that the status ledger is kept in.
pub const STATUS_MEMORY: u8 = 1;

/// The memory that the signature store is kept in.
pub const SIGNATURE_MEMORY: u8 = 2;

/// The memory that the claimed events are kept in.
pub const EVENT_MEMORY: u8 = 3;

/// All that the engine keeps. Every request handler works on this one
/// value; nothing is kept beside it.
pub struct Minter {
    pub(crate) nonces: NonceLedger,
    pub(crate) statuses: StatusLedger,
    pub(crate) signatures: SignatureStore,
    pub(crate) events: EventDeduplicator,
    pub(crate) guard: MutationGuard,
    pub(crate) config: CkicpConfig,
}

/// What a `Minter` holds: the entries of its four ledgers, the holder of
/// the guard, and the configuration.
pub struct MinterView {
    pub nonces: Map<Seq<u8>, Seq<u8>>,
    pub statuses: Map<Seq<u8>, Seq<u8>>,
    pub signatures: Map<Seq<u8>, Seq<u8>>,
    pub events: Map<Seq<u8>, Seq<u8>>,
    pub guard: Option<InFlight>,
    pub config: CkicpConfig,
}

impl MinterView {
    /// Whether the four ledgers and the configuration are as in `other`.
    pub open spec fn same_ledgers(self, other: MinterView) -> bool {
        &&& self.nonces == other.nonces
        &&& self.statuses == other.statuses
        &&& self.signatures == other.signatures
        &&& self.events == other.events
        &&& self.config == other.config
    }

    /// Whether everything is as in `other`.
    pub open spec fn same(self, other: MinterView) -> bool {
        self.same_ledgers(other) && self.guard == other.guard
    }
}

impl Minter {
    /// What the minter holds.
    pub open(crate) spec fn view(&self) -> MinterView {
        MinterView {
            nonces: self.nonces@,
            statuses: self.statuses@,
            signatures: self.signatures@,
            events: self.events@,
            guard: self.guard@,
            config: self.config,
        }
    }

    /// A minter over the given ledgers, with nothing under way.
    pub fn new(
        nonces: NonceLedger,
        statuses: StatusLedger,
        signatures: SignatureStore,
        events: EventDeduplicator,
        config: CkicpConfig,
    ) -> (minter: Minter)
        ensures
            minter@.nonces == nonces@,
            minter@.statuses == statuses@,
            minter@.signatures == signatures@,
            minter@.events == events@,
            minter@.guard is None,
            minter@.config == config,
    {
        Minter { nonces, statuses, signatures, events, guard: MutationGuard::new(), config }
    }

    /// A minter over the ledgers that `storage` holds in the memories 0 to
    /// 3, as they were left, with nothing under way.
    pub fn open(storage: &mut StableStorage, config: CkicpConfig) -> (minter: Minter)
        requires
            !old(storage).given_out().contains(NONCE_MEMORY),
            !old(storage).given_out().contains(STATUS_MEMORY),
            !old(storage).given_out().contains(SIGNATURE_MEMORY),
            !old(storage).given_out().contains(EVENT_MEMORY),
        ensures
            final(storage).given_out() == old(storage).given_out().insert(NONCE_MEMORY).insert(
                STATUS_MEMORY,
            ).insert(SIGNATURE_MEMORY).insert(EVENT_MEMORY),
            minter@.guard is None,
            minter@.config == config,
    {
        let nonces = NonceLedger::new(storage.map(NONCE_MEMORY).unwrap());
        let statuses = StatusLedger::new(storage.map(STATUS_MEMORY).unwrap());
        let signatures = SignatureStore::new(storage.map(SIGNATURE_MEMORY).unwrap());
        let events = EventDeduplicator::new(storage.map(EVENT_MEMORY).unwrap());
        Minter::new(nonces, statuses, signatures, events, config)
    }

    /// Where the counter of `subaccount` stands: 0 before its first mint.
    pub fn get_nonce(&self, subaccount: &[u8; 32]) -> (nonce: Result<u32, Fault>)
        ensures
            nonce == nonce_in(self@.nonces, subaccount@),
    {
        self.nonces.peek(subaccount)
    }

    /// The status of the request `msg_id`, if it has a record.
    pub fn get_status(&self, msg_id: u128) -> (found: Result<Option<MintStatus>, Fault>)
        ensures
            status_in(self@.statuses, msg_id, found),
    {
        self.statuses.lookup(msg_id)
    }

    /// The signature issued for the request `msg_id`, if one has been.
    pub fn get_signature(&self, msg_id: u128) -> (found: Result<Option<EcdsaSignature>, Fault>)
        ensures
            signature_in(self@.signatures, msg_id, found),
    {
        self.signatures.get(msg_id)
    }

    /// The configuration.
    pub fn get_ckicp_config(&self) -> (config: &CkicpConfig)
        ensures
            *config == self@.config,
    {
        &self.config
    }

    /// Replaces the configuration. A request that is under way goes on with
    /// the values it was admitted with.
    pub fn set_ckicp_config(&mut self, config: CkicpConfig)
        ensures
            final(self)@.config == config,
            final(self)@.nonces == old(self)@.nonces,
            final(self)@.statuses == old(self)@.statuses,
            final(self)@.signatures == old(self)@.signatures,
            final(self)@.events == old(self)@.events,
            final(self)@.guard == old(self)@.guard,
    {
        self.config = config;
    }

    /// Whether a mutating request is under way.
    pub fn is_busy(&self) -> (busy: bool)
        ensures
            busy == self@.guard is Some,
    {
        self.guard.is_held()
    }
}

} // verus!
