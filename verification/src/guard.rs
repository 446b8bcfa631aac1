//! The mutation guard: at most one mutating request is under way.

use vstd::prelude::*;

verus! {

/// What a mint request carries from its admission to the signing: the
/// identifier, and the fields of the payload as they were fixed then.
#[derive(Clone, Copy, Debug, PartialEq, Eq)]
pub struct MintTicket {
    pub msg_id: u128,
    /// The amount to mint on the foreign chain, the fee taken off.
    pub net_amount: u64,
    pub destination: [u8; 20],
    pub expiry: u64,
    pub chain_id: u64,
    pub contract: [u8; 20],
}

/// The request that holds the guard, and the answer it is waiting for.
#[derive(Clone, Copy, Debug, PartialEq, Eq)]
pub enum InFlight {
    /// A mint request waits for the ledger to confirm the escrow transfer.
    MintEscrow(MintTicket),
    /// A mint request waits for the signing oracle.
    MintSigning { msg_id: u128 },
    /// A release waits for the ledger to confirm the payout.
    Release,
}

/// The one exclusion flag of the process. A mutating request takes it when
/// it is admitted and gives it back when it ends, however it ends; while it
/// is taken, no other mutating request is admitted.
pub struct MutationGuard {
    holder: Option<InFlight>,
}

impl MutationGuard {
    /// The request that holds the guard, if any.
    pub closed spec fn view(&self) -> Option<InFlight> {
        self.holder
    }

    /// A guard that nobody holds.
    pub fn new() -> (guard: MutationGuard)
        ensures
            guard@ is None,
    {
        MutationGuard { holder: None }
    }

    /// Whether a request holds the guard.
    pub fn is_held(&self) -> (held: bool)
        ensures
            held == self@ is Some,
    {
        self.holder.is_some()
    }

    /// The request that holds the guard, if any.
    pub fn holder(&self) -> (holder: Option<InFlight>)
        ensures
            holder == self@,
    {
        self.holder
    }

    /// Takes the guard for `work`. A guard that is held stays with its
    /// holder, and the answer is `false`.
    pub fn acquire(&mut self, work: InFlight) -> (taken: bool)
        ensures
            taken == old(self)@ is None,
            final(self)@ == if taken {
                Some(work)
            } else {
                old(self)@
            },
    {
        if self.holder.is_some() {
            false
        } else {
            self.holder = Some(work);
            true
        }
    }

    /// Records that the holder now waits as `work` says. A guard that nobody
    /// holds stays free, and the answer is `false`.
    pub fn proceed(&mut self, work: InFlight) -> (kept: bool)
        ensures
            kept == old(self)@ is Some,
            final(self)@ == if kept {
                Some(work)
            } else {
                old(self)@
            },
    {
        if self.holder.is_some() {
            self.holder = Some(work);
            true
        } else {
            false
        }
    }

    /// Gives the guard back.
    pub fn release(&mut self)
        ensures
            final(self)@ is None,
    {
        self.holder = None;
    }
}

} // verus!
