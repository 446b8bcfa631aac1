//! The release flow: pay out of escrow, once, for a foreign burn event.
//!
//! The flow waits for the ledger, so it is taken in two steps, as the mint
//! flow is.

use vstd::prelude::*;
use crate::error::{Fault, ReturnError};
use crate::events::{after_claim, seen_in};
use crate::guard::InFlight;
use crate::minter::{Minter, MinterView};
use crate::types::{Account, CkicpConfig, LedgerReply, ReleaseAction, ReleaseEvent, TransferCall};

verus! {

/// Whether `call` is the payout of `amount` to `dest`.
pub open spec fn payout_call(
    call: TransferCall,
    config: CkicpConfig,
    dest: Account,
    amount: u64,
    now: u64,
) -> bool {
    &&& call.ledger@ == config.ledger_canister_id@
    &&& call.to == dest
    &&& call.amount == amount
    &&& call.created_at_time == now
}

/// The step that admits a release.
///
/// While the guard is held the request is turned away (`Busy`). An event
/// that has been claimed before ends the request with `EventSeen`. In both
/// cases nothing changes and no transfer is asked for. A fresh event is
/// marked, and only then the payout is asked for; the request takes the
/// guard.
pub open spec fn release_requested(
    pre: MinterView,
    dest: Account,
    amount: u64,
    event_id: u128,
    now: u64,
    post: MinterView,
    action: ReleaseAction,
) -> bool {
    if pre.guard is Some {
        post.same(pre) && action == ReleaseAction::Abort(Fault::Busy)
    } else if seen_in(pre.events, event_id) {
        post.same(pre) && action == ReleaseAction::Done(Err(ReturnError::EventSeen))
    } else {
        &&& post.events == after_claim(pre.events, event_id)
        &&& post.nonces == pre.nonces
        &&& post.statuses == pre.statuses
        &&& post.signatures == pre.signatures
        &&& post.config == pre.config
        &&& post.guard == Some(InFlight::Release)
        &&& action matches ReleaseAction::Transfer(call) && payout_call(
            call,
            pre.config,
            dest,
            amount,
            now,
        )
    }
}

/// The step that takes the ledger's answer to the payout.
///
/// It is for the release that waits for this answer; otherwise the call is
/// stopped and nothing changes. The request ends as the ledger answered and
/// gives the guard back. The event stays marked also where the payout
/// failed: a release is never tried twice for one event.
pub open spec fn release_transferred(
    pre: MinterView,
    reply: LedgerReply,
    post: MinterView,
    action: ReleaseAction,
) -> bool {
    match pre.guard {
        Some(InFlight::Release) => {
            &&& post.same_ledgers(pre)
            &&& post.guard is None
            &&& match reply {
                LedgerReply::Accepted => action matches ReleaseAction::Done(Ok(_)),
                LedgerReply::Refused => action == ReleaseAction::Done(
                    Err(ReturnError::TransferError),
                ),
                LedgerReply::Unreachable(report) => action == ReleaseAction::Done(
                    Err(ReturnError::InterCanisterCallError(report)),
                ),
            }
        },
        _ => post.same(pre) && action == ReleaseAction::Abort(Fault::UnexpectedEvent),
    }
}

/// One step of the release flow, by the event it takes.
pub open spec fn release_step(
    pre: MinterView,
    event: ReleaseEvent,
    post: MinterView,
    action: ReleaseAction,
) -> bool {
    match event {
        ReleaseEvent::Requested { dest, amount, event_id, now } => release_requested(
            pre,
            dest,
            amount,
            event_id,
            now,
            post,
            action,
        ),
        ReleaseEvent::Transferred(reply) => release_transferred(pre, reply, post, action),
    }
}

impl Minter {
    /// Takes one step of the release flow: `event` is what happened, the
    /// result what is to be done next. The caller has been found entitled
    /// before the first step. A step that stops the call has changed
    /// nothing.
    pub fn release_icp(&mut self, event: ReleaseEvent) -> (action: ReleaseAction)
        ensures
            release_step(old(self)@, event, final(self)@, action),
            forall|id: u128|
                seen_in(old(self)@.events, id) ==> #[trigger] seen_in(final(self)@.events, id),
            action is Abort ==> final(self)@.same(old(self)@),
    {
        match event {
            ReleaseEvent::Requested { dest, amount, event_id, now } => {
                if self.guard.is_held() {
                    return ReleaseAction::Abort(Fault::Busy);
                }
                if self.events.claim(event_id) {
                    return ReleaseAction::Done(Err(ReturnError::EventSeen));
                }
                let _ = self.guard.acquire(InFlight::Release);
                let mut ledger: Vec<u8> = Vec::new();
                ledger.extend_from_slice(self.config.ledger_canister_id.as_slice());
                assert(ledger@ =~= self.config.ledger_canister_id@);
                ReleaseAction::Transfer(
                    TransferCall { ledger, to: dest, amount, created_at_time: now },
                )
            },
            ReleaseEvent::Transferred(reply) => {
                match self.guard.holder() {
                    Some(InFlight::Release) => {},
                    _ => {
                        return ReleaseAction::Abort(Fault::UnexpectedEvent);
                    },
                }
                self.guard.release();
                match reply {
                    LedgerReply::Accepted => ReleaseAction::Done(Ok(())),
                    LedgerReply::Refused => ReleaseAction::Done(Err(ReturnError::TransferError)),
                    LedgerReply::Unreachable(report) => ReleaseAction::Done(
                        Err(ReturnError::InterCanisterCallError(report)),
                    ),
                }
            },
        }
    }
}

/// A release for an event that is marked asks for no transfer and changes
/// nothing, whoever asks and whatever has happened since the event was
/// marked.
pub proof fn lemma_no_second_payout(
    pre: MinterView,
    dest: Account,
    amount: u64,
    event_id: u128,
    now: u64,
    post: MinterView,
    action: ReleaseAction,
)
    requires
        seen_in(pre.events, event_id),
        release_requested(pre, dest, amount, event_id, now, post, action),
    ensures
        !(action is Transfer),
        post.same(pre),
        pre.guard is None ==> action == ReleaseAction::Done(Err(ReturnError::EventSeen)),
{
}

/// While a request holds the guard, a release is turned away and changes
/// nothing: requests do not overlap.
pub proof fn lemma_release_turned_away(
    pre: MinterView,
    event: ReleaseEvent,
    post: MinterView,
    action: ReleaseAction,
)
    requires
        pre.guard is Some,
        event is Requested,
        release_step(pre, event, post, action),
    ensures
        post.same(pre),
        action == ReleaseAction::Abort(Fault::Busy),
{
}

} // verus!
