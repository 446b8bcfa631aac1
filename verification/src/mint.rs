//! The mint flow: escrow a deposit, then have its attestation signed.
//!
//! The flow waits twice for a service outside, so it is taken in steps. Each
//! step takes what happened and says what is to be done next; the host does
//! it and comes back with the outcome.

use vstd::prelude::*;
use crate::crypto::EcdsaSignature;
use crate::error::{Fault, ReturnError};
use crate::guard::{InFlight, MintTicket};
use crate::hash::{sha256, sha256_digest};
use crate::minter::{Minter, MinterView};
use crate::nonces::{after_next, nonce_in};
use crate::payload::{payload_of, read_address, signing_payload, ADDRESS_BYTES};
use crate::signatures::signature_in;
use crate::status::{MintState, MintStatus};
use crate::statuses::{
    advanced, can_advance, lemma_advanced_is_step, lemma_advanced_where_possible,
    lemma_status_unique, lemma_unchanged_is_step, lemma_write_is_step, moved, one_step,
    status_in,
};
use crate::types::{
    Account, CkicpConfig, LedgerReply, MintAction, MintEvent, SignerReply, TransferFromCall,
};
use crate::utils::{
    calc_msgid, id_key, id_key_bytes, lemma_id_key_injective, msgid, principal_subaccount,
    subaccount_from_principal, MAX_PRINCIPAL_BYTES,
};

verus! {

/// Nanoseconds in a second.
pub const NANOS_PER_SECOND: u64 = 1_000_000_000;

/// Whether a mint of `amount` can be attested under `config`: the amount
/// covers the fee, a target chain and a bridge contract of 20 bytes are
/// configured, and the expiry can be written in 64 bits.
pub open spec fn payable(config: CkicpConfig, amount: u64, now: u64) -> bool {
    &&& amount >= config.ckicp_fee
    &&& config.target_chain_ids@.len() > 0
    &&& config.ckicp_eth_address@.len() == ADDRESS_BYTES
    &&& now / NANOS_PER_SECOND + config.expiry_seconds <= u64::MAX
}

/// When the attestation of a request admitted at `now` becomes void, in
/// seconds since the epoch.
pub open spec fn expiry_at(config: CkicpConfig, now: u64) -> u64 {
    (now / NANOS_PER_SECOND + config.expiry_seconds) as u64
}

/// Whether `ticket` is what the request `msg_id` carries on.
pub open spec fn ticket_of(
    ticket: MintTicket,
    config: CkicpConfig,
    msg_id: u128,
    amount: u64,
    target_eth_wallet: [u8; 20],
    now: u64,
) -> bool {
    &&& ticket.msg_id == msg_id
    &&& ticket.net_amount == amount - config.ckicp_fee
    &&& ticket.destination == target_eth_wallet
    &&& ticket.expiry == expiry_at(config, now)
    &&& ticket.chain_id == config.target_chain_ids@[0]
    &&& ticket.contract@ == config.ckicp_eth_address@
}

/// Whether `call` is the escrow transfer of the request `msg_id`: the whole
/// amount, from the subaccount that the caller named to the escrow account,
/// with the request identifier as memo.
pub open spec fn escrow_call(
    call: TransferFromCall,
    config: CkicpConfig,
    caller: Seq<u8>,
    from_subaccount: [u8; 32],
    amount: u64,
    msg_id: u128,
    now: u64,
) -> bool {
    &&& call.ledger@ == config.ledger_canister_id@
    &&& call.from.owner@ == caller
    &&& call.from.subaccount == Some(from_subaccount)
    &&& call.to.owner@ == config.ckicp_canister_id@
    &&& call.to.subaccount is None
    &&& call.amount == amount
    &&& call.memo@ == id_key(msg_id)
    &&& call.created_at_time == now
}

/// The digest that is signed for `ticket`.
pub open spec fn digest_of(ticket: MintTicket) -> Seq<u8> {
    sha256_digest(
        payload_of(
            ticket.net_amount,
            ticket.destination@,
            ticket.msg_id,
            ticket.expiry,
            ticket.chain_id,
            ticket.contract@,
        ),
    )
}

/// The record that a request is admitted with.
pub open spec fn admitted_status(config: CkicpConfig, amount: u64, now: u64) -> MintStatus {
    MintStatus { amount, expiry: expiry_at(config, now), state: MintState::Init }
}

/// The step that admits a mint request.
///
/// While the guard is held the request is turned away (`Busy`); a caller
/// whose principal fits no subaccount gets `InputError`; a counter that is
/// corrupt or cannot go up stops the call. In these cases nothing changes.
/// Otherwise the caller's nonce goes up by one, whatever comes of the
/// request, and names it. A request that is not payable then ends with
/// `InputError`, one whose identifier has a record or a signature already
/// with `GenericError`. Any other request has its record written in the
/// state `Init`, takes the guard, and asks for the escrow transfer.
pub open spec fn mint_requested(
    pre: MinterView,
    caller: Seq<u8>,
    from_subaccount: [u8; 32],
    amount: u64,
    target_eth_wallet: [u8; 20],
    now: u64,
    post: MinterView,
    action: MintAction,
) -> bool {
    if pre.guard is Some {
        post.same(pre) && action == MintAction::Abort(Fault::Busy)
    } else if caller.len() > MAX_PRINCIPAL_BYTES {
        post.same(pre) && action == MintAction::Done(Err(ReturnError::InputError))
    } else {
        let subaccount = principal_subaccount(caller);
        match after_next(pre.nonces, subaccount) {
            (_, Err(fault)) => post.same(pre) && action == MintAction::Abort(fault),
            (nonces, Ok(nonce)) => {
                let msg_id = msgid(subaccount, nonce);
                &&& post.nonces == nonces
                &&& post.signatures == pre.signatures
                &&& post.events == pre.events
                &&& post.config == pre.config
                &&& if !payable(pre.config, amount, now) {
                    &&& post.statuses == pre.statuses
                    &&& post.guard is None
                    &&& action == MintAction::Done(Err(ReturnError::InputError))
                } else if pre.statuses.contains_key(id_key(msg_id))
                    || pre.signatures.contains_key(id_key(msg_id)) {
                    &&& post.statuses == pre.statuses
                    &&& post.guard is None
                    &&& action == MintAction::Done(Err(ReturnError::GenericError))
                } else {
                    &&& post.statuses == pre.statuses.insert(
                        id_key(msg_id),
                        admitted_status(pre.config, amount, now).record(),
                    )
                    &&& post.guard matches Some(InFlight::MintEscrow(ticket)) && ticket_of(
                        ticket,
                        pre.config,
                        msg_id,
                        amount,
                        target_eth_wallet,
                        now,
                    )
                    &&& action matches MintAction::TransferFrom(call) && escrow_call(
                        call,
                        pre.config,
                        caller,
                        from_subaccount,
                        amount,
                        msg_id,
                        now,
                    )
                }
            },
        }
    }
}

/// The step that takes the ledger's answer to the escrow transfer.
///
/// It is for the mint request that waits for this answer; otherwise the
/// call is stopped and nothing changes. A ledger that refused or could not
/// be reached ends the request with the error, and its record moves to
/// `Failed` if it can. After a transfer the record moves to `FundReceived`
/// and the digest of the payload is handed out for signing; a record that
/// cannot make this move ends the request with `GenericError`. The guard is
/// given back wherever the request ends.
pub open spec fn mint_transferred(
    pre: MinterView,
    reply: LedgerReply,
    post: MinterView,
    action: MintAction,
) -> bool {
    match pre.guard {
        Some(InFlight::MintEscrow(ticket)) => {
            &&& post.nonces == pre.nonces
            &&& post.signatures == pre.signatures
            &&& post.events == pre.events
            &&& post.config == pre.config
            &&& match reply {
                LedgerReply::Unreachable(report) => {
                    &&& moved(pre.statuses, ticket.msg_id, MintState::Failed, post.statuses)
                    &&& post.guard is None
                    &&& action == MintAction::Done(
                        Err(ReturnError::InterCanisterCallError(report)),
                    )
                },
                LedgerReply::Refused => {
                    &&& moved(pre.statuses, ticket.msg_id, MintState::Failed, post.statuses)
                    &&& post.guard is None
                    &&& action == MintAction::Done(Err(ReturnError::TransferError))
                },
                LedgerReply::Accepted => if can_advance(
                    pre.statuses,
                    ticket.msg_id,
                    MintState::FundReceived,
                ) {
                    &&& advanced(
                        pre.statuses,
                        ticket.msg_id,
                        MintState::FundReceived,
                        post.statuses,
                        Ok(()),
                    )
                    &&& post.guard == Some(InFlight::MintSigning { msg_id: ticket.msg_id })
                    &&& action matches MintAction::Sign(digest) && digest@ == digest_of(ticket)
                } else {
                    &&& post.statuses == pre.statuses
                    &&& post.guard is None
                    &&& action == MintAction::Done(Err(ReturnError::GenericError))
                },
            }
        },
        _ => post.same(pre) && action == MintAction::Abort(Fault::UnexpectedEvent),
    }
}

/// The step that takes the oracle's answer.
///
/// It is for the mint request that waits for this answer; otherwise the
/// call is stopped and nothing changes. An oracle that failed, or answered
/// with other than 64 bytes, ends the request with `TecdsaSignatureError`;
/// its record stays in `FundReceived`, so that what is held in escrow stays
/// on record. A signature is stored and the record moves to `Signed`, both
/// or neither: a request that has a signature already, or whose record
/// cannot make this move, ends with `GenericError`. The guard is given back
/// in every case.
pub open spec fn mint_answered(
    pre: MinterView,
    reply: SignerReply,
    post: MinterView,
    action: MintAction,
) -> bool {
    match pre.guard {
        Some(InFlight::MintSigning { msg_id }) => {
            &&& post.guard is None
            &&& post.nonces == pre.nonces
            &&& post.events == pre.events
            &&& post.config == pre.config
            &&& match reply {
                SignerReply::Signed { signature, recovery } if signature@.len() == 64 => {
                    if pre.signatures.contains_key(id_key(msg_id)) || !can_advance(
                        pre.statuses,
                        msg_id,
                        MintState::Signed,
                    ) {
                        &&& post.statuses == pre.statuses
                        &&& post.signatures == pre.signatures
                        &&& action == MintAction::Done(Err(ReturnError::GenericError))
                    } else {
                        &&& action matches MintAction::Done(Ok(issued)) && issued.wire()
                            == signature@.push(recovery) && post.signatures
                            == pre.signatures.insert(id_key(msg_id), issued.wire())
                        &&& advanced(
                            pre.statuses,
                            msg_id,
                            MintState::Signed,
                            post.statuses,
                            Ok(()),
                        )
                    }
                },
                _ => {
                    &&& post.statuses == pre.statuses
                    &&& post.signatures == pre.signatures
                    &&& action == MintAction::Done(Err(ReturnError::TecdsaSignatureError))
                },
            }
        },
        _ => post.same(pre) && action == MintAction::Abort(Fault::UnexpectedEvent),
    }
}

/// One step of the mint flow, by the event it takes.
pub open spec fn mint_step(pre: MinterView, event: MintEvent, post: MinterView, action: MintAction)
    -> bool {
    match event {
        MintEvent::Requested { caller, from_subaccount, amount, target_eth_wallet, now } =>
            mint_requested(
            pre,
            caller@,
            from_subaccount,
            amount,
            target_eth_wallet,
            now,
            post,
            action,
        ),
        MintEvent::Transferred(reply) => mint_transferred(pre, reply, post, action),
        MintEvent::Answered(reply) => mint_answered(pre, reply, post, action),
    }
}

impl Minter {
    /// Takes one step of the mint flow: `event` is what happened, the result
    /// what is to be done next. A step that stops the call has changed
    /// nothing.
    pub fn mint_ckicp(&mut self, event: MintEvent) -> (action: MintAction)
        ensures
            mint_step(old(self)@, event, final(self)@, action),
            one_step(old(self)@.statuses, final(self)@.statuses),
            action is Abort ==> final(self)@.same(old(self)@),
    {
        match event {
            MintEvent::Requested { caller, from_subaccount, amount, target_eth_wallet, now } => {
                self.mint_request(caller, from_subaccount, amount, target_eth_wallet, now)
            },
            MintEvent::Transferred(reply) => self.mint_transfer_done(reply),
            MintEvent::Answered(reply) => self.mint_sign_done(reply),
        }
    }

    fn mint_request(
        &mut self,
        caller: Vec<u8>,
        from_subaccount: [u8; 32],
        amount: u64,
        target_eth_wallet: [u8; 20],
        now: u64,
    ) -> (action: MintAction)
        ensures
            mint_requested(
                old(self)@,
                caller@,
                from_subaccount,
                amount,
                target_eth_wallet,
                now,
                final(self)@,
                action,
            ),
            one_step(old(self)@.statuses, final(self)@.statuses),
            action is Abort ==> final(self)@.same(old(self)@),
    {
        proof {
            lemma_unchanged_is_step(self@.statuses);
        }
        if self.guard.is_held() {
            return MintAction::Abort(Fault::Busy);
        }
        let subaccount = match subaccount_from_principal(caller.as_slice()) {
            Some(subaccount) => subaccount,
            None => {
                return MintAction::Done(Err(ReturnError::InputError));
            },
        };
        let nonce = match self.nonces.next(&subaccount) {
            Ok(nonce) => nonce,
            Err(fault) => {
                return MintAction::Abort(fault);
            },
        };
        let msg_id = calc_msgid(&subaccount, nonce);
        if amount < self.config.ckicp_fee || self.config.target_chain_ids.len() == 0 {
            return MintAction::Done(Err(ReturnError::InputError));
        }
        let contract = match read_address(self.config.ckicp_eth_address.as_slice()) {
            Some(contract) => contract,
            None => {
                return MintAction::Done(Err(ReturnError::InputError));
            },
        };
        let seconds = now / NANOS_PER_SECOND;
        if seconds > u64::MAX - self.config.expiry_seconds {
            return MintAction::Done(Err(ReturnError::InputError));
        }
        let expiry = seconds + self.config.expiry_seconds;
        if self.signatures.holds(msg_id) {
            return MintAction::Done(Err(ReturnError::GenericError));
        }
        if self.statuses.initialize(msg_id, amount, expiry).is_err() {
            return MintAction::Done(Err(ReturnError::GenericError));
        }
        let ticket = MintTicket {
            msg_id,
            net_amount: amount - self.config.ckicp_fee,
            destination: target_eth_wallet,
            expiry,
            chain_id: self.config.target_chain_ids[0],
            contract,
        };
        let _ = self.guard.acquire(InFlight::MintEscrow(ticket));
        let mut ledger: Vec<u8> = Vec::new();
        ledger.extend_from_slice(self.config.ledger_canister_id.as_slice());
        let mut escrow: Vec<u8> = Vec::new();
        escrow.extend_from_slice(self.config.ckicp_canister_id.as_slice());
        assert(ledger@ =~= self.config.ledger_canister_id@);
        assert(escrow@ =~= self.config.ckicp_canister_id@);
        MintAction::TransferFrom(
            TransferFromCall {
                ledger,
                from: Account { owner: caller, subaccount: Some(from_subaccount) },
                to: Account { owner: escrow, subaccount: None },
                amount,
                memo: id_key_bytes(msg_id),
                created_at_time: now,
            },
        )
    }

    fn mint_transfer_done(&mut self, reply: LedgerReply) -> (action: MintAction)
        ensures
            mint_transferred(old(self)@, reply, final(self)@, action),
            one_step(old(self)@.statuses, final(self)@.statuses),
            action is Abort ==> final(self)@.same(old(self)@),
    {
        proof {
            lemma_unchanged_is_step(self@.statuses);
        }
        let ticket = match self.guard.holder() {
            Some(InFlight::MintEscrow(ticket)) => ticket,
            _ => {
                return MintAction::Abort(Fault::UnexpectedEvent);
            },
        };
        self.guard.release();
        let next = match reply {
            LedgerReply::Accepted => MintState::FundReceived,
            _ => MintState::Failed,
        };
        let done = self.statuses.advance(ticket.msg_id, next);
        proof {
            lemma_advanced_where_possible(
                old(self)@.statuses,
                ticket.msg_id,
                next,
                self@.statuses,
                done,
            );
        }
        match reply {
            LedgerReply::Unreachable(report) => MintAction::Done(
                Err(ReturnError::InterCanisterCallError(report)),
            ),
            LedgerReply::Refused => MintAction::Done(Err(ReturnError::TransferError)),
            LedgerReply::Accepted => {
                if done.is_err() {
                    return MintAction::Done(Err(ReturnError::GenericError));
                }
                let payload = signing_payload(
                    ticket.net_amount,
                    &ticket.destination,
                    ticket.msg_id,
                    ticket.expiry,
                    ticket.chain_id,
                    &ticket.contract,
                );
                let digest = sha256(payload.as_slice());
                let _ = self.guard.acquire(InFlight::MintSigning { msg_id: ticket.msg_id });
                MintAction::Sign(digest)
            },
        }
    }

    fn mint_sign_done(&mut self, reply: SignerReply) -> (action: MintAction)
        ensures
            mint_answered(old(self)@, reply, final(self)@, action),
            one_step(old(self)@.statuses, final(self)@.statuses),
            action is Abort ==> final(self)@.same(old(self)@),
    {
        proof {
            lemma_unchanged_is_step(self@.statuses);
        }
        let msg_id = match self.guard.holder() {
            Some(InFlight::MintSigning { msg_id }) => msg_id,
            _ => {
                return MintAction::Abort(Fault::UnexpectedEvent);
            },
        };
        self.guard.release();
        let issued = match reply {
            SignerReply::Signed { signature, recovery } => EcdsaSignature::assemble(
                signature.as_slice(),
                recovery,
            ),
            SignerReply::Failed => None,
        };
        let issued = match issued {
            Some(issued) => issued,
            None => {
                return MintAction::Done(Err(ReturnError::TecdsaSignatureError));
            },
        };
        if self.signatures.holds(msg_id) {
            return MintAction::Done(Err(ReturnError::GenericError));
        }
        let done = self.statuses.advance(msg_id, MintState::Signed);
        proof {
            lemma_advanced_where_possible(
                old(self)@.statuses,
                msg_id,
                MintState::Signed,
                self@.statuses,
                done,
            );
        }
        if done.is_err() {
            return MintAction::Done(Err(ReturnError::GenericError));
        }
        let _ = self.signatures.put(msg_id, &issued);
        MintAction::Done(Ok(issued))
    }
}

/// While a request holds the guard, a mint request is turned away and
/// changes nothing, whoever makes it: requests do not overlap.
pub proof fn lemma_mint_turned_away(
    pre: MinterView,
    event: MintEvent,
    post: MinterView,
    action: MintAction,
)
    requires
        pre.guard is Some,
        event is Requested,
        mint_step(pre, event, post, action),
    ensures
        post.same(pre),
        action == MintAction::Abort(Fault::Busy),
{
}

/// A mint request that finds the guard free and the caller's counter at
/// `current`, below the largest 32-bit value, leaves that counter at
/// `current + 1` however the step ends, and every other counter where it
/// was. No later step of the flow writes a counter.
pub proof fn lemma_mint_takes_nonce(
    pre: MinterView,
    caller: Seq<u8>,
    from_subaccount: [u8; 32],
    amount: u64,
    target_eth_wallet: [u8; 20],
    now: u64,
    post: MinterView,
    action: MintAction,
    current: u32,
)
    requires
        pre.guard is None,
        caller.len() <= MAX_PRINCIPAL_BYTES,
        nonce_in(pre.nonces, principal_subaccount(caller)) == Ok::<u32, Fault>(current),
        current < u32::MAX,
        mint_requested(
            pre,
            caller,
            from_subaccount,
            amount,
            target_eth_wallet,
            now,
            post,
            action,
        ),
    ensures
        nonce_in(post.nonces, principal_subaccount(caller)) == Ok::<u32, Fault>(
            (current + 1) as u32,
        ),
        forall|other: Seq<u8>|
            other != principal_subaccount(caller) ==> post.nonces.contains_key(other)
                == pre.nonces.contains_key(other) && post.nonces[other] == pre.nonces[other],
        !(action is Abort),
{
    let next = (current + 1) as nat;
    crate::endian::lemma_fits_machine_words(next);
    crate::endian::lemma_be_bytes_len(next, 4);
    crate::endian::lemma_value_of_bytes(next, 4);
}

/// A step of the mint flow makes one step on the status records, and writes
/// no record but that of the request it belongs to.
pub proof fn lemma_mint_step_is_one_step(
    pre: MinterView,
    event: MintEvent,
    post: MinterView,
    action: MintAction,
)
    requires
        mint_step(pre, event, post, action),
    ensures
        one_step(pre.statuses, post.statuses),
        match pre.guard {
            Some(InFlight::MintEscrow(ticket)) => forall|id: u128|
                id != ticket.msg_id ==> post.statuses.contains_key(#[trigger] id_key(id))
                    == pre.statuses.contains_key(id_key(id)) && post.statuses[id_key(id)]
                    == pre.statuses[id_key(id)],
            Some(InFlight::MintSigning { msg_id }) => forall|id: u128|
                id != msg_id ==> post.statuses.contains_key(#[trigger] id_key(id))
                    == pre.statuses.contains_key(id_key(id)) && post.statuses[id_key(id)]
                    == pre.statuses[id_key(id)],
            Some(InFlight::Release) => post.statuses == pre.statuses,
            None => true,
        },
{
    lemma_unchanged_is_step(pre.statuses);
    match event {
        MintEvent::Requested { caller, from_subaccount, amount, target_eth_wallet, now } => {
            if post.statuses != pre.statuses {
                let subaccount = principal_subaccount(caller@);
                let nonce = after_next(pre.nonces, subaccount).1->Ok_0;
                let msg_id = msgid(subaccount, nonce);
                lemma_write_is_step(
                    pre.statuses,
                    msg_id,
                    None,
                    admitted_status(pre.config, amount, now),
                );
            }
        },
        MintEvent::Transferred(reply) => {
            if let Some(InFlight::MintEscrow(ticket)) = pre.guard {
                let next = if reply is Accepted {
                    MintState::FundReceived
                } else {
                    MintState::Failed
                };
                lemma_moved_is_step(pre.statuses, ticket.msg_id, next, post.statuses);
            }
        },
        MintEvent::Answered(reply) => {
            if let Some(InFlight::MintSigning { msg_id }) = pre.guard {
                lemma_moved_is_step(pre.statuses, msg_id, MintState::Signed, post.statuses);
            }
        },
    }
}

/// Entries that are as they were, or in which the record of `id` has moved
/// to `next`, have made a step, and differ in the record of `id` at most.
proof fn lemma_moved_is_step(
    before: Map<Seq<u8>, Seq<u8>>,
    id: u128,
    next: MintState,
    after: Map<Seq<u8>, Seq<u8>>,
)
    requires
        after == before || advanced(before, id, next, after, Ok(())),
    ensures
        one_step(before, after),
        forall|other: u128|
            other != id ==> after.contains_key(#[trigger] id_key(other)) == before.contains_key(
                id_key(other),
            ) && after[id_key(other)] == before[id_key(other)],
{
    lemma_unchanged_is_step(before);
    if after != before {
        lemma_advanced_is_step(before, id, next, after, Ok(()), after, Ok(()));
    }
    assert forall|other: u128| other != id implies #[trigger] id_key(other) != id_key(id) by {
        lemma_id_key_injective(other, id);
    }
}

/// A mint request that is admitted, whose transfer the ledger accepts and
/// for which the oracle answers with 64 bytes, has its record written in
/// the order `Init`, `FundReceived`, `Signed`: in `Init` before the ledger
/// is asked, in `FundReceived` before the oracle is asked, in `Signed` at
/// the end, each time with the amount and the expiry of the request. It
/// ends with the signature, which the store then holds.
pub proof fn lemma_mint_in_order(
    pre: MinterView,
    caller: Seq<u8>,
    from_subaccount: [u8; 32],
    amount: u64,
    target_eth_wallet: [u8; 20],
    now: u64,
    escrowed: MinterView,
    first: MintAction,
    funded: MinterView,
    second: MintAction,
    reply: SignerReply,
    ended: MinterView,
    third: MintAction,
)
    requires
        mint_requested(
            pre,
            caller,
            from_subaccount,
            amount,
            target_eth_wallet,
            now,
            escrowed,
            first,
        ),
        first is TransferFrom,
        mint_transferred(escrowed, LedgerReply::Accepted, funded, second),
        reply matches SignerReply::Signed { signature, .. } && signature@.len() == 64,
        mint_answered(funded, reply, ended, third),
    ensures
        escrowed.guard matches Some(InFlight::MintEscrow(ticket)) && {
            let id = ticket.msg_id;
            let status = admitted_status(pre.config, amount, now);
            &&& !pre.statuses.contains_key(id_key(id))
            &&& status_in(escrowed.statuses, id, Ok(Some(status)))
            &&& second is Sign
            &&& status_in(funded.statuses, id, Ok(Some(status.in_state(MintState::FundReceived))))
            &&& third matches MintAction::Done(Ok(issued)) && signature_in(
                ended.signatures,
                id,
                Ok(Some(issued)),
            )
            &&& status_in(ended.statuses, id, Ok(Some(status.in_state(MintState::Signed))))
            &&& ended.guard is None
        },
{
    let ticket = escrowed.guard->Some_0->MintEscrow_0;
    let id = ticket.msg_id;
    let status = admitted_status(pre.config, amount, now);
    let received = status.in_state(MintState::FundReceived);
    let signed = status.in_state(MintState::Signed);
    status.lemma_record_round_trip(status);
    received.lemma_record_round_trip(received);
    signed.lemma_record_round_trip(signed);
    assert(status_in(escrowed.statuses, id, Ok(Some(status))));
    assert(MintState::FundReceived.follows(status.state));
    assert(can_advance(escrowed.statuses, id, MintState::FundReceived));
    let moved_first = choose|held: MintStatus|
        {
            &&& status_in(escrowed.statuses, id, Ok(Some(held)))
            &&& MintState::FundReceived.follows(held.state)
            &&& funded.statuses == escrowed.statuses.insert(
                id_key(id),
                held.in_state(MintState::FundReceived).record(),
            )
        };
    lemma_status_unique(escrowed.statuses, id, Ok(Some(moved_first)), Ok(Some(status)));
    assert(status_in(funded.statuses, id, Ok(Some(received))));
    assert(MintState::Signed.follows(received.state));
    assert(can_advance(funded.statuses, id, MintState::Signed));
    assert(!funded.signatures.contains_key(id_key(id)));
    let moved_second = choose|held: MintStatus|
        {
            &&& status_in(funded.statuses, id, Ok(Some(held)))
            &&& MintState::Signed.follows(held.state)
            &&& ended.statuses == funded.statuses.insert(
                id_key(id),
                held.in_state(MintState::Signed).record(),
            )
        };
    lemma_status_unique(funded.statuses, id, Ok(Some(moved_second)), Ok(Some(received)));
    assert(received.in_state(MintState::Signed) == signed);
    assert(status_in(ended.statuses, id, Ok(Some(signed))));
    let issued = third->Done_0->Ok_0;
    issued.lemma_wire_round_trip(issued);
}

} // verus!
