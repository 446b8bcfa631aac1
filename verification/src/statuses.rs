//! The mint status ledger: one record for each request identifier.

use vstd::prelude::*;
use crate::error::Fault;
use crate::memory::DurableMap;
use crate::status::{MintState, MintStatus};
use crate::utils::{id_key, id_key_bytes, lemma_id_key_injective};

verus! {

/// The status records of all requests. A record is written once, in the
/// state `Init`, and from then on only its state moves, one step at a time.
pub struct StatusLedger {
    map: DurableMap,
}

/// Whether `found` is what `entries` hold for the request `id`: no record,
/// the record's status, or the report that the record is corrupt.
pub open spec fn status_in(
    entries: Map<Seq<u8>, Seq<u8>>,
    id: u128,
    found: Result<Option<MintStatus>, Fault>,
) -> bool {
    let key = id_key(id);
    match found {
        Ok(None) => !entries.contains_key(key),
        Ok(Some(status)) => entries.contains_key(key) && status.stored_as(entries[key]),
        Err(fault) => fault == Fault::CorruptRecord && entries.contains_key(key)
            && !MintStatus::well_formed(entries[key]),
    }
}

/// Whether the entries `after` can come directly from the entries `before`:
/// every record is as it was or one state further, with the amount and the
/// expiry it had; a new record is in the state `Init`; a corrupt record is
/// not touched.
pub open spec fn one_step(before: Map<Seq<u8>, Seq<u8>>, after: Map<Seq<u8>, Seq<u8>>) -> bool {
    forall|id: u128, old_found: Result<Option<MintStatus>, Fault>|
        #![trigger status_in(before, id, old_found)]
        status_in(before, id, old_found) ==> match old_found {
            Ok(None) => status_in(after, id, Ok(None)) || exists|amount: u64, expiry: u64|
                status_in(
                    after,
                    id,
                    Ok(Some(MintStatus { amount, expiry, state: MintState::Init })),
                ),
            Ok(Some(status)) => status_in(after, id, Ok(Some(status))) || exists|
                state: MintState,
            |
                state.follows(status.state) && status_in(
                    after,
                    id,
                    Ok(Some(status.in_state(state))),
                ),
            Err(fault) => status_in(after, id, Err(fault)),
        }
}

/// Whether an attempt to move the record of `id` to the state `next` takes
/// the entries `before` to the entries `after` and ends with `done`. The
/// move is made from the state directly before `next` and from no other;
/// without it the entries stay, and `done` tells why: `UnknownRequest`
/// without a record, `CorruptRecord` on a record that cannot be read,
/// `OutOfOrder` on a record in any other state, `next` itself included.
pub open spec fn advanced(
    before: Map<Seq<u8>, Seq<u8>>,
    id: u128,
    next: MintState,
    after: Map<Seq<u8>, Seq<u8>>,
    done: Result<(), Fault>,
) -> bool {
    match done {
        Ok(()) => exists|status: MintStatus|
            {
                &&& status_in(before, id, Ok(Some(status)))
                &&& next.follows(status.state)
                &&& after == before.insert(id_key(id), status.in_state(next).record())
            },
        Err(fault) => {
            &&& after == before
            &&& match fault {
                Fault::UnknownRequest => status_in(before, id, Ok(None)),
                Fault::CorruptRecord => status_in(before, id, Err(fault)),
                Fault::OutOfOrder => exists|status: MintStatus|
                    status_in(before, id, Ok(Some(status))) && !next.follows(status.state),
                _ => false,
            }
        },
    }
}

/// Whether the record of `id` can move to the state `next`: it can be read
/// and is in a state directly before `next`.
pub open spec fn can_advance(entries: Map<Seq<u8>, Seq<u8>>, id: u128, next: MintState) -> bool {
    exists|status: MintStatus|
        status_in(entries, id, Ok(Some(status))) && next.follows(status.state)
}

/// The entries after an attempt to move the record of `id` to `next`,
/// whether or not the move was made.
pub open spec fn moved(
    before: Map<Seq<u8>, Seq<u8>>,
    id: u128,
    next: MintState,
    after: Map<Seq<u8>, Seq<u8>>,
) -> bool {
    if can_advance(before, id, next) {
        advanced(before, id, next, after, Ok(()))
    } else {
        after == before
    }
}

impl StatusLedger {
    /// The stored entries, by the key of the request identifier.
    pub closed spec fn view(&self) -> Map<Seq<u8>, Seq<u8>> {
        self.map@
    }

    /// The ledger kept in `map`.
    pub fn new(map: DurableMap) -> (ledger: StatusLedger)
        ensures
            ledger@ == map@,
    {
        StatusLedger { map }
    }

    /// The status of the request `id`, if it has a record. Changes nothing.
    pub fn lookup(&self, id: u128) -> (found: Result<Option<MintStatus>, Fault>)
        ensures
            status_in(self@, id, found),
    {
        let key = id_key_bytes(id);
        match self.map.get(key.as_slice()) {
            None => Ok(None),
            Some(bytes) => match MintStatus::from_record(bytes.as_slice()) {
                Some(status) => Ok(Some(status)),
                None => Err(Fault::CorruptRecord),
            },
        }
    }

    /// Writes the record of a request that has just been admitted. Where the
    /// identifier has a record already, of whatever form, nothing is written
    /// and the call reports `DuplicateRecord`.
    pub fn initialize(&mut self, id: u128, amount: u64, expiry: u64) -> (done: Result<(), Fault>)
        ensures
            done is Ok <==> !old(self)@.contains_key(id_key(id)),
            done is Ok ==> final(self)@ == old(self)@.insert(
                id_key(id),
                MintStatus { amount, expiry, state: MintState::Init }.record(),
            ),
            done matches Err(fault) ==> fault == Fault::DuplicateRecord && final(self)@ == old(
                self,
            )@,
            one_step(old(self)@, final(self)@),
    {
        let key = id_key_bytes(id);
        if self.map.get(key.as_slice()).is_some() {
            proof {
                lemma_unchanged_is_step(self@);
            }
            return Err(Fault::DuplicateRecord);
        }
        let status = MintStatus { amount, expiry, state: MintState::Init };
        let record = status.to_record();
        proof {
            status.lemma_record_round_trip(status);
        }
        let _ = self.map.insert(key.as_slice(), record.as_slice());
        proof {
            lemma_write_is_step(old(self)@, id, None, status);
        }
        Ok(())
    }

    /// Moves the record of `id` to the state `next`, if that is the state
    /// directly after the one it is in; otherwise writes nothing and reports
    /// why.
    pub fn advance(&mut self, id: u128, next: MintState) -> (done: Result<(), Fault>)
        ensures
            advanced(old(self)@, id, next, final(self)@, done),
            one_step(old(self)@, final(self)@),
    {
        proof {
            lemma_unchanged_is_step(self@);
        }
        let status = match self.lookup(id) {
            Ok(Some(status)) => status,
            Ok(None) => {
                return Err(Fault::UnknownRequest);
            },
            Err(fault) => {
                return Err(fault);
            },
        };
        if !next.is_next_after(&status.state) {
            return Err(Fault::OutOfOrder);
        }
        let moved = MintStatus { amount: status.amount, expiry: status.expiry, state: next };
        let key = id_key_bytes(id);
        let record = moved.to_record();
        proof {
            moved.lemma_record_round_trip(moved);
        }
        let _ = self.map.insert(key.as_slice(), record.as_slice());
        proof {
            lemma_write_is_step(old(self)@, id, Some(status), moved);
        }
        Ok(())
    }
}

/// What `entries` hold for a request is one thing only.
pub proof fn lemma_status_unique(
    entries: Map<Seq<u8>, Seq<u8>>,
    id: u128,
    a: Result<Option<MintStatus>, Fault>,
    b: Result<Option<MintStatus>, Fault>,
)
    requires
        status_in(entries, id, a),
        status_in(entries, id, b),
    ensures
        a == b,
{
    if let Ok(Some(x)) = a {
        if let Ok(Some(y)) = b {
            x.lemma_stored_is_record(entries[id_key(id)]);
            x.lemma_record_round_trip(y);
        }
    }
}

/// Entries that stay as they are make a step.
pub proof fn lemma_unchanged_is_step(entries: Map<Seq<u8>, Seq<u8>>)
    ensures
        one_step(entries, entries),
{
}

/// Writing the record of `written` for `id` makes a step where `id` had no
/// record and `written` is in the state `Init`, and where `id` had the
/// record of `held` and `written` is `held` one state further.
pub proof fn lemma_write_is_step(
    before: Map<Seq<u8>, Seq<u8>>,
    id: u128,
    held: Option<MintStatus>,
    written: MintStatus,
)
    requires
        status_in(before, id, Ok(held)),
        match held {
            None => written.state == MintState::Init,
            Some(status) => written.state.follows(status.state) && written == status.in_state(
                written.state,
            ),
        },
    ensures
        one_step(before, before.insert(id_key(id), written.record())),
{
    let after = before.insert(id_key(id), written.record());
    written.lemma_record_round_trip(written);
    assert forall|other: u128, old_found: Result<Option<MintStatus>, Fault>|
        #![trigger status_in(before, other, old_found)]
        status_in(before, other, old_found) implies match old_found {
        Ok(None) => status_in(after, other, Ok(None)) || exists|amount: u64, expiry: u64|
            status_in(
                after,
                other,
                Ok(Some(MintStatus { amount, expiry, state: MintState::Init })),
            ),
        Ok(Some(status)) => status_in(after, other, Ok(Some(status))) || exists|state: MintState|
            state.follows(status.state) && status_in(
                after,
                other,
                Ok(Some(status.in_state(state))),
            ),
        Err(fault) => status_in(after, other, Err(fault)),
    } by {
        lemma_id_key_injective(other, id);
        if other == id {
            lemma_status_unique(before, id, old_found, Ok(held));
            match held {
                None => {
                    assert(status_in(
                        after,
                        id,
                        Ok(
                            Some(
                                MintStatus {
                                    amount: written.amount,
                                    expiry: written.expiry,
                                    state: MintState::Init,
                                },
                            ),
                        ),
                    ));
                },
                Some(status) => {
                    assert(written.state.follows(status.state) && status_in(
                        after,
                        id,
                        Ok(Some(status.in_state(written.state))),
                    ));
                },
            }
        }
    }
}

/// Over any run of steps a request's record moves forward only, by at most
/// one state in each step, and keeps its amount and its expiry: once the
/// record reads `first`, it reads later as `first` in a state that moves
/// lead to from the state of `first`, no more moves than steps were made.
pub proof fn lemma_status_history(
    run: Seq<Map<Seq<u8>, Seq<u8>>>,
    id: u128,
    from: int,
    to: int,
    first: MintStatus,
)
    requires
        forall|k: int| 0 <= k < run.len() - 1 ==> one_step(#[trigger] run[k], run[k + 1]),
        0 <= from <= to < run.len(),
        status_in(run[from], id, Ok(Some(first))),
    ensures
        exists|state: MintState|
            {
                &&& status_in(run[to], id, Ok(Some(first.in_state(state))))
                &&& first.state.moves_to(state) matches Some(moves) && moves <= to - from
            },
    decreases to - from,
{
    if from == to {
        assert(first.in_state(first.state) == first);
    } else {
        lemma_status_history(run, id, from, to - 1, first);
        let middle = choose|state: MintState|
            {
                &&& status_in(run[to - 1], id, Ok(Some(first.in_state(state))))
                &&& first.state.moves_to(state) matches Some(moves) && moves <= to - 1 - from
            };
        let held = first.in_state(middle);
        assert(one_step(run[to - 1], run[to - 1 + 1]));
        assert(status_in(run[to - 1], id, Ok(Some(held))));
        if status_in(run[to], id, Ok(Some(held))) {
        } else {
            let state = choose|state: MintState|
                state.follows(held.state) && status_in(
                    run[to],
                    id,
                    Ok(Some(held.in_state(state))),
                );
            assert(held.in_state(state) == first.in_state(state));
        }
    }
}

/// A record that appears in a step appears in the state `Init`.
pub proof fn lemma_status_starts_at_init(
    before: Map<Seq<u8>, Seq<u8>>,
    after: Map<Seq<u8>, Seq<u8>>,
    id: u128,
    status: MintStatus,
)
    requires
        one_step(before, after),
        status_in(before, id, Ok(None)),
        status_in(after, id, Ok(Some(status))),
    ensures
        status.state == MintState::Init,
{
    let found: Result<Option<MintStatus>, Fault> = Ok(None);
    assert(status_in(before, id, found));
    let (amount, expiry) = choose|amount: u64, expiry: u64|
        status_in(after, id, Ok(Some(MintStatus { amount, expiry, state: MintState::Init })));
    lemma_status_unique(
        after,
        id,
        Ok(Some(status)),
        Ok(Some(MintStatus { amount, expiry, state: MintState::Init })),
    );
}

/// An attempt to move a record succeeds where the record can move, and
/// only there.
pub proof fn lemma_advanced_where_possible(
    before: Map<Seq<u8>, Seq<u8>>,
    id: u128,
    next: MintState,
    after: Map<Seq<u8>, Seq<u8>>,
    done: Result<(), Fault>,
)
    requires
        advanced(before, id, next, after, done),
    ensures
        done is Ok <==> can_advance(before, id, next),
        moved(before, id, next, after),
{
    lemma_witness(before, id, next, after, done);
    if can_advance(before, id, next) {
        let status = choose|status: MintStatus|
            status_in(before, id, Ok(Some(status))) && next.follows(status.state);
        lemma_status_unique(before, id, Ok(Some(status)), witness_of(before, id, next, done));
    }
}

/// An attempt to move a record makes a step, and what it ends with is
/// decided by the entries it starts from.
pub proof fn lemma_advanced_is_step(
    before: Map<Seq<u8>, Seq<u8>>,
    id: u128,
    next: MintState,
    after: Map<Seq<u8>, Seq<u8>>,
    done: Result<(), Fault>,
    other_after: Map<Seq<u8>, Seq<u8>>,
    other_done: Result<(), Fault>,
)
    requires
        advanced(before, id, next, after, done),
    ensures
        one_step(before, after),
        advanced(before, id, next, other_after, other_done) ==> other_after == after && (
        other_done is Ok <==> done is Ok) && (done matches Err(fault) ==> other_done == done),
{
    lemma_unchanged_is_step(before);
    if done is Ok {
        let status = choose|status: MintStatus|
            {
                &&& status_in(before, id, Ok(Some(status)))
                &&& next.follows(status.state)
                &&& after == before.insert(id_key(id), status.in_state(next).record())
            };
        lemma_write_is_step(before, id, Some(status), status.in_state(next));
    }
    if advanced(before, id, next, other_after, other_done) {
        lemma_advanced_decided(before, id, next, after, done, other_after, other_done);
    }
}

proof fn lemma_advanced_decided(
    before: Map<Seq<u8>, Seq<u8>>,
    id: u128,
    next: MintState,
    after: Map<Seq<u8>, Seq<u8>>,
    done: Result<(), Fault>,
    other_after: Map<Seq<u8>, Seq<u8>>,
    other_done: Result<(), Fault>,
)
    requires
        advanced(before, id, next, after, done),
        advanced(before, id, next, other_after, other_done),
    ensures
        other_after == after,
        other_done is Ok <==> done is Ok,
        done matches Err(fault) ==> other_done == done,
{
    let found = witness_of(before, id, next, done);
    let other_found = witness_of(before, id, next, other_done);
    lemma_witness(before, id, next, after, done);
    lemma_witness(before, id, next, other_after, other_done);
    lemma_status_unique(before, id, found, other_found);
}

/// What the entries hold for `id` where an attempt to move its record to
/// `next` ends with `done`.
spec fn witness_of(
    before: Map<Seq<u8>, Seq<u8>>,
    id: u128,
    next: MintState,
    done: Result<(), Fault>,
) -> Result<Option<MintStatus>, Fault> {
    match done {
        Ok(()) => Ok(
            Some(
                choose|status: MintStatus|
                    status_in(before, id, Ok(Some(status))) && next.follows(status.state),
            ),
        ),
        Err(Fault::UnknownRequest) => Ok(None),
        Err(Fault::OutOfOrder) => Ok(
            Some(
                choose|status: MintStatus|
                    status_in(before, id, Ok(Some(status))) && !next.follows(status.state),
            ),
        ),
        Err(fault) => Err(fault),
    }
}

proof fn lemma_witness(
    before: Map<Seq<u8>, Seq<u8>>,
    id: u128,
    next: MintState,
    after: Map<Seq<u8>, Seq<u8>>,
    done: Result<(), Fault>,
)
    requires
        advanced(before, id, next, after, done),
    ensures
        status_in(before, id, witness_of(before, id, next, done)),
        match witness_of(before, id, next, done) {
            Ok(Some(status)) => (done is Ok <==> next.follows(status.state)) && (done is Ok ==> after
                == before.insert(id_key(id), status.in_state(next).record())) && (done is Err
                ==> done == Err::<(), Fault>(Fault::OutOfOrder)),
            Ok(None) => done == Err::<(), Fault>(Fault::UnknownRequest),
            Err(fault) => done == Err::<(), Fault>(Fault::CorruptRecord),
        },
        done is Err ==> after == before,
{
    if done is Ok {
        let status = choose|status: MintStatus|
            {
                &&& status_in(before, id, Ok(Some(status)))
                &&& next.follows(status.state)
                &&& after == before.insert(id_key(id), status.in_state(next).record())
            };
        let picked = choose|status: MintStatus|
            status_in(before, id, Ok(Some(status))) && next.follows(status.state);
        lemma_status_unique(before, id, Ok(Some(status)), Ok(Some(picked)));
    }
}

} // verus!
