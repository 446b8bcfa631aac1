//! The foreign-event deduplicator: which foreign events have been claimed.

use vstd::prelude::*;
use crate::memory::DurableMap;
use crate::utils::{id_key, id_key_bytes, lemma_id_key_injective};

verus! {

/// The byte stored for an event that has been claimed.
pub const EVENT_MARKER: u8 = 1;

/// The claimed events. An event is marked once and stays marked.
pub struct EventDeduplicator {
    map: DurableMap,
}

/// Whether `entries` mark the event `event_id` as claimed.
pub open spec fn seen_in(entries: Map<Seq<u8>, Seq<u8>>, event_id: u128) -> bool {
    entries.contains_key(id_key(event_id))
}

/// The entries after `event_id` has been claimed: a marked event leaves
/// them as they are.
pub open spec fn after_claim(entries: Map<Seq<u8>, Seq<u8>>, event_id: u128) -> Map<
    Seq<u8>,
    Seq<u8>,
> {
    if seen_in(entries, event_id) {
        entries
    } else {
        entries.insert(id_key(event_id), seq![EVENT_MARKER])
    }
}

/// The entries after the events in `claims` have been claimed, in this order.
pub open spec fn after_claims(entries: Map<Seq<u8>, Seq<u8>>, claims: Seq<u128>) -> Map<
    Seq<u8>,
    Seq<u8>,
>
    decreases claims.len(),
{
    if claims.len() == 0 {
        entries
    } else {
        after_claim(after_claims(entries, claims.drop_last()), claims.last())
    }
}

impl EventDeduplicator {
    /// The stored entries, by the key of the event identifier.
    pub closed spec fn view(&self) -> Map<Seq<u8>, Seq<u8>> {
        self.map@
    }

    /// The deduplicator kept in `map`.
    pub fn new(map: DurableMap) -> (events: EventDeduplicator)
        ensures
            events@ == map@,
    {
        EventDeduplicator { map }
    }

    /// Whether the event has been claimed. Changes nothing.
    pub fn is_seen(&self, event_id: u128) -> (seen: bool)
        ensures
            seen == seen_in(self@, event_id),
    {
        let key = id_key_bytes(event_id);
        self.map.get(key.as_slice()).is_some()
    }

    /// Claims the event: tells whether it had been claimed before, and marks
    /// it if not. The answer `true` is final: the event stays marked.
    pub fn claim(&mut self, event_id: u128) -> (seen: bool)
        ensures
            seen == seen_in(old(self)@, event_id),
            final(self)@ == after_claim(old(self)@, event_id),
            seen_in(final(self)@, event_id),
    {
        if self.is_seen(event_id) {
            return true;
        }
        let key = id_key_bytes(event_id);
        let mut marker: Vec<u8> = Vec::with_capacity(1);
        marker.push(EVENT_MARKER);
        let _ = self.map.insert(key.as_slice(), marker.as_slice());
        false
    }
}

/// After any claims, an event is marked if it was marked before them or is
/// among them, and only then. So in a run of claims an event is found fresh
/// by the first claim of it, if it was not marked before the run, and by no
/// other, whatever other events are claimed in between.
pub proof fn lemma_claimed_once(entries: Map<Seq<u8>, Seq<u8>>, claims: Seq<u128>, event_id: u128)
    ensures
        seen_in(after_claims(entries, claims), event_id) <==> seen_in(entries, event_id)
            || claims.contains(event_id),
    decreases claims.len(),
{
    if claims.len() > 0 {
        let earlier = claims.drop_last();
        lemma_claimed_once(entries, earlier, event_id);
        lemma_id_key_injective(claims.last(), event_id);
        if claims.contains(event_id) {
            let i = choose|i: int| 0 <= i < claims.len() && claims[i] == event_id;
            if i < claims.len() - 1 {
                assert(earlier[i] == event_id);
            }
        }
        if earlier.contains(event_id) {
            let i = choose|i: int| 0 <= i < earlier.len() && earlier[i] == event_id;
            assert(claims[i] == event_id);
        }
        if claims.last() == event_id {
            assert(claims[claims.len() - 1] == event_id);
        }
    }
}

} // verus!
