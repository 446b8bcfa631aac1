//! The nonce ledger: one counter for each caller subaccount.

use vstd::prelude::*;
use crate::endian::{
    be_bytes, be_decode, be_encode, be_value, lemma_be_bytes_len, lemma_bytes_of_value,
    lemma_fits_machine_words, lemma_value_of_bytes,
};
use crate::error::Fault;
use crate::memory::DurableMap;

verus! {

/// The counters of all subaccounts. A subaccount without an entry stands at
/// 0; its first nonce is 1.
pub struct NonceLedger {
    map: DurableMap,
}

/// Where the counter of `subaccount` stands in `entries`. An entry that does
/// not have four bytes is corrupt.
pub open spec fn nonce_in(entries: Map<Seq<u8>, Seq<u8>>, subaccount: Seq<u8>) -> Result<
    u32,
    Fault,
> {
    if !entries.contains_key(subaccount) {
        Ok(0u32)
    } else if entries[subaccount].len() == 4 {
        Ok(be_value(entries[subaccount]) as u32)
    } else {
        Err(Fault::CorruptRecord)
    }
}

/// The entries after `subaccount` has asked for its next nonce, and the
/// answer it got. The counter goes up by one; at the largest 32-bit value,
/// and on a corrupt entry, nothing changes.
pub open spec fn after_next(entries: Map<Seq<u8>, Seq<u8>>, subaccount: Seq<u8>) -> (
    Map<Seq<u8>, Seq<u8>>,
    Result<u32, Fault>,
) {
    match nonce_in(entries, subaccount) {
        Err(fault) => (entries, Err(fault)),
        Ok(current) => if current == u32::MAX {
            (entries, Err(Fault::NonceExhausted))
        } else {
            (
                entries.insert(subaccount, be_bytes((current + 1) as nat, 4)),
                Ok((current + 1) as u32),
            )
        },
    }
}

/// The entries after the subaccounts in `calls` have each asked for a next
/// nonce, in this order.
pub open spec fn after_calls(entries: Map<Seq<u8>, Seq<u8>>, calls: Seq<Seq<u8>>) -> Map<
    Seq<u8>,
    Seq<u8>,
>
    decreases calls.len(),
{
    if calls.len() == 0 {
        entries
    } else {
        after_next(after_calls(entries, calls.drop_last()), calls.last()).0
    }
}

/// How often `subaccount` occurs in `calls`.
pub open spec fn calls_of(calls: Seq<Seq<u8>>, subaccount: Seq<u8>) -> nat
    decreases calls.len(),
{
    if calls.len() == 0 {
        0
    } else {
        calls_of(calls.drop_last(), subaccount) + if calls.last() == subaccount {
            1nat
        } else {
            0nat
        }
    }
}

impl NonceLedger {
    /// The stored entries, by subaccount.
    pub closed spec fn view(&self) -> Map<Seq<u8>, Seq<u8>> {
        self.map@
    }

    /// The ledger kept in `map`.
    pub fn new(map: DurableMap) -> (ledger: NonceLedger)
        ensures
            ledger@ == map@,
    {
        NonceLedger { map }
    }

    /// Where the counter of `subaccount` stands. Changes nothing.
    pub fn peek(&self, subaccount: &[u8; 32]) -> (nonce: Result<u32, Fault>)
        ensures
            nonce == nonce_in(self@, subaccount@),
    {
        match self.map.get(subaccount.as_slice()) {
            None => Ok(0),
            Some(bytes) => {
                if bytes.len() == 4 {
                    proof {
                        lemma_bytes_of_value(bytes@);
                        lemma_fits_machine_words(be_value(bytes@));
                    }
                    Ok(be_decode(bytes.as_slice()).unwrap() as u32)
                } else {
                    Err(Fault::CorruptRecord)
                }
            },
        }
    }

    /// Moves the counter of `subaccount` up by one and returns where it
    /// stands then. At the largest 32-bit value the counter stays and the
    /// call reports `NonceExhausted`: a nonce never wraps.
    pub fn next(&mut self, subaccount: &[u8; 32]) -> (nonce: Result<u32, Fault>)
        ensures
            (final(self)@, nonce) == after_next(old(self)@, subaccount@),
    {
        let current = match self.peek(subaccount) {
            Ok(current) => current,
            Err(fault) => {
                return Err(fault);
            },
        };
        if current == u32::MAX {
            return Err(Fault::NonceExhausted);
        }
        let next = current + 1;
        proof {
            lemma_fits_machine_words(next as nat);
            lemma_be_bytes_len(next as nat, 4);
        }
        let bytes = be_encode(next as u128, 4).unwrap();
        let _ = self.map.insert(subaccount.as_slice(), bytes.as_slice());
        Ok(next)
    }
}

/// A counter stands where it stood plus the number of times its subaccount
/// asked, whatever other subaccounts asked in between: the nonces that one
/// subaccount gets go up by one each time, and start at 1 for a subaccount
/// that had no entry.
pub proof fn lemma_nonces_count_calls(
    entries: Map<Seq<u8>, Seq<u8>>,
    calls: Seq<Seq<u8>>,
    subaccount: Seq<u8>,
)
    requires
        nonce_in(entries, subaccount) is Ok,
        nonce_in(entries, subaccount)->Ok_0 + calls_of(calls, subaccount) < u32::MAX,
    ensures
        nonce_in(after_calls(entries, calls), subaccount) == Ok::<u32, Fault>(
            (nonce_in(entries, subaccount)->Ok_0 + calls_of(calls, subaccount)) as u32,
        ),
        after_next(after_calls(entries, calls), subaccount).1 == Ok::<u32, Fault>(
            (nonce_in(entries, subaccount)->Ok_0 + calls_of(calls, subaccount) + 1) as u32,
        ),
    decreases calls.len(),
{
    if calls.len() > 0 {
        let earlier = calls.drop_last();
        lemma_nonces_count_calls(entries, earlier, subaccount);
        let before = after_calls(entries, earlier);
        if calls.last() == subaccount {
            let next = (nonce_in(before, subaccount)->Ok_0 + 1) as nat;
            lemma_fits_machine_words(next);
            lemma_be_bytes_len(next, 4);
            lemma_value_of_bytes(next, 4);
        }
    }
}

} // verus!
