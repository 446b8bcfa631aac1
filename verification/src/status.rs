//! The state of a mint request and its stored record.

use vstd::prelude::*;
use vstd::slice::slice_subrange;
use crate::endian::{
    be_bytes, be_decode, be_encode, be_value, lemma_be_bytes_len, lemma_bytes_of_value,
    lemma_fits_machine_words, lemma_value_of_bytes,
};

verus! {

/// Number of bytes in a stored status record.
pub const STATUS_BYTES: usize = 17;

/// How far a mint request has come. A request starts in `Init`. From there
/// it moves to `FundReceived` and on to `Signed`, or to `Failed`; it moves
/// one state at a time and never back, and `Signed` and `Failed` are final.
#[derive(Clone, Copy, Debug, PartialEq, Eq, Structural)]
pub enum MintState {
    /// Admitted; the escrow transfer is not confirmed.
    Init,
    /// The ledger has confirmed the escrow transfer.
    FundReceived,
    /// The attestation signature is issued and stored.
    Signed,
    /// The escrow transfer did not take place; nothing is held for the
    /// request.
    Failed,
}

/// The record kept for a mint request. Amount and expiry are set when the
/// request is admitted and stay as they are.
#[derive(Clone, Copy, Debug, PartialEq, Eq, Structural)]
pub struct MintStatus {
    pub amount: u64,
    /// Seconds since the epoch after which the attestation is void.
    pub expiry: u64,
    pub state: MintState,
}

impl MintState {
    /// The byte that stands for the state in a stored record.
    pub open spec fn byte(self) -> u8 {
        match self {
            MintState::Init => 0,
            MintState::FundReceived => 1,
            MintState::Signed => 2,
            MintState::Failed => 3,
        }
    }

    /// Whether `self` is a state that comes directly after `before`.
    pub open spec fn follows(self, before: MintState) -> bool {
        match (before, self) {
            (MintState::Init, MintState::FundReceived) => true,
            (MintState::FundReceived, MintState::Signed) => true,
            (MintState::Init, MintState::Failed) => true,
            _ => false,
        }
    }

    /// The number of moves that take a request from `self` to `later`, where
    /// there are such moves: none to the state itself, two from `Init` to
    /// `Signed`, one otherwise.
    pub open spec fn moves_to(self, later: MintState) -> Option<nat> {
        if self == later {
            Some(0nat)
        } else if later.follows(self) {
            Some(1nat)
        } else if self == MintState::Init && later == MintState::Signed {
            Some(2nat)
        } else {
            None
        }
    }

    /// Whether this state comes directly after `before`.
    pub fn is_next_after(&self, before: &MintState) -> (yes: bool)
        ensures
            yes == self.follows(*before),
    {
        match (before, self) {
            (MintState::Init, MintState::FundReceived) => true,
            (MintState::FundReceived, MintState::Signed) => true,
            (MintState::Init, MintState::Failed) => true,
            _ => false,
        }
    }

    /// The byte that stands for the state in a stored record.
    pub fn code(&self) -> (byte: u8)
        ensures
            byte == self.byte(),
    {
        match self {
            MintState::Init => 0,
            MintState::FundReceived => 1,
            MintState::Signed => 2,
            MintState::Failed => 3,
        }
    }

    /// The state that `byte` stands for, if any.
    pub fn from_code(byte: u8) -> (state: Option<MintState>)
        ensures
            state is Some <==> byte <= 3,
            state matches Some(s) ==> s.byte() == byte,
    {
        if byte == 0 {
            Some(MintState::Init)
        } else if byte == 1 {
            Some(MintState::FundReceived)
        } else if byte == 2 {
            Some(MintState::Signed)
        } else if byte == 3 {
            Some(MintState::Failed)
        } else {
            None
        }
    }
}

impl MintStatus {
    /// The stored record: amount and expiry in eight bytes each, most
    /// significant first, then the state's byte.
    pub open spec fn record(self) -> Seq<u8> {
        be_bytes(self.amount as nat, 8) + be_bytes(self.expiry as nat, 8) + seq![
            self.state.byte(),
        ]
    }

    /// Whether `bytes` is the stored record of `self`.
    pub open spec fn stored_as(self, bytes: Seq<u8>) -> bool {
        &&& bytes.len() == 17
        &&& self.amount == be_value(bytes.subrange(0, 8))
        &&& self.expiry == be_value(bytes.subrange(8, 16))
        &&& self.state.byte() == bytes[16]
    }

    /// Whether `bytes` is the stored record of some status.
    pub open spec fn well_formed(bytes: Seq<u8>) -> bool {
        bytes.len() == 17 && bytes[16] <= 3
    }

    /// The same record in the state `state`.
    pub open spec fn in_state(self, state: MintState) -> MintStatus {
        MintStatus { amount: self.amount, expiry: self.expiry, state }
    }

    /// Writes the stored record.
    pub fn to_record(&self) -> (bytes: Vec<u8>)
        ensures
            bytes@ == self.record(),
    {
        proof {
            lemma_fits_machine_words(self.amount as nat);
            lemma_fits_machine_words(self.expiry as nat);
        }
        let mut bytes = be_encode(self.amount as u128, 8).unwrap();
        let expiry = be_encode(self.expiry as u128, 8).unwrap();
        bytes.extend_from_slice(expiry.as_slice());
        bytes.push(self.state.code());
        bytes
    }

    /// Reads a stored record: `None` where `bytes` is not the record of any
    /// status.
    pub fn from_record(bytes: &[u8]) -> (status: Option<MintStatus>)
        ensures
            status is Some <==> MintStatus::well_formed(bytes@),
            status matches Some(s) ==> s.stored_as(bytes@),
    {
        if bytes.len() != STATUS_BYTES {
            return None;
        }
        let state = match MintState::from_code(bytes[16]) {
            Some(state) => state,
            None => {
                return None;
            },
        };
        let amount_bytes = slice_subrange(bytes, 0, 8);
        let expiry_bytes = slice_subrange(bytes, 8, 16);
        proof {
            lemma_bytes_of_value(amount_bytes@);
            lemma_bytes_of_value(expiry_bytes@);
            lemma_fits_machine_words(be_value(amount_bytes@));
            lemma_fits_machine_words(be_value(expiry_bytes@));
        }
        let amount = be_decode(amount_bytes).unwrap();
        let expiry = be_decode(expiry_bytes).unwrap();
        Some(MintStatus { amount: amount as u64, expiry: expiry as u64, state })
    }

    /// A record is well formed and reads as the status it was written from,
    /// and as no other.
    pub proof fn lemma_record_round_trip(self, other: MintStatus)
        ensures
            MintStatus::well_formed(self.record()),
            self.stored_as(self.record()),
            other.stored_as(self.record()) ==> other == self,
    {
        let bytes = self.record();
        lemma_be_bytes_len(self.amount as nat, 8);
        lemma_be_bytes_len(self.expiry as nat, 8);
        lemma_fits_machine_words(self.amount as nat);
        lemma_fits_machine_words(self.expiry as nat);
        lemma_value_of_bytes(self.amount as nat, 8);
        lemma_value_of_bytes(self.expiry as nat, 8);
        assert(bytes.subrange(0, 8) =~= be_bytes(self.amount as nat, 8));
        assert(bytes.subrange(8, 16) =~= be_bytes(self.expiry as nat, 8));
        assert(bytes[16] == self.state.byte());
    }

    /// Bytes that read as a status are the record of that status.
    pub proof fn lemma_stored_is_record(self, bytes: Seq<u8>)
        requires
            self.stored_as(bytes),
        ensures
            bytes == self.record(),
    {
        lemma_bytes_of_value(bytes.subrange(0, 8));
        lemma_bytes_of_value(bytes.subrange(8, 16));
        assert(bytes =~= bytes.subrange(0, 8) + bytes.subrange(8, 16) + seq![bytes[16]]);
    }
}

} // verus!
