//! The stored form of an issued attestation signature.

use vstd::prelude::*;

verus! {

/// Number of bytes in the stored form of a signature.
pub const SIGNATURE_BYTES: usize = 65;

/// An ECDSA signature with its recovery indicator.
///
/// The stored form is `r`, then `s`, then `v`: 65 bytes, nothing between them.
#[derive(Clone, Copy, Debug, PartialEq, Eq)]
pub struct EcdsaSignature {
    pub r: [u8; 32],
    pub s: [u8; 32],
    pub v: u8,
}

impl EcdsaSignature {
    /// The stored form of the signature.
    pub open spec fn wire(self) -> Seq<u8> {
        self.r@ + self.s@ + seq![self.v]
    }

    /// Whether `bytes` is the stored form of `self`.
    pub open spec fn read_from(self, bytes: Seq<u8>) -> bool {
        &&& bytes.len() == 65
        &&& self.r@ == bytes.subrange(0, 32)
        &&& self.s@ == bytes.subrange(32, 64)
        &&& self.v == bytes[64]
    }

    /// Reads a signature from its stored form, which has 65 bytes.
    pub fn from_bytes(bytes: &[u8]) -> (sig: EcdsaSignature)
        requires
            bytes@.len() == 65,
        ensures
            sig.read_from(bytes@),
    {
        let mut r = [0u8; 32];
        let mut s = [0u8; 32];
        let mut i: usize = 0;
        while i < 32
            invariant
                i <= 32,
                bytes@.len() == 65,
                forall|j: int| 0 <= j < i ==> r@[j] == bytes@[j],
                forall|j: int| 0 <= j < i ==> s@[j] == bytes@[32 + j],
            decreases 32 - i,
        {
            r[i] = bytes[i];
            s[i] = bytes[32 + i];
            i += 1;
        }
        assert(r@ =~= bytes@.subrange(0, 32));
        assert(s@ =~= bytes@.subrange(32, 64));
        EcdsaSignature { r, s, v: bytes[64] }
    }

    /// Reads a signature from bytes of any number. Bytes that are not 65 in
    /// number are refused: a stored form is neither cut nor filled up.
    pub fn try_from_bytes(bytes: &[u8]) -> (sig: Option<EcdsaSignature>)
        ensures
            sig is Some <==> bytes@.len() == 65,
            sig matches Some(read) ==> read.read_from(bytes@),
    {
        if bytes.len() == SIGNATURE_BYTES {
            Some(EcdsaSignature::from_bytes(bytes))
        } else {
            None
        }
    }

    /// Puts a signature together from what the signing oracle returns, `r`
    /// followed by `s` in 64 bytes, and a recovery indicator. An answer of
    /// another length is no signature.
    pub fn assemble(signature: &[u8], recovery: u8) -> (sig: Option<EcdsaSignature>)
        ensures
            sig is Some <==> signature@.len() == 64,
            sig matches Some(whole) ==> whole.wire() == signature@.push(recovery),
    {
        if signature.len() != 64 {
            return None;
        }
        let mut bytes: Vec<u8> = Vec::with_capacity(SIGNATURE_BYTES);
        bytes.extend_from_slice(signature);
        bytes.push(recovery);
        let whole = EcdsaSignature::from_bytes(bytes.as_slice());
        assert(whole.wire() =~= bytes@);
        Some(whole)
    }

    /// Writes the stored form of the signature.
    pub fn to_bytes(&self) -> (bytes: Vec<u8>)
        ensures
            bytes@ == self.wire(),
    {
        let mut bytes: Vec<u8> = Vec::with_capacity(SIGNATURE_BYTES);
        let mut i: usize = 0;
        while i < 32
            invariant
                i <= 32,
                bytes@ == self.r@.subrange(0, i as int),
            decreases 32 - i,
        {
            bytes.push(self.r[i]);
            i += 1;
        }
        assert(self.r@.subrange(0, 32) =~= self.r@);
        let mut k: usize = 0;
        while k < 32
            invariant
                k <= 32,
                bytes@ == self.r@ + self.s@.subrange(0, k as int),
            decreases 32 - k,
        {
            bytes.push(self.s[k]);
            k += 1;
        }
        assert(self.s@.subrange(0, 32) =~= self.s@);
        bytes.push(self.v);
        bytes
    }

    /// The stored form has 65 bytes, and reading it gives the signature back
    /// and nothing else.
    pub proof fn lemma_wire_round_trip(self, other: EcdsaSignature)
        ensures
            self.wire().len() == 65,
            self.read_from(self.wire()),
            other.read_from(self.wire()) ==> other == self,
    {
        let w = self.wire();
        assert(w.subrange(0, 32) =~= self.r@);
        assert(w.subrange(32, 64) =~= self.s@);
        assert(w[64] == self.v);
        if other.read_from(w) {
            assert(other.r =~= self.r);
            assert(other.s =~= self.s);
        }
    }
}

} // verus!
