//! Subaccounts of principals, and request identifiers.

use vstd::prelude::*;
use vstd::slice::slice_subrange;
use crate::endian::{
    be_bytes, be_decode, be_encode, be_value, lemma_be_bytes_injective, lemma_be_bytes_len,
    lemma_bytes_of_value, lemma_fits_machine_words, zeros,
};
use crate::hash::{sha256, sha256_digest};

verus! {

/// The longest principal that a subaccount has room for, in bytes.
pub const MAX_PRINCIPAL_BYTES: usize = 31;

/// The subaccount of a principal: its length, its bytes, then zero bytes up
/// to 32 bytes in all.
pub open spec fn principal_subaccount(principal: Seq<u8>) -> Seq<u8> {
    seq![principal.len() as u8] + principal + zeros((31 - principal.len()) as nat)
}

/// The subaccount that stands for `principal`: `None` where the principal
/// has more than 31 bytes and so does not fit.
pub fn subaccount_from_principal(principal: &[u8]) -> (subaccount: Option<[u8; 32]>)
    ensures
        subaccount is Some <==> principal@.len() <= MAX_PRINCIPAL_BYTES,
        subaccount matches Some(bytes) ==> bytes@ == principal_subaccount(principal@),
{
    let len = principal.len();
    if len > MAX_PRINCIPAL_BYTES {
        return None;
    }
    let mut bytes = [0u8; 32];
    bytes[0] = len as u8;
    let mut i: usize = 0;
    while i < len
        invariant
            i <= len,
            len == principal@.len(),
            len <= MAX_PRINCIPAL_BYTES,
            bytes@[0] == len as u8,
            forall|j: int| 0 <= j < i ==> bytes@[1 + j] == principal@[j],
            forall|j: int| 1 + i <= j < 32 ==> bytes@[j] == 0u8,
        decreases len - i,
    {
        bytes[1 + i] = principal[i];
        i += 1;
    }
    assert(bytes@ =~= principal_subaccount(principal@));
    Some(bytes)
}

/// Two principals with the same subaccount are the same principal.
pub proof fn lemma_subaccount_injective(a: Seq<u8>, b: Seq<u8>)
    requires
        a.len() <= MAX_PRINCIPAL_BYTES,
        b.len() <= MAX_PRINCIPAL_BYTES,
        principal_subaccount(a) == principal_subaccount(b),
    ensures
        a == b,
{
    let sa = principal_subaccount(a);
    let sb = principal_subaccount(b);
    assert(sa[0] == a.len() as u8);
    assert(sb[0] == b.len() as u8);
    assert(a.len() == b.len());
    assert forall|j: int| 0 <= j < a.len() implies a[j] == b[j] by {
        assert(sa[1 + j] == a[j]);
        assert(sb[1 + j] == b[j]);
    }
    assert(a =~= b);
}

/// The key under which a 128-bit identifier is stored: its sixteen bytes,
/// most significant first.
pub open spec fn id_key(id: u128) -> Seq<u8> {
    be_bytes(id as nat, 16)
}

/// The key under which `id` is stored.
pub fn id_key_bytes(id: u128) -> (key: Vec<u8>)
    ensures
        key@ == id_key(id),
        key@.len() == 16,
{
    proof {
        lemma_fits_machine_words(id as nat);
        lemma_be_bytes_len(id as nat, 16);
    }
    be_encode(id, 16).unwrap()
}

/// Different identifiers are stored under different keys.
pub proof fn lemma_id_key_injective(a: u128, b: u128)
    ensures
        id_key(a) == id_key(b) <==> a == b,
{
    lemma_fits_machine_words(a as nat);
    lemma_fits_machine_words(b as nat);
    if id_key(a) == id_key(b) {
        lemma_be_bytes_injective(a as nat, b as nat, 16);
    }
}

/// What is hashed for a request identifier: the subaccount, then the nonce
/// in four bytes, most significant first.
pub open spec fn msgid_preimage(subaccount: Seq<u8>, nonce: u32) -> Seq<u8> {
    subaccount + be_bytes(nonce as nat, 4)
}

/// A 32-byte digest folded to 128 bits: its two halves, read as numbers most
/// significant byte first, combined by exclusive or.
pub open spec fn fold_digest_spec(digest: Seq<u8>) -> u128 {
    (be_value(digest.subrange(0, 16)) as u128) ^ (be_value(digest.subrange(16, 32)) as u128)
}

/// The identifier of the request that `subaccount` makes with `nonce`.
pub open spec fn msgid(subaccount: Seq<u8>, nonce: u32) -> u128 {
    fold_digest_spec(sha256_digest(msgid_preimage(subaccount, nonce)))
}

/// Folds a digest to 128 bits.
pub fn fold_digest(digest: &[u8; 32]) -> (id: u128)
    ensures
        id == fold_digest_spec(digest@),
{
    let bytes = digest.as_slice();
    let high_half = slice_subrange(bytes, 0, 16);
    let low_half = slice_subrange(bytes, 16, 32);
    proof {
        lemma_bytes_of_value(high_half@);
        lemma_bytes_of_value(low_half@);
        lemma_fits_machine_words(be_value(high_half@));
        lemma_fits_machine_words(be_value(low_half@));
    }
    let high = be_decode(high_half).unwrap();
    let low = be_decode(low_half).unwrap();
    high ^ low
}

/// The identifier of the request that `subaccount` makes with `nonce`: the
/// SHA-256 digest of the subaccount and the nonce, folded to 128 bits.
pub fn calc_msgid(subaccount: &[u8; 32], nonce: u32) -> (id: u128)
    ensures
        id == msgid(subaccount@, nonce),
{
    let mut preimage: Vec<u8> = Vec::with_capacity(36);
    preimage.extend_from_slice(subaccount.as_slice());
    proof {
        lemma_fits_machine_words(nonce as nat);
    }
    let tail = be_encode(nonce as u128, 4).unwrap();
    preimage.extend_from_slice(tail.as_slice());
    assert(preimage@ =~= msgid_preimage(subaccount@, nonce));
    let digest = sha256(preimage.as_slice());
    fold_digest(&digest)
}

/// Requests that differ in the subaccount or in the nonce hash different
/// byte strings: their identifiers can collide only where the digest or its
/// folding does.
pub proof fn lemma_preimage_injective(
    subaccount: Seq<u8>,
    nonce: u32,
    other_subaccount: Seq<u8>,
    other_nonce: u32,
)
    requires
        subaccount.len() == other_subaccount.len(),
        msgid_preimage(subaccount, nonce) == msgid_preimage(other_subaccount, other_nonce),
    ensures
        subaccount == other_subaccount,
        nonce == other_nonce,
{
    let hashed = msgid_preimage(subaccount, nonce);
    let other_hashed = msgid_preimage(other_subaccount, other_nonce);
    let len = subaccount.len() as int;
    lemma_be_bytes_len(nonce as nat, 4);
    lemma_be_bytes_len(other_nonce as nat, 4);
    assert(hashed.subrange(0, len) =~= subaccount);
    assert(other_hashed.subrange(0, len) =~= other_subaccount);
    assert(hashed.subrange(len, len + 4) =~= be_bytes(nonce as nat, 4));
    assert(other_hashed.subrange(len, len + 4) =~= be_bytes(other_nonce as nat, 4));
    lemma_fits_machine_words(nonce as nat);
    lemma_fits_machine_words(other_nonce as nat);
    lemma_be_bytes_injective(nonce as nat, other_nonce as nat, 4);
}

} // verus!
