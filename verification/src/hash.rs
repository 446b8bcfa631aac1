//! SHA-256, taken on trust from the crate `sha2`.

use vstd::prelude::*;
use sha2::{Digest, Sha256};

verus! {

/// The SHA-256 digest of a byte string: 32 bytes.
pub uninterp spec fn sha256_digest(data: Seq<u8>) -> Seq<u8>;

/// `Sha256::digest` of the crate `sha2`: the digest of `data`, as the array
/// that the crate's fixed-size output converts into.
#[verifier::external_body]
fn sha256_call(data: &[u8]) -> (digest: [u8; 32])
    ensures
        digest@ == sha256_digest(data@),
{
    Sha256::digest(data).into()
}

/// The SHA-256 digest of `data`.
pub fn sha256(data: &[u8]) -> (digest: [u8; 32])
    ensures
        digest@ == sha256_digest(data@),
{
    sha256_call(data)
}

} // verus!
