//! Finding the recovery indicator of a signature. The signing oracle returns
//! `r` and `s` only; which of the candidate keys signed is told by
//! recovering each and comparing it with the signer's known key.
//!
//! Keys are recovered by the crate `k256`; what it returns is taken on trust
//! and named here.

use vstd::prelude::*;
use k256::ecdsa::{RecoveryId, Signature, VerifyingKey};
use crate::types::SignerReply;

verus! {

/// The number of candidates that are tried; they are numbered from 0.
pub const RECOVERY_CANDIDATES: u8 = 2;

/// What the foreign chain adds to the number of the candidate: it reads a
/// recovery indicator of 27 or 28.
pub const RECOVERY_OFFSET: u8 = 27;

/// The secp256k1 key that the signature over the digest recovers to for a
/// candidate, in its compressed SEC1 form, if there is one.
pub uninterp spec fn recovered_key(digest: Seq<u8>, signature: Seq<u8>, candidate: u8) -> Option<
    Seq<u8>,
>;

/// `VerifyingKey::recover_from_prehash` of `k256`, on the signature that
/// `Signature::from_slice` reads and the candidate that
/// `RecoveryId::from_byte` reads, written by `to_sec1_bytes`. Each of the
/// three returns an error or nothing, and none panics, where its input is
/// not what it reads: then no key is recovered.
#[verifier::external_body]
fn recover_key(digest: &[u8; 32], signature: &[u8], candidate: u8) -> (key: Option<Vec<u8>>)
    ensures
        match key {
            Some(bytes) => recovered_key(digest@, signature@, candidate) == Some(bytes@),
            None => recovered_key(digest@, signature@, candidate) is None,
        },
{
    let signature = Signature::from_slice(signature).ok()?;
    let id = RecoveryId::from_byte(candidate)?;
    let key = VerifyingKey::recover_from_prehash(digest, &signature, id).ok()?;
    Some(key.to_sec1_bytes().to_vec())
}

/// Whether two byte strings are the same.
pub fn same_bytes(a: &[u8], b: &[u8]) -> (same: bool)
    ensures
        same == (a@ == b@),
{
    if a.len() != b.len() {
        return false;
    }
    let mut i: usize = 0;
    while i < a.len()
        invariant
            i <= a.len(),
            a@.len() == b@.len(),
            forall|j: int| 0 <= j < i ==> a@[j] == b@[j],
        decreases a.len() - i,
    {
        if a[i] != b[i] {
            return false;
        }
        i += 1;
    }
    assert(a@ =~= b@);
    true
}

/// Whether `candidate` is the recovery indicator of the signature: the
/// signature over the digest recovers to the signer's key for it and for no
/// candidate before it.
pub open spec fn is_recovery(
    digest: Seq<u8>,
    signature: Seq<u8>,
    signer_key: Seq<u8>,
    candidate: u8,
) -> bool {
    &&& candidate < RECOVERY_CANDIDATES
    &&& recovered_key(digest, signature, candidate) == Some(signer_key)
    &&& forall|earlier: u8|
        earlier < candidate ==> recovered_key(digest, signature, earlier) != Some(signer_key)
}

/// The recovery indicator of `signature` over `digest` for the signer whose
/// compressed key is `signer_key`: 0 or 1, or `None` where the signature
/// recovers to the signer's key for neither.
pub fn find_recovery(digest: &[u8; 32], signature: &[u8], signer_key: &[u8]) -> (found: Option<u8>)
    ensures
        match found {
            Some(candidate) => is_recovery(digest@, signature@, signer_key@, candidate),
            None => forall|candidate: u8|
                candidate < RECOVERY_CANDIDATES ==> recovered_key(
                    digest@,
                    signature@,
                    candidate,
                ) != Some(signer_key@),
        },
{
    let mut candidate: u8 = 0;
    while candidate < RECOVERY_CANDIDATES
        invariant
            candidate <= RECOVERY_CANDIDATES,
            forall|earlier: u8|
                earlier < candidate ==> recovered_key(digest@, signature@, earlier) != Some(
                    signer_key@,
                ),
        decreases RECOVERY_CANDIDATES - candidate,
    {
        let matches_signer = match recover_key(digest, signature, candidate) {
            Some(key) => same_bytes(key.as_slice(), signer_key),
            None => false,
        };
        if matches_signer {
            return Some(candidate);
        }
        candidate += 1;
    }
    None
}

/// The oracle's answer as the mint flow takes it: the signature with its
/// recovery indicator as the foreign chain reads it, and a failure where
/// the signature recovers to the signer's key for no candidate.
pub fn signer_reply(digest: &[u8; 32], signature: Vec<u8>, signer_key: &[u8]) -> (reply:
    SignerReply)
    ensures
        match reply {
            SignerReply::Signed { signature: held, recovery } => {
                &&& held == signature
                &&& recovery >= RECOVERY_OFFSET
                &&& is_recovery(
                    digest@,
                    signature@,
                    signer_key@,
                    (recovery - RECOVERY_OFFSET) as u8,
                )
            },
            SignerReply::Failed => forall|candidate: u8|
                candidate < RECOVERY_CANDIDATES ==> recovered_key(
                    digest@,
                    signature@,
                    candidate,
                ) != Some(signer_key@),
        },
{
    match find_recovery(digest, signature.as_slice(), signer_key) {
        Some(candidate) => SignerReply::Signed {
            signature,
            recovery: RECOVERY_OFFSET + candidate,
        },
        None => SignerReply::Failed,
    }
}

} // verus!
