//! The signature store: the attestation issued for each request identifier.

use vstd::prelude::*;
use crate::crypto::EcdsaSignature;
use crate::error::Fault;
use crate::memory::DurableMap;
use crate::utils::{id_key, id_key_bytes, lemma_id_key_injective};

verus! {

/// The issued signatures. A signature is stored once and stays as it is.
pub struct SignatureStore {
    map: DurableMap,
}

/// Whether `found` is what `entries` hold for the request `id`: nothing,
/// the signature, or the report that the entry does not have 65 bytes.
pub open spec fn signature_in(
    entries: Map<Seq<u8>, Seq<u8>>,
    id: u128,
    found: Result<Option<EcdsaSignature>, Fault>,
) -> bool {
    let key = id_key(id);
    match found {
        Ok(None) => !entries.contains_key(key),
        Ok(Some(signature)) => entries.contains_key(key) && signature.read_from(entries[key]),
        Err(fault) => fault == Fault::CorruptRecord && entries.contains_key(key)
            && entries[key].len() != 65,
    }
}

/// The entries after an attempt to store `signature` for `id`: where `id`
/// has an entry, they are as before.
pub open spec fn after_put(entries: Map<Seq<u8>, Seq<u8>>, id: u128, signature: EcdsaSignature)
    -> Map<Seq<u8>, Seq<u8>> {
    if entries.contains_key(id_key(id)) {
        entries
    } else {
        entries.insert(id_key(id), signature.wire())
    }
}

impl SignatureStore {
    /// The stored entries, by the key of the request identifier.
    pub closed spec fn view(&self) -> Map<Seq<u8>, Seq<u8>> {
        self.map@
    }

    /// The store kept in `map`.
    pub fn new(map: DurableMap) -> (store: SignatureStore)
        ensures
            store@ == map@,
    {
        SignatureStore { map }
    }

    /// Whether a signature is stored for `id`, in whatever form.
    pub fn holds(&self, id: u128) -> (yes: bool)
        ensures
            yes == self@.contains_key(id_key(id)),
    {
        let key = id_key_bytes(id);
        self.map.get(key.as_slice()).is_some()
    }

    /// Stores the signature issued for `id`. Where one is stored already,
    /// nothing is written and the call reports `DuplicateRecord`.
    pub fn put(&mut self, id: u128, signature: &EcdsaSignature) -> (done: Result<(), Fault>)
        ensures
            done is Ok <==> !old(self)@.contains_key(id_key(id)),
            done matches Err(fault) ==> fault == Fault::DuplicateRecord,
            final(self)@ == after_put(old(self)@, id, *signature),
    {
        if self.holds(id) {
            return Err(Fault::DuplicateRecord);
        }
        let key = id_key_bytes(id);
        let bytes = signature.to_bytes();
        let _ = self.map.insert(key.as_slice(), bytes.as_slice());
        Ok(())
    }

    /// The signature stored for `id`, if there is one. Changes nothing.
    pub fn get(&self, id: u128) -> (found: Result<Option<EcdsaSignature>, Fault>)
        ensures
            signature_in(self@, id, found),
    {
        let key = id_key_bytes(id);
        match self.map.get(key.as_slice()) {
            None => Ok(None),
            Some(bytes) => match EcdsaSignature::try_from_bytes(bytes.as_slice()) {
                Some(signature) => Ok(Some(signature)),
                None => Err(Fault::CorruptRecord),
            },
        }
    }
}

/// A signature that has been stored is what the store gives for its
/// request, also after any later attempt to store another, for the same
/// request or for a different one.
pub proof fn lemma_signature_kept(
    entries: Map<Seq<u8>, Seq<u8>>,
    id: u128,
    signature: EcdsaSignature,
    later_id: u128,
    later: EcdsaSignature,
)
    requires
        !entries.contains_key(id_key(id)),
    ensures
        signature_in(after_put(entries, id, signature), id, Ok(Some(signature))),
        signature_in(
            after_put(after_put(entries, id, signature), later_id, later),
            id,
            Ok(Some(signature)),
        ),
{
    signature.lemma_wire_round_trip(signature);
    lemma_id_key_injective(id, later_id);
}

/// What `entries` hold for a request is one thing only.
pub proof fn lemma_signature_unique(
    entries: Map<Seq<u8>, Seq<u8>>,
    id: u128,
    a: Result<Option<EcdsaSignature>, Fault>,
    b: Result<Option<EcdsaSignature>, Fault>,
)
    requires
        signature_in(entries, id, a),
        signature_in(entries, id, b),
    ensures
        a == b,
{
    if let Ok(Some(x)) = a {
        if let Ok(Some(y)) = b {
            assert(x.r =~= y.r);
            assert(x.s =~= y.s);
        }
    }
}

} // verus!
