//! The byte string that is signed for a mint request, as the foreign
//! verifier rebuilds it: six words of 32 bytes.

use vstd::prelude::*;
use crate::endian::{
    be_bytes, be_encode, be_value, lemma_be_bytes_len, lemma_be_bytes_padding,
    lemma_fits_machine_words, lemma_value_of_bytes, zeros,
};

verus! {

/// Number of bytes in a word of the payload.
pub const WORD_BYTES: usize = 32;

/// Number of bytes in an address of the foreign chain.
pub const ADDRESS_BYTES: usize = 20;

/// Number of bytes in the payload.
pub const PAYLOAD_BYTES: usize = 192;

/// The word that holds a number: 32 bytes, most significant first.
pub open spec fn number_word(value: nat) -> Seq<u8> {
    be_bytes(value, 32)
}

/// The word that holds an address: twelve zero bytes, then the address.
pub open spec fn address_word(address: Seq<u8>) -> Seq<u8> {
    zeros(12) + address
}

/// The payload: the amount to mint, the destination address, the request
/// identifier, the expiry, the target chain and the bridge contract's
/// address, one word each, in this order.
pub open spec fn payload_of(
    amount: u64,
    destination: Seq<u8>,
    msg_id: u128,
    expiry: u64,
    chain_id: u64,
    contract: Seq<u8>,
) -> Seq<u8> {
    number_word(amount as nat) + address_word(destination) + number_word(msg_id as nat)
        + number_word(expiry as nat) + number_word(chain_id as nat) + address_word(contract)
}

/// The word that holds `value`.
pub fn encode_number(value: u128) -> (word: Vec<u8>)
    ensures
        word@ == number_word(value as nat),
        word@.len() == WORD_BYTES,
{
    proof {
        lemma_fits_machine_words(value as nat);
        lemma_be_bytes_padding(value as nat, 16, 16);
        lemma_be_bytes_len(value as nat, 32);
    }
    be_encode(value, WORD_BYTES).unwrap()
}

/// The word that holds `address`.
pub fn encode_address(address: &[u8; 20]) -> (word: Vec<u8>)
    ensures
        word@ == address_word(address@),
        word@.len() == WORD_BYTES,
{
    let mut word: Vec<u8> = Vec::with_capacity(WORD_BYTES);
    let mut i: usize = 0;
    while i < WORD_BYTES - ADDRESS_BYTES
        invariant
            i <= WORD_BYTES - ADDRESS_BYTES,
            word@ == zeros(i as nat),
        decreases WORD_BYTES - ADDRESS_BYTES - i,
    {
        word.push(0u8);
        assert(word@ =~= zeros((i + 1) as nat));
        i += 1;
    }
    word.extend_from_slice(address.as_slice());
    word
}

/// Reads an address of the foreign chain. Bytes that are not 20 in number
/// are refused: an address is neither cut nor filled up.
pub fn read_address(bytes: &[u8]) -> (address: Option<[u8; 20]>)
    ensures
        address is Some <==> bytes@.len() == ADDRESS_BYTES,
        address matches Some(a) ==> a@ == bytes@,
{
    if bytes.len() != ADDRESS_BYTES {
        return None;
    }
    let mut address = [0u8; 20];
    let mut i: usize = 0;
    while i < ADDRESS_BYTES
        invariant
            i <= ADDRESS_BYTES,
            bytes@.len() == ADDRESS_BYTES,
            forall|j: int| 0 <= j < i ==> address@[j] == bytes@[j],
        decreases ADDRESS_BYTES - i,
    {
        address[i] = bytes[i];
        i += 1;
    }
    assert(address@ =~= bytes@);
    Some(address)
}

/// Builds the payload of a mint request. `amount` is what the foreign chain
/// is to mint, the fee taken off already.
pub fn signing_payload(
    amount: u64,
    destination: &[u8; 20],
    msg_id: u128,
    expiry: u64,
    chain_id: u64,
    contract: &[u8; 20],
) -> (payload: Vec<u8>)
    ensures
        payload@ == payload_of(amount, destination@, msg_id, expiry, chain_id, contract@),
        payload@.len() == PAYLOAD_BYTES,
{
    let mut payload = encode_number(amount as u128);
    let destination_word = encode_address(destination);
    payload.extend_from_slice(destination_word.as_slice());
    let id_word = encode_number(msg_id);
    payload.extend_from_slice(id_word.as_slice());
    let expiry_word = encode_number(expiry as u128);
    payload.extend_from_slice(expiry_word.as_slice());
    let chain_word = encode_number(chain_id as u128);
    payload.extend_from_slice(chain_word.as_slice());
    let contract_word = encode_address(contract);
    payload.extend_from_slice(contract_word.as_slice());
    payload
}

/// The payload has 192 bytes. Each of its six words is the word of the
/// field it was built from, and a number's word denotes that number: what
/// was put in can be read back.
pub proof fn lemma_payload_layout(
    amount: u64,
    destination: Seq<u8>,
    msg_id: u128,
    expiry: u64,
    chain_id: u64,
    contract: Seq<u8>,
)
    requires
        destination.len() == ADDRESS_BYTES,
        contract.len() == ADDRESS_BYTES,
    ensures
        ({
            let p = payload_of(amount, destination, msg_id, expiry, chain_id, contract);
            &&& p.len() == PAYLOAD_BYTES
            &&& p.subrange(0, 32) == number_word(amount as nat)
            &&& p.subrange(32, 64) == zeros(12) + destination
            &&& p.subrange(64, 96) == number_word(msg_id as nat)
            &&& p.subrange(96, 128) == number_word(expiry as nat)
            &&& p.subrange(128, 160) == number_word(chain_id as nat)
            &&& p.subrange(160, 192) == zeros(12) + contract
            &&& be_value(p.subrange(0, 32)) == amount
            &&& p.subrange(44, 64) == destination
            &&& be_value(p.subrange(64, 96)) == msg_id
            &&& be_value(p.subrange(96, 128)) == expiry
            &&& be_value(p.subrange(128, 160)) == chain_id
            &&& p.subrange(172, 192) == contract
        }),
{
    let p = payload_of(amount, destination, msg_id, expiry, chain_id, contract);
    lemma_number_word(amount as nat);
    lemma_number_word(msg_id as nat);
    lemma_number_word(expiry as nat);
    lemma_number_word(chain_id as nat);
    assert(p.len() == PAYLOAD_BYTES);
    assert(p.subrange(0, 32) =~= number_word(amount as nat));
    assert(p.subrange(32, 64) =~= zeros(12) + destination);
    assert(p.subrange(64, 96) =~= number_word(msg_id as nat));
    assert(p.subrange(96, 128) =~= number_word(expiry as nat));
    assert(p.subrange(128, 160) =~= number_word(chain_id as nat));
    assert(p.subrange(160, 192) =~= zeros(12) + contract);
    assert(p.subrange(44, 64) =~= destination);
    assert(p.subrange(172, 192) =~= contract);
}

/// The word of a number of at most 128 bits has 32 bytes, of which the
/// first sixteen are zero, and denotes the number.
pub proof fn lemma_number_word(value: nat)
    requires
        value <= u128::MAX,
    ensures
        number_word(value).len() == WORD_BYTES,
        number_word(value) == zeros(16) + be_bytes(value, 16),
        be_value(number_word(value)) == value,
{
    lemma_fits_machine_words(value);
    lemma_be_bytes_padding(value, 16, 16);
    lemma_be_bytes_len(value, 32);
    lemma_value_of_bytes(value, 32);
}

} // verus!
