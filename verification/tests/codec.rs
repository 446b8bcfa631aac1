use ckicp_minter::crypto::EcdsaSignature;
use ckicp_minter::endian::{be_decode, be_encode};
use ckicp_minter::hash::sha256;
use ckicp_minter::payload::{encode_address, encode_number, read_address, signing_payload};
use ckicp_minter::recovery::{find_recovery, same_bytes, signer_reply};
use ckicp_minter::types::SignerReply;
use ckicp_minter::status::{MintState, MintStatus};
use ckicp_minter::utils::{calc_msgid, fold_digest, id_key_bytes, subaccount_from_principal};
use k256::ecdsa::SigningKey;
use sha2::{Digest, Sha256};

fn sample_signature() -> EcdsaSignature {
    let mut r = [0u8; 32];
    let mut s = [0u8; 32];
    for i in 0..32 {
        r[i] = i as u8;
        s[i] = 0x80 + i as u8;
    }
    EcdsaSignature { r, s, v: 27 }
}

fn hex(text: &str) -> Vec<u8> {
    let digits: Vec<u8> = text.bytes().map(|c| (c as char).to_digit(16).unwrap() as u8).collect();
    digits.chunks(2).map(|pair| pair[0] * 16 + pair[1]).collect()
}

#[test]
fn signature_is_written_in_65_bytes() {
    let bytes = sample_signature().to_bytes();
    assert_eq!(bytes.len(), 65);
    assert_eq!(bytes[0], 0);
    assert_eq!(bytes[31], 31);
    assert_eq!(bytes[32], 0x80);
    assert_eq!(bytes[63], 0x9f);
    assert_eq!(bytes[64], 27);
}

#[test]
fn signature_round_trips() {
    let signature = sample_signature();
    let read = EcdsaSignature::from_bytes(&signature.to_bytes());
    assert_eq!(read, signature);
    assert_eq!(read.r, signature.r);
    assert_eq!(read.s, signature.s);
    assert_eq!(read.v, 27);
}

#[test]
fn signature_bytes_round_trip() {
    let bytes: Vec<u8> = (0..65u8).map(|i| i.wrapping_mul(7)).collect();
    assert_eq!(EcdsaSignature::from_bytes(&bytes).to_bytes(), bytes);
}

#[test]
fn signature_is_read_from_65_bytes_only() {
    let bytes = sample_signature().to_bytes();
    assert_eq!(EcdsaSignature::try_from_bytes(&bytes), Some(sample_signature()));
    assert_eq!(EcdsaSignature::try_from_bytes(&bytes[..64]), None);
    let mut longer = bytes.clone();
    longer.push(99);
    assert_eq!(EcdsaSignature::try_from_bytes(&longer), None);
    assert_eq!(EcdsaSignature::try_from_bytes(&[]), None);
}

#[test]
fn signature_is_assembled_from_the_oracle_answer() {
    let signature = sample_signature();
    let mut answer = signature.r.to_vec();
    answer.extend_from_slice(&signature.s);
    assert_eq!(EcdsaSignature::assemble(&answer, 27), Some(signature));
    assert_eq!(EcdsaSignature::assemble(&answer[..63], 27), None);
    answer.push(0);
    assert_eq!(EcdsaSignature::assemble(&answer, 27), None);
    assert_eq!(EcdsaSignature::assemble(&[], 0), None);
}

#[test]
fn numbers_are_written_most_significant_byte_first() {
    assert_eq!(be_encode(0x0102, 4), Some(vec![0, 0, 1, 2]));
    assert_eq!(be_encode(0xdead_beef, 4), Some(vec![0xde, 0xad, 0xbe, 0xef]));
    assert_eq!(be_encode(0, 0), Some(vec![]));
    assert_eq!(be_encode(0, 3), Some(vec![0, 0, 0]));
    assert_eq!(be_encode(255, 1), Some(vec![255]));
    let widest = be_encode(u128::MAX, 16).unwrap();
    assert_eq!(widest, vec![0xff; 16]);
    let padded = be_encode(u128::MAX, 20).unwrap();
    assert_eq!(&padded[..4], &[0, 0, 0, 0]);
    assert_eq!(&padded[4..], &[0xff; 16]);
}

#[test]
fn a_number_that_does_not_fit_is_refused() {
    assert_eq!(be_encode(256, 1), None);
    assert_eq!(be_encode(1, 0), None);
    assert_eq!(be_encode(0x1_0000_0000, 4), None);
    assert_eq!(be_encode(u128::MAX, 15), None);
}

#[test]
fn numbers_are_read_most_significant_byte_first() {
    assert_eq!(be_decode(&[]), Some(0));
    assert_eq!(be_decode(&[1, 2]), Some(258));
    assert_eq!(be_decode(&[0, 0, 0, 0xde, 0xad, 0xbe, 0xef]), Some(0xdead_beef));
    assert_eq!(be_decode(&[0xff; 16]), Some(u128::MAX));
    let mut long = vec![0u8; 40];
    long[39] = 9;
    assert_eq!(be_decode(&long), Some(9));
}

#[test]
fn a_number_beyond_128_bits_is_refused() {
    let mut bytes = vec![1u8];
    bytes.extend_from_slice(&[0; 16]);
    assert_eq!(be_decode(&bytes), None);
    assert_eq!(be_decode(&[0xff; 17]), None);
}

#[test]
fn encoding_agrees_with_the_standard_library() {
    for value in [0u64, 1, 255, 256, 1_000_000, u64::MAX] {
        assert_eq!(be_encode(value as u128, 8).unwrap(), value.to_be_bytes().to_vec());
        assert_eq!(be_decode(&value.to_be_bytes()), Some(value as u128));
    }
    let id = 0x0123_4567_89ab_cdef_0011_2233_4455_6677u128;
    assert_eq!(id_key_bytes(id), id.to_be_bytes().to_vec());
}

#[test]
fn sha256_of_abc() {
    assert_eq!(
        sha256(b"abc").to_vec(),
        hex("ba7816bf8f01cfea414140de5dae2223b00361a396177a9cb410ff61f20015ad")
    );
}

#[test]
fn subaccount_holds_length_then_principal() {
    let principal = [1u8, 2, 3, 4, 5, 6, 7, 8, 9, 10];
    let subaccount = subaccount_from_principal(&principal).unwrap();
    assert_eq!(
        subaccount.to_vec(),
        hex("0a0102030405060708090a000000000000000000000000000000000000000000")
    );
    let anonymous = subaccount_from_principal(&[4]).unwrap();
    assert_eq!(anonymous[0], 1);
    assert_eq!(anonymous[1], 4);
    assert_eq!(&anonymous[2..], &[0u8; 30]);
    assert_eq!(subaccount_from_principal(&[]), Some([0u8; 32]));
}

#[test]
fn subaccount_takes_up_to_31_bytes() {
    let longest = [7u8; 31];
    let subaccount = subaccount_from_principal(&longest).unwrap();
    assert_eq!(subaccount[0], 31);
    assert_eq!(&subaccount[1..], &longest);
    assert_eq!(subaccount_from_principal(&[7u8; 32]), None);
    assert_eq!(subaccount_from_principal(&[7u8; 100]), None);
}

#[test]
fn digest_is_folded_by_exclusive_or() {
    let mut digest = [0u8; 32];
    for i in 0..32 {
        digest[i] = i as u8;
    }
    assert_eq!(fold_digest(&digest), 0x1010_1010_1010_1010_1010_1010_1010_1010);
    assert_eq!(fold_digest(&[0xab; 32]), 0);
    let mut high_only = [0u8; 32];
    high_only[0] = 0x80;
    assert_eq!(fold_digest(&high_only), 1u128 << 127);
    let mut low_only = [0u8; 32];
    low_only[31] = 1;
    assert_eq!(fold_digest(&low_only), 1);
}

#[test]
fn request_identifier_known_answers() {
    let subaccount = subaccount_from_principal(&[1, 2, 3, 4, 5, 6, 7, 8, 9, 10]).unwrap();
    assert_eq!(calc_msgid(&subaccount, 1), 0xcb75_1ee1_2b37_1682_82cf_954f_78d5_d4f9);
    assert_eq!(calc_msgid(&subaccount, 2), 0x5bdf_c4c1_9c61_be17_51da_092b_1ebd_3186);
}

#[test]
fn request_identifier_is_the_folded_digest() {
    let subaccount = [0x5au8; 32];
    let nonce = 0x0102_0304u32;
    let mut hasher = Sha256::new();
    hasher.update(subaccount);
    hasher.update(nonce.to_be_bytes());
    let digest: [u8; 32] = hasher.finalize().into();
    let high = u128::from_be_bytes(digest[..16].try_into().unwrap());
    let low = u128::from_be_bytes(digest[16..].try_into().unwrap());
    assert_eq!(calc_msgid(&subaccount, nonce), high ^ low);
}

#[test]
fn request_identifiers_of_one_subaccount_differ() {
    let subaccount = subaccount_from_principal(&[9, 9, 9]).unwrap();
    let mut seen = std::collections::HashSet::new();
    for nonce in 1..=3000u32 {
        assert!(seen.insert(calc_msgid(&subaccount, nonce)));
    }
    let other = subaccount_from_principal(&[9, 9, 8]).unwrap();
    for nonce in 1..=3000u32 {
        assert!(seen.insert(calc_msgid(&other, nonce)));
    }
}

#[test]
fn request_identifier_is_a_function_of_its_inputs() {
    let subaccount = [3u8; 32];
    assert_eq!(calc_msgid(&subaccount, 77), calc_msgid(&subaccount, 77));
}

#[test]
fn number_word_is_padded_in_front() {
    let word = encode_number(999_000);
    assert_eq!(
        word,
        hex("00000000000000000000000000000000000000000000000000000000000f3e58")
    );
    assert_eq!(encode_number(0), vec![0u8; 32]);
    let widest = encode_number(u128::MAX);
    assert_eq!(&widest[..16], &[0u8; 16]);
    assert_eq!(&widest[16..], &[0xffu8; 16]);
}

#[test]
fn address_word_has_twelve_zero_bytes_in_front() {
    let word = encode_address(&[0xaa; 20]);
    assert_eq!(word.len(), 32);
    assert_eq!(&word[..12], &[0u8; 12]);
    assert_eq!(&word[12..], &[0xaau8; 20]);
}

#[test]
fn an_address_of_another_length_is_refused() {
    assert_eq!(read_address(&[1u8; 20]), Some([1u8; 20]));
    assert_eq!(read_address(&[1u8; 19]), None);
    assert_eq!(read_address(&[1u8; 21]), None);
    assert_eq!(read_address(&[1u8; 32]), None);
    assert_eq!(read_address(&[]), None);
    let mut mixed = [0u8; 20];
    for i in 0..20 {
        mixed[i] = 200 + i as u8;
    }
    assert_eq!(read_address(&mixed.to_vec()), Some(mixed));
}

#[test]
fn payload_has_six_words_in_order() {
    let amount = 999_000u64;
    let destination = [0xaau8; 20];
    let msg_id = 0xcb75_1ee1_2b37_1682_82cf_954f_78d5_d4f9u128;
    let expiry = 1_700_003_600u64;
    let chain_id = 1u64;
    let contract = [0xbbu8; 20];
    let payload = signing_payload(amount, &destination, msg_id, expiry, chain_id, &contract);
    assert_eq!(payload.len(), 192);
    let mut expected = Vec::new();
    expected.extend_from_slice(&[0u8; 24]);
    expected.extend_from_slice(&amount.to_be_bytes());
    expected.extend_from_slice(&[0u8; 12]);
    expected.extend_from_slice(&destination);
    expected.extend_from_slice(&[0u8; 16]);
    expected.extend_from_slice(&msg_id.to_be_bytes());
    expected.extend_from_slice(&[0u8; 24]);
    expected.extend_from_slice(&expiry.to_be_bytes());
    expected.extend_from_slice(&[0u8; 24]);
    expected.extend_from_slice(&chain_id.to_be_bytes());
    expected.extend_from_slice(&[0u8; 12]);
    expected.extend_from_slice(&contract);
    assert_eq!(payload, expected);
    assert_eq!(&payload[0..32], &encode_number(amount as u128)[..]);
    assert_eq!(&payload[32..44], &[0u8; 12]);
    assert_eq!(&payload[44..64], &destination);
    assert_eq!(&payload[64..96], &encode_number(msg_id)[..]);
    assert_eq!(&payload[96..128], &encode_number(expiry as u128)[..]);
    assert_eq!(&payload[128..160], &encode_number(chain_id as u128)[..]);
    assert_eq!(&payload[160..172], &[0u8; 12]);
    assert_eq!(&payload[172..192], &contract);
    assert_eq!(
        sha256(&payload).to_vec(),
        hex("88026bb9db922b7c28fe384596ee02e09df9b6c7e463a3a97a052c3d9276cd24")
    );
}

#[test]
fn payload_fields_read_back() {
    let payload = signing_payload(u64::MAX, &[1; 20], u128::MAX, 0, 0xffff_0000, &[2; 20]);
    assert_eq!(be_decode(&payload[0..32]), Some(u64::MAX as u128));
    assert_eq!(read_address(&payload[44..64]), Some([1; 20]));
    assert_eq!(be_decode(&payload[64..96]), Some(u128::MAX));
    assert_eq!(be_decode(&payload[96..128]), Some(0));
    assert_eq!(be_decode(&payload[128..160]), Some(0xffff_0000));
    assert_eq!(read_address(&payload[172..192]), Some([2; 20]));
}

#[test]
fn state_codes_and_order() {
    assert_eq!(MintState::Init.code(), 0);
    assert_eq!(MintState::FundReceived.code(), 1);
    assert_eq!(MintState::Signed.code(), 2);
    assert_eq!(MintState::from_code(0), Some(MintState::Init));
    assert_eq!(MintState::from_code(1), Some(MintState::FundReceived));
    assert_eq!(MintState::from_code(2), Some(MintState::Signed));
    assert_eq!(MintState::Failed.code(), 3);
    assert_eq!(MintState::from_code(3), Some(MintState::Failed));
    assert_eq!(MintState::from_code(4), None);
    assert_eq!(MintState::from_code(255), None);
    let states = [MintState::Init, MintState::FundReceived, MintState::Signed, MintState::Failed];
    let moves = [(0, 1), (1, 2), (0, 3)];
    for (i, before) in states.iter().enumerate() {
        for (k, after) in states.iter().enumerate() {
            assert_eq!(after.is_next_after(before), moves.contains(&(i, k)));
        }
    }
}

#[test]
fn status_record_has_17_bytes() {
    let status = MintStatus { amount: 1_000_000, expiry: 1_700_003_600, state: MintState::FundReceived };
    let record = status.to_record();
    let mut expected = 1_000_000u64.to_be_bytes().to_vec();
    expected.extend_from_slice(&1_700_003_600u64.to_be_bytes());
    expected.push(1);
    assert_eq!(record, expected);
    assert_eq!(MintStatus::from_record(&record), Some(status));
}

#[test]
fn status_record_round_trips() {
    for state in [MintState::Init, MintState::FundReceived, MintState::Signed, MintState::Failed]
    {
        for (amount, expiry) in [(0u64, 0u64), (1, u64::MAX), (u64::MAX, 1), (12345, 67890)] {
            let status = MintStatus { amount, expiry, state };
            assert_eq!(MintStatus::from_record(&status.to_record()), Some(status));
        }
    }
}

#[test]
fn a_malformed_status_record_is_refused() {
    let good = MintStatus { amount: 5, expiry: 6, state: MintState::Init }.to_record();
    assert_eq!(MintStatus::from_record(&good[..16]), None);
    let mut long = good.clone();
    long.push(0);
    assert_eq!(MintStatus::from_record(&long), None);
    let mut bad_state = good.clone();
    bad_state[16] = 4;
    assert_eq!(MintStatus::from_record(&bad_state), None);
    assert_eq!(MintStatus::from_record(&[]), None);
}

#[test]
fn recovery_indicator_is_found_for_the_signer() {
    let mut found = [0u32; 2];
    for seed in 1..=24u8 {
        let key = SigningKey::from_slice(&[seed; 32]).unwrap();
        let signer = key.verifying_key().to_sec1_bytes().to_vec();
        let digest = sha256(&[seed, 1, 2, 3]);
        let (signature, id) = key.sign_prehash_recoverable(&digest).unwrap();
        let signature = signature.to_bytes().to_vec();
        assert_eq!(signer.len(), 33);
        assert_eq!(find_recovery(&digest, &signature, &signer), Some(id.to_byte()));
        found[id.to_byte() as usize] += 1;

        let stranger = SigningKey::from_slice(&[seed + 100; 32]).unwrap();
        let stranger = stranger.verifying_key().to_sec1_bytes().to_vec();
        assert_eq!(find_recovery(&digest, &signature, &stranger), None);
        assert_eq!(find_recovery(&sha256(&[seed]), &signature, &signer), None);
    }
    assert!(found[0] > 0 && found[1] > 0);
}

#[test]
fn no_recovery_indicator_for_what_is_no_signature() {
    let digest = sha256(b"digest");
    assert_eq!(find_recovery(&digest, &[], &[2; 33]), None);
    assert_eq!(find_recovery(&digest, &[1; 63], &[2; 33]), None);
    assert_eq!(find_recovery(&digest, &[0; 64], &[2; 33]), None);
    assert_eq!(find_recovery(&digest, &[0xff; 64], &[2; 33]), None);
    assert_eq!(find_recovery(&digest, &[1; 64], &[]), None);
    assert!(same_bytes(&[], &[]));
    assert!(same_bytes(&[1, 2], &[1, 2]));
    assert!(!same_bytes(&[1, 2], &[1, 3]));
    assert!(!same_bytes(&[1, 2], &[1, 2, 3]));
    assert!(!same_bytes(&[1], &[]));
}

#[test]
fn oracle_answer_gets_its_recovery_indicator() {
    let mut found = [0u32; 2];
    for seed in 1..=24u8 {
        let key = SigningKey::from_slice(&[seed; 32]).unwrap();
        let signer = key.verifying_key().to_sec1_bytes().to_vec();
        let digest = sha256(&[seed, 9]);
        let (signature, id) = key.sign_prehash_recoverable(&digest).unwrap();
        let signature = signature.to_bytes().to_vec();
        assert_eq!(
            signer_reply(&digest, signature.clone(), &signer),
            SignerReply::Signed { signature: signature.clone(), recovery: 27 + id.to_byte() }
        );
        found[id.to_byte() as usize] += 1;
        assert_eq!(signer_reply(&digest, signature, &[2; 33]), SignerReply::Failed);
    }
    assert!(found[0] > 0 && found[1] > 0);
    assert_eq!(signer_reply(&[0; 32], vec![1; 10], &[2; 33]), SignerReply::Failed);
}
