use ckicp_minter::crypto::EcdsaSignature;
use ckicp_minter::error::Fault;
use ckicp_minter::events::EventDeduplicator;
use ckicp_minter::guard::{InFlight, MintTicket, MutationGuard};
use ckicp_minter::memory::{DurableMap, StableStorage, MIN_STORAGE_PAGES};
use ckicp_minter::nonces::NonceLedger;
use ckicp_minter::signatures::SignatureStore;
use ckicp_minter::status::{MintState, MintStatus};
use ckicp_minter::statuses::StatusLedger;
use ckicp_minter::utils::id_key_bytes;

fn fresh_map() -> DurableMap {
    StableStorage::open(0, 131072).unwrap().map(0).unwrap()
}

fn signature(seed: u8) -> EcdsaSignature {
    EcdsaSignature { r: [seed; 32], s: [seed.wrapping_add(1); 32], v: seed.wrapping_add(2) }
}

#[test]
fn durable_map_returns_what_was_stored() {
    let mut map = fresh_map();
    assert_eq!(map.get(&[1, 2, 3]), None);
    assert_eq!(map.insert(&[1, 2, 3], &[9, 8]), Ok(None));
    assert_eq!(map.get(&[1, 2, 3]), Some(vec![9, 8]));
    assert_eq!(map.get(&[1, 2]), None);
    assert_eq!(map.get(&[1, 2, 3, 0]), None);
    assert_eq!(map.insert(&[1, 2, 3], &[7]), Ok(Some(vec![9, 8])));
    assert_eq!(map.get(&[1, 2, 3]), Some(vec![7]));
}

#[test]
fn durable_map_keeps_other_entries() {
    let mut map = fresh_map();
    for i in 0..200u8 {
        assert_eq!(map.insert(&[i, i], &[i]), Ok(None));
    }
    assert_eq!(map.insert(&[5, 5], &[0xee]), Ok(Some(vec![5])));
    for i in 0..200u8 {
        let expected = if i == 5 { vec![0xee] } else { vec![i] };
        assert_eq!(map.get(&[i, i]), Some(expected));
    }
}

#[test]
fn durable_map_takes_empty_and_longest_entries() {
    let mut map = fresh_map();
    assert_eq!(map.insert(&[], &[]), Ok(None));
    assert_eq!(map.get(&[]), Some(vec![]));
    assert_eq!(map.insert(&[1; 32], &[2; 65]), Ok(None));
    assert_eq!(map.get(&[1; 32]), Some(vec![2; 65]));
}

#[test]
fn durable_map_refuses_what_is_too_long() {
    let mut map = fresh_map();
    assert_eq!(map.insert(&[1; 33], &[2]), Err(()));
    assert_eq!(map.insert(&[1], &[2; 66]), Err(()));
    assert_eq!(map.get(&[1; 33]), None);
    assert_eq!(map.get(&[1]), None);
}

#[test]
fn storage_gives_out_255_memories() {
    let mut storage = StableStorage::open(0, 131072).unwrap();
    assert!(storage.map(254).is_some());
    assert!(storage.map(255).is_none());
}

#[test]
fn memories_of_one_storage_are_apart() {
    let mut storage = StableStorage::open(0, 131072).unwrap();
    let mut first = storage.map(0).unwrap();
    let mut second = storage.map(1).unwrap();
    assert_eq!(first.insert(&[1], &[10]), Ok(None));
    assert_eq!(second.get(&[1]), None);
    assert_eq!(second.insert(&[1], &[20]), Ok(None));
    assert_eq!(first.get(&[1]), Some(vec![10]));
    assert_eq!(second.get(&[1]), Some(vec![20]));
}

#[test]
fn nonces_start_at_one_and_go_up_by_one() {
    let mut ledger = NonceLedger::new(fresh_map());
    let subaccount = [7u8; 32];
    assert_eq!(ledger.peek(&subaccount), Ok(0));
    for expected in 1..=50u32 {
        assert_eq!(ledger.next(&subaccount), Ok(expected));
        assert_eq!(ledger.peek(&subaccount), Ok(expected));
    }
}

#[test]
fn nonces_of_subaccounts_do_not_mix() {
    let mut ledger = NonceLedger::new(fresh_map());
    let a = [1u8; 32];
    let b = [2u8; 32];
    assert_eq!(ledger.next(&a), Ok(1));
    assert_eq!(ledger.next(&b), Ok(1));
    assert_eq!(ledger.next(&a), Ok(2));
    assert_eq!(ledger.next(&a), Ok(3));
    assert_eq!(ledger.next(&b), Ok(2));
    assert_eq!(ledger.peek(&a), Ok(3));
    assert_eq!(ledger.peek(&b), Ok(2));
    assert_eq!(ledger.peek(&[3u8; 32]), Ok(0));
}

#[test]
fn peek_does_not_move_the_counter() {
    let mut ledger = NonceLedger::new(fresh_map());
    let subaccount = [4u8; 32];
    assert_eq!(ledger.peek(&subaccount), Ok(0));
    assert_eq!(ledger.peek(&subaccount), Ok(0));
    assert_eq!(ledger.next(&subaccount), Ok(1));
    assert_eq!(ledger.peek(&subaccount), Ok(1));
    assert_eq!(ledger.peek(&subaccount), Ok(1));
    assert_eq!(ledger.next(&subaccount), Ok(2));
}

#[test]
fn nonce_is_stored_in_four_bytes() {
    let mut map = fresh_map();
    map.insert(&[9u8; 32], &[0, 0, 1, 0]).unwrap();
    let mut ledger = NonceLedger::new(map);
    assert_eq!(ledger.peek(&[9u8; 32]), Ok(256));
    assert_eq!(ledger.next(&[9u8; 32]), Ok(257));
}

#[test]
fn nonce_does_not_wrap() {
    let mut map = fresh_map();
    map.insert(&[9u8; 32], &[0xff, 0xff, 0xff, 0xfe]).unwrap();
    let mut ledger = NonceLedger::new(map);
    assert_eq!(ledger.next(&[9u8; 32]), Ok(u32::MAX));
    assert_eq!(ledger.next(&[9u8; 32]), Err(Fault::NonceExhausted));
    assert_eq!(ledger.next(&[9u8; 32]), Err(Fault::NonceExhausted));
    assert_eq!(ledger.peek(&[9u8; 32]), Ok(u32::MAX));
}

#[test]
fn corrupt_nonce_is_reported() {
    let mut map = fresh_map();
    map.insert(&[9u8; 32], &[0, 0, 1]).unwrap();
    map.insert(&[8u8; 32], &[0, 0, 0, 0, 1]).unwrap();
    let mut ledger = NonceLedger::new(map);
    assert_eq!(ledger.peek(&[9u8; 32]), Err(Fault::CorruptRecord));
    assert_eq!(ledger.next(&[9u8; 32]), Err(Fault::CorruptRecord));
    assert_eq!(ledger.peek(&[8u8; 32]), Err(Fault::CorruptRecord));
    assert_eq!(ledger.next(&[7u8; 32]), Ok(1));
}

#[test]
fn status_moves_through_its_states_in_order() {
    let mut ledger = StatusLedger::new(fresh_map());
    assert_eq!(ledger.lookup(11), Ok(None));
    assert_eq!(ledger.initialize(11, 500, 900), Ok(()));
    assert_eq!(
        ledger.lookup(11),
        Ok(Some(MintStatus { amount: 500, expiry: 900, state: MintState::Init }))
    );
    assert_eq!(ledger.advance(11, MintState::FundReceived), Ok(()));
    assert_eq!(
        ledger.lookup(11),
        Ok(Some(MintStatus { amount: 500, expiry: 900, state: MintState::FundReceived }))
    );
    assert_eq!(ledger.advance(11, MintState::Signed), Ok(()));
    assert_eq!(
        ledger.lookup(11),
        Ok(Some(MintStatus { amount: 500, expiry: 900, state: MintState::Signed }))
    );
}

#[test]
fn status_record_is_written_once() {
    let mut ledger = StatusLedger::new(fresh_map());
    assert_eq!(ledger.initialize(11, 500, 900), Ok(()));
    assert_eq!(ledger.initialize(11, 1, 2), Err(Fault::DuplicateRecord));
    assert_eq!(
        ledger.lookup(11),
        Ok(Some(MintStatus { amount: 500, expiry: 900, state: MintState::Init }))
    );
    assert_eq!(ledger.advance(11, MintState::FundReceived), Ok(()));
    assert_eq!(ledger.initialize(11, 500, 900), Err(Fault::DuplicateRecord));
    assert_eq!(
        ledger.lookup(11),
        Ok(Some(MintStatus { amount: 500, expiry: 900, state: MintState::FundReceived }))
    );
}

#[test]
fn status_does_not_skip_repeat_or_go_back() {
    let mut ledger = StatusLedger::new(fresh_map());
    assert_eq!(ledger.initialize(3, 1, 2), Ok(()));
    assert_eq!(ledger.advance(3, MintState::Signed), Err(Fault::OutOfOrder));
    assert_eq!(ledger.advance(3, MintState::Init), Err(Fault::OutOfOrder));
    assert_eq!(ledger.lookup(3), Ok(Some(MintStatus { amount: 1, expiry: 2, state: MintState::Init })));
    assert_eq!(ledger.advance(3, MintState::FundReceived), Ok(()));
    assert_eq!(ledger.advance(3, MintState::FundReceived), Err(Fault::OutOfOrder));
    assert_eq!(ledger.advance(3, MintState::Init), Err(Fault::OutOfOrder));
    assert_eq!(ledger.advance(3, MintState::Signed), Ok(()));
    assert_eq!(ledger.advance(3, MintState::Signed), Err(Fault::OutOfOrder));
    assert_eq!(ledger.advance(3, MintState::FundReceived), Err(Fault::OutOfOrder));
    assert_eq!(ledger.advance(3, MintState::Init), Err(Fault::OutOfOrder));
    assert_eq!(
        ledger.lookup(3),
        Ok(Some(MintStatus { amount: 1, expiry: 2, state: MintState::Signed }))
    );
}

#[test]
fn status_fails_from_init_only_and_stays() {
    let mut ledger = StatusLedger::new(fresh_map());
    assert_eq!(ledger.initialize(3, 1, 2), Ok(()));
    assert_eq!(ledger.advance(3, MintState::Failed), Ok(()));
    let failed = MintStatus { amount: 1, expiry: 2, state: MintState::Failed };
    assert_eq!(ledger.lookup(3), Ok(Some(failed)));
    for next in [MintState::Init, MintState::FundReceived, MintState::Signed, MintState::Failed] {
        assert_eq!(ledger.advance(3, next), Err(Fault::OutOfOrder));
    }
    assert_eq!(ledger.lookup(3), Ok(Some(failed)));

    assert_eq!(ledger.initialize(4, 1, 2), Ok(()));
    assert_eq!(ledger.advance(4, MintState::FundReceived), Ok(()));
    assert_eq!(ledger.advance(4, MintState::Failed), Err(Fault::OutOfOrder));
    assert_eq!(ledger.advance(4, MintState::Signed), Ok(()));
    assert_eq!(ledger.advance(4, MintState::Failed), Err(Fault::OutOfOrder));
}

#[test]
fn status_of_an_unknown_request_cannot_move() {
    let mut ledger = StatusLedger::new(fresh_map());
    assert_eq!(ledger.advance(3, MintState::FundReceived), Err(Fault::UnknownRequest));
    assert_eq!(ledger.advance(3, MintState::Init), Err(Fault::UnknownRequest));
    assert_eq!(ledger.lookup(3), Ok(None));
}

#[test]
fn statuses_of_requests_do_not_mix() {
    let mut ledger = StatusLedger::new(fresh_map());
    assert_eq!(ledger.initialize(1, 10, 100), Ok(()));
    assert_eq!(ledger.initialize(2, 20, 200), Ok(()));
    assert_eq!(ledger.advance(2, MintState::FundReceived), Ok(()));
    assert_eq!(
        ledger.lookup(1),
        Ok(Some(MintStatus { amount: 10, expiry: 100, state: MintState::Init }))
    );
    assert_eq!(
        ledger.lookup(2),
        Ok(Some(MintStatus { amount: 20, expiry: 200, state: MintState::FundReceived }))
    );
    assert_eq!(ledger.lookup(u128::MAX), Ok(None));
}

#[test]
fn corrupt_status_is_reported_and_left() {
    let mut map = fresh_map();
    map.insert(&id_key_bytes(5), &[1, 2, 3]).unwrap();
    let mut bad_state = MintStatus { amount: 1, expiry: 2, state: MintState::Init }.to_record();
    bad_state[16] = 4;
    map.insert(&id_key_bytes(6), &bad_state).unwrap();
    let mut ledger = StatusLedger::new(map);
    assert_eq!(ledger.lookup(5), Err(Fault::CorruptRecord));
    assert_eq!(ledger.lookup(6), Err(Fault::CorruptRecord));
    assert_eq!(ledger.advance(5, MintState::FundReceived), Err(Fault::CorruptRecord));
    assert_eq!(ledger.initialize(5, 1, 1), Err(Fault::DuplicateRecord));
    assert_eq!(ledger.lookup(5), Err(Fault::CorruptRecord));
}

#[test]
fn signature_is_stored_once() {
    let mut store = SignatureStore::new(fresh_map());
    assert_eq!(store.get(1), Ok(None));
    assert!(!store.holds(1));
    assert_eq!(store.put(1, &signature(10)), Ok(()));
    assert!(store.holds(1));
    assert_eq!(store.get(1), Ok(Some(signature(10))));
    assert_eq!(store.put(1, &signature(20)), Err(Fault::DuplicateRecord));
    assert_eq!(store.get(1), Ok(Some(signature(10))));
    assert_eq!(store.put(2, &signature(20)), Ok(()));
    assert_eq!(store.get(1), Ok(Some(signature(10))));
    assert_eq!(store.get(2), Ok(Some(signature(20))));
    assert_eq!(store.get(3), Ok(None));
}

#[test]
fn signature_is_stored_as_its_65_bytes() {
    let mut storage = StableStorage::open(0, 131072).unwrap();
    let mut store = SignatureStore::new(storage.map(2).unwrap());
    store.put(77, &signature(1)).unwrap();
    let mut map = storage.map(3).unwrap();
    map.insert(&id_key_bytes(77), &signature(1).to_bytes()).unwrap();
    let copy = SignatureStore::new(map);
    assert_eq!(copy.get(77), store.get(77));
}

#[test]
fn corrupt_signature_is_reported() {
    let mut map = fresh_map();
    map.insert(&id_key_bytes(5), &[0u8; 64]).unwrap();
    let mut store = SignatureStore::new(map);
    assert_eq!(store.get(5), Err(Fault::CorruptRecord));
    assert!(store.holds(5));
    assert_eq!(store.put(5, &signature(1)), Err(Fault::DuplicateRecord));
}

#[test]
fn event_is_fresh_exactly_once() {
    let mut events = EventDeduplicator::new(fresh_map());
    assert!(!events.is_seen(42));
    assert!(!events.claim(42));
    assert!(events.is_seen(42));
    for _ in 0..10 {
        assert!(events.claim(42));
    }
}

#[test]
fn events_are_claimed_apart() {
    let mut events = EventDeduplicator::new(fresh_map());
    assert!(!events.claim(1));
    assert!(!events.claim(2));
    assert!(events.claim(1));
    assert!(!events.claim(3));
    assert!(events.claim(2));
    assert!(events.claim(3));
    assert!(events.claim(1));
    assert!(!events.claim(0));
    assert!(!events.claim(u128::MAX));
    assert!(events.claim(u128::MAX));
    assert!(!events.is_seen(4));
}

#[test]
fn many_events_are_each_fresh_once() {
    let mut events = EventDeduplicator::new(fresh_map());
    for id in 0..500u128 {
        assert!(!events.claim(id * 0x1_0000_0001));
    }
    for id in 0..500u128 {
        assert!(events.claim(id * 0x1_0000_0001));
    }
}

#[test]
fn claimed_event_is_marked_with_one_byte() {
    let mut storage = StableStorage::open(0, 131072).unwrap();
    let mut map = storage.map(0).unwrap();
    map.insert(&id_key_bytes(9), &[1]).unwrap();
    let mut events = EventDeduplicator::new(map);
    assert!(events.is_seen(9));
    assert!(events.claim(9));
    assert!(!events.is_seen(10));
}

#[test]
fn guard_is_held_by_one() {
    let mut guard = MutationGuard::new();
    assert!(!guard.is_held());
    assert_eq!(guard.holder(), None);
    assert!(guard.acquire(InFlight::Release));
    assert!(guard.is_held());
    assert_eq!(guard.holder(), Some(InFlight::Release));
    assert!(!guard.acquire(InFlight::MintSigning { msg_id: 1 }));
    assert_eq!(guard.holder(), Some(InFlight::Release));
    guard.release();
    assert!(!guard.is_held());
    assert!(guard.acquire(InFlight::MintSigning { msg_id: 1 }));
    assert_eq!(guard.holder(), Some(InFlight::MintSigning { msg_id: 1 }));
}

#[test]
fn guard_follows_its_holder() {
    let mut guard = MutationGuard::new();
    let ticket = MintTicket {
        msg_id: 5,
        net_amount: 10,
        destination: [1; 20],
        expiry: 20,
        chain_id: 1,
        contract: [2; 20],
    };
    assert!(!guard.proceed(InFlight::MintSigning { msg_id: 5 }));
    assert!(!guard.is_held());
    assert!(guard.acquire(InFlight::MintEscrow(ticket)));
    assert_eq!(guard.holder(), Some(InFlight::MintEscrow(ticket)));
    assert!(guard.proceed(InFlight::MintSigning { msg_id: 5 }));
    assert_eq!(guard.holder(), Some(InFlight::MintSigning { msg_id: 5 }));
    guard.release();
    guard.release();
    assert_eq!(guard.holder(), None);
}

#[test]
fn storage_is_opened_on_a_range_of_pages() {
    assert_eq!(MIN_STORAGE_PAGES, 32641);
    assert!(StableStorage::open(0, 32641).is_some());
    assert!(StableStorage::open(64, 64 + 32641).is_some());
    assert!(StableStorage::open(0, 281474976710655).is_some());
    assert!(StableStorage::open(0, 281474976710656).is_none());
    assert!(StableStorage::open(0, 32640).is_none());
    assert!(StableStorage::open(64, 64 + 32640).is_none());
    assert!(StableStorage::open(0, 1).is_none());
    assert!(StableStorage::open(0, 0).is_none());
    assert!(StableStorage::open(5, 4).is_none());
    assert!(StableStorage::open(u64::MAX, 0).is_none());
    assert!(StableStorage::open(u64::MAX, u64::MAX).is_none());
}

#[test]
fn storage_that_starts_later_holds_maps_too() {
    let mut storage = StableStorage::open(64, 64 + MIN_STORAGE_PAGES).unwrap();
    let mut map = storage.map(7).unwrap();
    assert_eq!(map.insert(&[1], &[2]), Ok(None));
    assert_eq!(map.get(&[1]), Some(vec![2]));
}

#[test]
fn smallest_storage_sets_up_every_map() {
    let mut storage = StableStorage::open(3, 3 + MIN_STORAGE_PAGES).unwrap();
    let mut maps = Vec::new();
    for index in 0..255u8 {
        maps.push(storage.map(index).unwrap());
    }
    for (index, map) in maps.iter_mut().enumerate() {
        assert_eq!(map.insert(&[index as u8], &[1]), Ok(None));
    }
    for (index, map) in maps.iter().enumerate() {
        assert_eq!(map.get(&[index as u8]), Some(vec![1]));
        assert_eq!(map.get(&[index as u8, 0]), None);
    }
}
