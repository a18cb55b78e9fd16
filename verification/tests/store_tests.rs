use contract_exec::code_store::CodeStore;
use contract_exec::hashing::ContractId;
use contract_exec::state_store::StateStore;
use contract_exec::ContractError;

#[test]
fn storing_identical_code_twice_is_idempotent() {
    let mut store = CodeStore::new(1024);
    let code = vec![1u8, 2, 3, 4, 5];
    let id1 = store.store(&code).unwrap();
    let occupied = store.occupied_bytes();
    let id2 = store.store(&code).unwrap();
    assert_eq!(id1.as_bytes(), id2.as_bytes());
    assert_eq!(store.occupied_bytes(), occupied);
    assert_eq!(occupied, code.len() as u64);
    assert!(store.contains(&id1));
}

#[test]
fn code_occupancy_never_exceeds_capacity() {
    let mut store = CodeStore::new(10);
    let mut ids = Vec::new();
    for b in 0u8..8 {
        let code = vec![b; 4];
        let id = store.store(&code).unwrap();
        assert!(store.occupied_bytes() <= store.capacity_bytes());
        ids.push(id);
    }
    // at most two 4-byte modules fit in 10 bytes, so the earliest were
    // evicted, least recently used first
    assert!(!store.contains(&ids[0]));
    assert!(store.contains(&ids[7]));
    assert_eq!(store.load(&ids[0]).unwrap_err(), ContractError::NotFound);
    assert_eq!(store.load(&ids[7]).unwrap(), vec![7u8; 4]);
}

#[test]
fn oversized_module_is_refused_outright() {
    let mut store = CodeStore::new(3);
    let r = store.store(&vec![1u8, 2, 3, 4]);
    assert_eq!(r.unwrap_err(), ContractError::CapacityExceeded);
    assert_eq!(store.occupied_bytes(), 0);
}

#[test]
fn load_refreshes_recency() {
    let mut store = CodeStore::new(8);
    let a = store.store(&vec![1u8; 4]).unwrap();
    let b = store.store(&vec![2u8; 4]).unwrap();
    // touching `a` makes `b` the eviction candidate
    assert_eq!(store.load(&a).unwrap(), vec![1u8; 4]);
    let c = store.store(&vec![3u8; 4]).unwrap();
    assert!(store.contains(&a));
    assert!(!store.contains(&b));
    assert!(store.contains(&c));
}

#[test]
fn cache_occupancy_never_exceeds_budget() {
    let mut store = StateStore::new(8);
    let mut ids = Vec::new();
    for b in 0u8..6 {
        let id = ContractId::from_bytes(vec![b; 32]);
        store.put(&id, &vec![b; 3]);
        assert!(store.cache_occupied_bytes() <= store.cache_budget_bytes());
        ids.push(id);
    }
    // every state is retrievable from the durable layer, cached or not
    for (b, id) in ids.iter().enumerate() {
        assert_eq!(store.get(id).unwrap(), vec![b as u8; 3]);
        assert!(store.cache_occupied_bytes() <= store.cache_budget_bytes());
    }
}

#[test]
fn state_larger_than_cache_budget_still_commits() {
    let mut store = StateStore::new(4);
    let id = ContractId::from_bytes(vec![9u8; 32]);
    store.put(&id, &vec![7u8; 10]);
    assert_eq!(store.get(&id).unwrap(), vec![7u8; 10]);
    assert_eq!(store.cache_occupied_bytes(), 0);
}

#[test]
fn put_replaces_state_totally() {
    let mut store = StateStore::new(64);
    let id = ContractId::from_bytes(vec![1u8; 32]);
    store.put(&id, &vec![1u8, 2, 3]);
    store.put(&id, &vec![4u8]);
    assert_eq!(store.get(&id).unwrap(), vec![4u8]);
}

#[test]
fn get_unknown_state_not_found() {
    let mut store = StateStore::new(64);
    let id = ContractId::from_bytes(vec![1u8; 32]);
    assert_eq!(store.get(&id).unwrap_err(), ContractError::NotFound);
}
