use anvil_reth::assoc::AssocMap;
use anvil_reth::block_env::BlockEnvOverrides;
use anvil_reth::primitives::{Address, B256, U256};
use anvil_reth::snapshot::{revert_to_snapshot, take_snapshot, SnapshotManager};
use anvil_reth::state::AnvilState;
use anvil_reth::state_dump::{
    decode_gzipped, encode_gzipped, load_account, DumpedAccount, SerializableAccountRecord,
    SerializableState,
};
use anvil_reth::time::TimeManager;

#[test]
fn snapshot_ids_start_at_one_and_count_up() {
    let mut m = SnapshotManager::new();
    let state = AnvilState::new();
    let time = TimeManager::new_at(0, 0);
    let env = BlockEnvOverrides::new();
    let a = take_snapshot(&mut m, 5, B256::new(0, 5), &state, &time, &env);
    let b = take_snapshot(&mut m, 6, B256::new(0, 6), &state, &time, &env);
    assert_eq!(a, U256::from_u64(1));
    assert_eq!(b, U256::from_u64(2));
    let mut meta = m.metadata();
    meta.sort();
    assert_eq!(
        meta,
        vec![(U256::from_u64(1), 5, B256::new(0, 5)), (U256::from_u64(2), 6, B256::new(0, 6))]
    );
}

#[test]
fn revert_restores_overrides_and_invalidates_later_ids() {
    let mut m = SnapshotManager::new();
    let mut state = AnvilState::new();
    let mut time = TimeManager::new_at(1_000, 0);
    let mut env = BlockEnvOverrides::new();
    let account = Address::repeat_byte(0x5A);
    state.set_balance(account, U256::from_u64(123));
    env.set_gas_limit(25_000_000);
    let first = take_snapshot(&mut m, 10, B256::new(1, 10), &state, &time, &env);
    let later = take_snapshot(&mut m, 11, B256::new(1, 11), &state, &time, &env);

    state.set_balance(account, U256::from_u64(1));
    env.set_gas_limit(30_000_000);
    time.next_timestamp_at(50);

    let head = revert_to_snapshot(&mut m, first, &mut state, &mut time, &mut env);
    assert_eq!(head, Some((10, B256::new(1, 10))));
    assert_eq!(state.account(&account).unwrap().balance(), Some(U256::from_u64(123)));
    assert_eq!(env.gas_limit(), Some(25_000_000));
    assert_eq!(time.last_timestamp(), 1_000);
    assert!(m.get(first).is_none());
    assert!(m.get(later).is_none());
    assert!(m.metadata().is_empty());

    let again = revert_to_snapshot(&mut m, first, &mut state, &mut time, &mut env);
    assert_eq!(again, None, "snapshot ids are invalidated after a successful revert");
}

#[test]
fn invalidate_from_keeps_earlier_snapshots() {
    let mut m = SnapshotManager::new();
    let state = AnvilState::new();
    let time = TimeManager::new_at(0, 0);
    let env = BlockEnvOverrides::new();
    for n in 0..4u64 {
        take_snapshot(&mut m, n, B256::new(0, n as u128), &state, &time, &env);
    }
    m.invalidate_from(U256::from_u64(3));
    let mut ids: Vec<U256> = m.metadata().into_iter().map(|(id, _, _)| id).collect();
    ids.sort();
    assert_eq!(ids, vec![U256::from_u64(1), U256::from_u64(2)]);
    assert_eq!(m.get(U256::from_u64(2)).unwrap().block_number, 1);
}

#[test]
fn dump_merges_overrides_over_chain_accounts() {
    let chain_addr = Address::repeat_byte(0x01);
    let local_addr = Address::repeat_byte(0x02);
    let mut chain_storage = AssocMap::new();
    chain_storage.insert(B256::new(0, 1), B256::new(0, 11));
    let dump = vec![DumpedAccount {
        address: chain_addr,
        nonce: 3,
        balance: U256::from_u64(100),
        code: None,
        storage: chain_storage,
    }];
    let mut state = AnvilState::new();
    state.set_balance(chain_addr, U256::from_u64(500));
    state.set_storage_at(chain_addr, B256::new(0, 2), U256::from_u64(22));
    state.set_nonce(local_addr, 8);
    state.set_code(local_addr, vec![0x60, 0x07]);

    let mut s = SerializableState::from_dump(&dump, Some(9));
    s.merge_anvil_state(&state);
    assert_eq!(s.best_block_number, Some(9));
    let chain_rec = s.accounts.get(&chain_addr).unwrap();
    assert_eq!(chain_rec.nonce, 3);
    assert_eq!(chain_rec.balance, U256::from_u64(500));
    assert_eq!(chain_rec.storage.get(&B256::new(0, 1)), Some(&B256::new(0, 11)));
    assert_eq!(chain_rec.storage.get(&B256::new(0, 2)), Some(&B256::new(0, 22)));
    let local_rec = s.accounts.get(&local_addr).unwrap();
    assert_eq!(local_rec.nonce, 8);
    assert_eq!(local_rec.balance, U256::zero());
    assert_eq!(local_rec.code, vec![0x60, 0x07]);
}

#[test]
fn dump_and_load_round_trip() {
    let account = Address::repeat_byte(0xA1);
    let contract = Address::repeat_byte(0xC1);
    let code = vec![0x60, 0x2a, 0x60, 0x00, 0x52, 0x60, 0x20, 0x60, 0x00, 0xf3];
    let mut state = AnvilState::new();
    state.set_balance(account, U256::from_u64(123_456));
    state.set_nonce(account, 7);
    state.set_code(contract, code.clone());
    state.set_storage_at(contract, B256::zero(), U256::from_u64(0xBEEF));
    let mut dump = SerializableState::from_dump(&Vec::new(), Some(0));
    dump.merge_anvil_state(&state);

    let mut other = AnvilState::new();
    other.set_balance(account, U256::from_u64(1));
    other.set_nonce(account, 1);
    other.set_code(contract, vec![0x60, 0x07]);
    other.set_storage_at(contract, B256::zero(), U256::from_u64(1));
    for addr in dump.accounts.keys() {
        let rec: &SerializableAccountRecord = dump.accounts.get(&addr).unwrap();
        load_account(&mut other, addr, rec, 0);
    }
    let acct = other.account(&account).unwrap();
    assert_eq!(acct.balance(), Some(U256::from_u64(123_456)));
    assert_eq!(acct.nonce(), Some(7));
    let c = other.account(&contract).unwrap();
    let hash = c.code_hash().unwrap();
    assert_eq!(other.bytecode_by_hash(&hash), Some(&code));
    assert_eq!(other.storage(&contract, &B256::zero()), Some(U256::from_u64(0xBEEF)));
}

#[test]
fn load_keeps_the_larger_nonce() {
    let a = Address::repeat_byte(3);
    let mut rec = SerializableAccountRecord::new();
    rec.nonce = 4;
    let mut state = AnvilState::new();
    load_account(&mut state, a, &rec, 10);
    assert_eq!(state.account(&a).unwrap().nonce(), Some(10));
    let mut state = AnvilState::new();
    load_account(&mut state, a, &rec, 2);
    assert_eq!(state.account(&a).unwrap().nonce(), Some(4));
}

#[test]
fn gzip_round_trip_and_plain_json() {
    let json = br#"{"accounts":{}}"#.to_vec();
    let gz = encode_gzipped(&json).expect("compression succeeds");
    assert_ne!(gz, json);
    assert_eq!(&gz[..3], &[0x1f, 0x8b, 0x08], "gzip magic bytes and deflate method");
    assert_eq!(encode_gzipped(&json), Ok(gz.clone()), "the stream depends on the input alone");
    assert_eq!(decode_gzipped(&gz), Ok(json.clone()));
    assert_eq!(decode_gzipped(&json), Ok(json));
    let truncated = vec![0x1f, 0x8b, 0x08];
    assert_eq!(decode_gzipped(&truncated), Ok(truncated.clone()), "no full header: bytes as given");
}

#[test]
fn snapshot_ids_are_not_reused_after_revert() {
    let mut m = SnapshotManager::new();
    let mut state = AnvilState::new();
    let mut time = TimeManager::new_at(0, 0);
    let mut env = BlockEnvOverrides::new();
    for n in 1..=3u64 {
        let id = take_snapshot(&mut m, n, B256::new(0, n as u128), &state, &time, &env);
        assert_eq!(id, U256::from_u64(n));
    }
    assert!(revert_to_snapshot(&mut m, U256::from_u64(2), &mut state, &mut time, &mut env).is_some());
    assert!(revert_to_snapshot(&mut m, U256::from_u64(2), &mut state, &mut time, &mut env).is_none());
    let next = take_snapshot(&mut m, 9, B256::new(0, 9), &state, &time, &env);
    assert_eq!(next, U256::from_u64(4));
}
