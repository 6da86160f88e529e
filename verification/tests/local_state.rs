use anvil_reth::primitives::{Address, B256, U256};
use anvil_reth::state::AnvilState;
use anvil_reth::state_provider::{basic_account, bytecode_by_hash, storage, AccountInfo};

fn b256_from_bytes(bytes: [u8; 32]) -> B256 {
    let mut high = [0u8; 16];
    let mut low = [0u8; 16];
    high.copy_from_slice(&bytes[..16]);
    low.copy_from_slice(&bytes[16..]);
    B256::new(u128::from_be_bytes(high), u128::from_be_bytes(low))
}

#[test]
fn balance_nonce_and_storage_read_back() {
    let mut state = AnvilState::new();
    let a = Address::repeat_byte(0xBA);
    let other = Address::repeat_byte(0x01);
    let slot = B256::new(0, 7);
    state.set_balance(a, U256::from_u128(42_000_000_000_000_000_000));
    state.set_nonce(a, 9);
    state.set_storage_at(a, slot, U256::from_u64(0xBEEF));
    let acct = state.account(&a).expect("account has overrides");
    assert_eq!(acct.balance(), Some(U256::from_u128(42_000_000_000_000_000_000)));
    assert_eq!(acct.nonce(), Some(9));
    assert_eq!(acct.code_hash(), None);
    assert_eq!(state.storage(&a, &slot), Some(U256::from_u64(0xBEEF)));
    assert_eq!(state.storage(&a, &B256::new(0, 8)), None);
    assert!(state.account(&other).is_none());
    assert_eq!(state.storage(&other, &slot), None);
}

#[test]
fn later_write_replaces_earlier_and_keeps_other_fields() {
    let mut state = AnvilState::new();
    let a = Address::repeat_byte(0x5A);
    state.set_balance(a, U256::from_u64(123));
    state.set_nonce(a, 4);
    state.set_balance(a, U256::from_u64(1));
    let acct = state.account(&a).unwrap();
    assert_eq!(acct.balance(), Some(U256::from_u64(1)));
    assert_eq!(acct.nonce(), Some(4));
    assert_eq!(state.addresses(), vec![a]);
}

#[test]
fn set_code_keeps_code_under_its_keccak_hash() {
    let mut state = AnvilState::new();
    let a = Address::repeat_byte(0xC1);
    let code = vec![0x60, 0x2a, 0x60, 0x00, 0x52, 0x60, 0x20, 0x60, 0x00, 0xf3];
    state.set_code(a, code.clone());
    let expected = b256_from_bytes(alloy_primitives::keccak256(&code).0);
    let hash = state.account(&a).unwrap().code_hash().unwrap();
    assert_eq!(hash, expected);
    assert_ne!(hash, B256::zero());
    assert_eq!(state.bytecode_by_hash(&hash), Some(&code));
}

#[test]
fn empty_code_is_recorded_by_the_empty_hash() {
    let mut state = AnvilState::new();
    let a = Address::repeat_byte(0xC2);
    state.set_code(a, Vec::new());
    let hash = state.account(&a).unwrap().code_hash().unwrap();
    assert_eq!(
        hash,
        b256_from_bytes(alloy_primitives::KECCAK256_EMPTY.0),
        "empty code hashes to keccak256 of the empty string"
    );
    assert_eq!(state.bytecode_by_hash(&hash), None);
}

#[test]
fn accounts_lists_each_account_once() {
    let mut state = AnvilState::new();
    let a = Address::repeat_byte(1);
    let b = Address::repeat_byte(2);
    state.set_nonce(a, 1);
    state.set_nonce(b, 2);
    state.set_nonce(a, 3);
    let accounts = state.accounts();
    assert_eq!(accounts.len(), 2);
    let mut nonces: Vec<(Address, Option<u64>)> =
        accounts.iter().map(|(addr, acct)| (*addr, acct.nonce())).collect();
    nonces.sort();
    assert_eq!(nonces, vec![(a, Some(3)), (b, Some(2))]);
}

#[test]
fn overlay_leaves_unknown_accounts_to_the_chain() {
    let state = AnvilState::new();
    let a = Address::repeat_byte(3);
    let chain = AccountInfo { nonce: 5, balance: U256::from_u64(10), bytecode_hash: None };
    assert_eq!(basic_account(&state, &a, Some(chain)), Some(chain));
    assert_eq!(basic_account(&state, &a, None), None);
}

#[test]
fn overlay_replaces_only_overridden_fields() {
    let mut state = AnvilState::new();
    let a = Address::repeat_byte(4);
    state.set_balance(a, U256::from_u64(77));
    let chain = AccountInfo { nonce: 5, balance: U256::from_u64(10), bytecode_hash: None };
    assert_eq!(
        basic_account(&state, &a, Some(chain)),
        Some(AccountInfo { nonce: 5, balance: U256::from_u64(77), bytecode_hash: None })
    );
    assert_eq!(
        basic_account(&state, &a, None),
        Some(AccountInfo { nonce: 0, balance: U256::from_u64(77), bytecode_hash: None })
    );
    state.set_code(a, vec![1, 2, 3]);
    let hash = state.account(&a).unwrap().code_hash();
    assert_eq!(basic_account(&state, &a, Some(chain)).unwrap().bytecode_hash, hash);
}

#[test]
fn storage_and_code_overlay_prefer_local_values() {
    let mut state = AnvilState::new();
    let a = Address::repeat_byte(5);
    let slot = B256::new(1, 2);
    assert_eq!(storage(&state, &a, &slot, Some(U256::from_u64(3))), Some(U256::from_u64(3)));
    state.set_storage_at(a, slot, U256::from_u64(9));
    assert_eq!(storage(&state, &a, &slot, Some(U256::from_u64(3))), Some(U256::from_u64(9)));
    let code = vec![0xfe];
    state.set_code(a, code.clone());
    let hash = state.account(&a).unwrap().code_hash().unwrap();
    assert_eq!(bytecode_by_hash(&state, &hash, Some(vec![0x00])), Some(code));
    let unknown = B256::new(9, 9);
    assert_eq!(bytecode_by_hash(&state, &unknown, Some(vec![0x00])), Some(vec![0x00]));
    assert_eq!(bytecode_by_hash(&state, &unknown, None), None);
}
