use anvil_reth::anvil_api::{
    account_balance, account_nonce, add_balance, allowance_calldata, balance_of_calldata,
    begin_mining_interval, check_dump_request, drop_transaction, end_mining_interval,
    hardfork_name, increase_time, mine_block_count, normalize_timestamp_input,
    prepare_mine_detailed, request_blocks, set_automine, set_block_gas_limit, set_nonce,
    set_next_block_base_fee_per_gas, set_next_block_timestamp, set_time_at, InvalidParams,
    MineOptions,
};
use anvil_reth::block_env::BlockEnvOverrides;
use anvil_reth::impersonation::ImpersonationState;
use anvil_reth::mining::MiningController;
use anvil_reth::primitives::{Address, B256, U256};
use anvil_reth::state::AnvilState;
use anvil_reth::state_provider::AccountInfo;
use anvil_reth::time::TimeManager;

#[test]
fn normalize_reads_milliseconds_as_seconds() {
    assert_eq!(normalize_timestamp_input(1_700_000_000), 1_700_000_000);
    assert_eq!(normalize_timestamp_input(1_000_000_000_000), 1_000_000_000_000);
    assert_eq!(normalize_timestamp_input(1_700_000_000_123), 1_700_000_000);
}

#[test]
fn gas_limit_above_u64_is_refused() {
    let mut env = BlockEnvOverrides::new();
    assert_eq!(set_block_gas_limit(&mut env, U256::from_u64(20_000_000)), Ok(true));
    assert_eq!(env.gas_limit(), Some(20_000_000));
    assert_eq!(set_block_gas_limit(&mut env, U256::from_u64(u64::MAX)), Ok(true));
    assert_eq!(
        set_block_gas_limit(&mut env, U256::from_u128(u64::MAX as u128 + 1)),
        Err(InvalidParams::GasLimitTooLarge)
    );
    assert_eq!(env.gas_limit(), Some(u64::MAX));
}

#[test]
fn base_fee_above_u64_is_refused() {
    let mut env = BlockEnvOverrides::new();
    assert_eq!(
        set_next_block_base_fee_per_gas(&mut env, U256::new(1, 0)),
        Err(InvalidParams::BaseFeeTooLarge)
    );
    assert_eq!(set_next_block_base_fee_per_gas(&mut env, U256::from_u64(42_000_000_000)), Ok(()));
    assert_eq!(env.take_next_base_fee(), Some(42_000_000_000));
}

#[test]
fn nonce_above_u64_is_refused() {
    let mut state = AnvilState::new();
    let a = Address::repeat_byte(9);
    assert_eq!(set_nonce(&mut state, a, U256::new(0, 1 << 64)), Err(InvalidParams::NonceTooLarge));
    assert!(state.account(&a).is_none());
    assert_eq!(set_nonce(&mut state, a, U256::from_u64(7)), Ok(()));
    assert_eq!(state.account(&a).unwrap().nonce(), Some(7));
}

#[test]
fn balance_and_nonce_prefer_overrides() {
    let mut state = AnvilState::new();
    let a = Address::repeat_byte(1);
    let chain = Some(AccountInfo { nonce: 4, balance: U256::from_u64(50), bytecode_hash: None });
    assert_eq!(account_balance(&state, &a, chain), U256::from_u64(50));
    assert_eq!(account_balance(&state, &a, None), U256::zero());
    assert_eq!(account_nonce(&state, &a, chain), 4);
    state.set_balance(a, U256::from_u64(7));
    state.set_nonce(a, 11);
    assert_eq!(account_balance(&state, &a, chain), U256::from_u64(7));
    assert_eq!(account_nonce(&state, &a, chain), 11);
}

#[test]
fn add_balance_accumulates_and_saturates() {
    let mut state = AnvilState::new();
    let a = Address::repeat_byte(1);
    add_balance(&mut state, a, U256::from_u64(30), U256::from_u64(12));
    assert_eq!(state.account(&a).unwrap().balance(), Some(U256::from_u64(42)));
    add_balance(&mut state, a, U256::max_value(), U256::from_u64(42));
    assert_eq!(state.account(&a).unwrap().balance(), Some(U256::max_value()));
    let carry = U256::new(0, u128::MAX).saturating_add(U256::from_u64(1));
    assert_eq!(carry, U256::new(1, 0));
}

#[test]
fn set_time_returns_the_jump() {
    let mut t = TimeManager::new_at(1_000, 100);
    // A block now would take 1001; resetting to 1040 jumps 39 seconds.
    assert_eq!(set_time_at(&mut t, 1_040, 100), 39);
    assert_eq!(t.last_timestamp(), 1_040);
    assert_eq!(set_time_at(&mut t, 10, 100), 0);
    assert_eq!(t.last_timestamp(), 10);
    assert_eq!(set_time_at(&mut t, 2_000_000_000_000, 100), 2_000_000_000 - 11);
    assert_eq!(t.last_timestamp(), 2_000_000_000);
}

#[test]
fn increase_time_reports_offset_clamped_to_i64() {
    let mut t = TimeManager::new_at(1_000, 400);
    assert_eq!(increase_time(&mut t, U256::from_u64(30)), 630);
    for _ in 0..3 {
        increase_time(&mut t, U256::from_u64(u64::MAX));
    }
    assert_eq!(increase_time(&mut t, U256::from_u64(1)), i64::MAX);
}

#[test]
fn next_block_timestamp_errors_carry_the_timestamp() {
    let mut t = TimeManager::new_at(1_000, 400);
    assert_eq!(set_next_block_timestamp(&mut t, 5), Err(InvalidParams::TimestampTooLow(5)));
    assert_eq!(set_next_block_timestamp(&mut t, 1_025), Ok(()));
    assert_eq!(t.next_timestamp_at(0), 1_025);
}

#[test]
fn mining_interval_is_put_back() {
    let mut t = TimeManager::new_at(1_000, 400);
    assert_eq!(begin_mining_interval(&mut t, None), None);
    assert_eq!(begin_mining_interval(&mut t, Some(U256::zero())), None);
    let prev = begin_mining_interval(&mut t, Some(U256::from_u64(10)));
    assert_eq!(prev, Some(None));
    assert_eq!(t.interval(), Some(10));
    end_mining_interval(&mut t, None);
    assert_eq!(t.interval(), None);
    t.set_block_timestamp_interval(3);
    let prev = begin_mining_interval(&mut t, Some(U256::from_u64(10)));
    assert_eq!(prev, Some(Some(3)));
    end_mining_interval(&mut t, Some(3));
    assert_eq!(t.interval(), Some(3));
}

#[test]
fn mine_requests_blocks_and_lists_their_numbers() {
    let mut m = MiningController::new();
    assert_eq!(mine_block_count(None), 1);
    assert_eq!(mine_block_count(Some(U256::from_u64(10))), 10);
    assert!(request_blocks(&mut m, 5, 0).is_empty());
    assert_eq!(m.pending_triggers(), 0);
    assert_eq!(request_blocks(&mut m, 5, 3), vec![6, 7, 8]);
    assert_eq!(m.pending_triggers(), 3);
    assert_eq!(request_blocks(&mut m, u64::MAX - 2, 5), vec![u64::MAX - 1, u64::MAX]);
}

#[test]
fn mine_detailed_options() {
    let mut t = TimeManager::new_at(1_000, 400);
    assert_eq!(prepare_mine_detailed(&mut t, None), Ok(1));
    assert_eq!(
        prepare_mine_detailed(&mut t, Some(MineOptions::Options { timestamp: None, blocks: Some(15) })),
        Ok(15)
    );
    assert_eq!(prepare_mine_detailed(&mut t, Some(MineOptions::Timestamp(Some(2_000)))), Ok(1));
    assert_eq!(t.next_timestamp_at(0), 2_000);
    assert_eq!(
        prepare_mine_detailed(&mut t, Some(MineOptions::Timestamp(Some(3)))),
        Err(InvalidParams::TimestampTooLow(3))
    );
}

#[test]
fn enabling_automine_mines_pending_transactions() {
    let mut m = MiningController::new();
    m.set_automine(false);
    set_automine(&mut m, true, 0);
    assert_eq!(m.pending_triggers(), 0);
    set_automine(&mut m, false, 2);
    assert_eq!(m.pending_triggers(), 0);
    set_automine(&mut m, true, 2);
    assert!(m.is_automine());
    assert_eq!(m.pending_triggers(), 1);
}

#[test]
fn dropped_transactions_forget_their_sender() {
    let mut s = ImpersonationState::new();
    let h = B256::new(0, 42);
    s.remember_tx_sender(h, Address::repeat_byte(1));
    assert_eq!(drop_transaction(&mut s, h, false), None);
    assert_eq!(s.tx_sender(&h), Some(Address::repeat_byte(1)));
    assert_eq!(drop_transaction(&mut s, h, true), Some(h));
    assert_eq!(s.tx_sender(&h), None);
}

#[test]
fn dump_requests_with_history_are_refused() {
    assert_eq!(check_dump_request(None), Ok(()));
    assert_eq!(check_dump_request(Some(false)), Ok(()));
    assert_eq!(check_dump_request(Some(true)), Err(InvalidParams::HistoricalStatesUnsupported));
}

#[test]
fn hardfork_names() {
    assert_eq!(hardfork_name(true, true, true, true), "osaka");
    assert_eq!(hardfork_name(false, true, true, true), "prague");
    assert_eq!(hardfork_name(false, false, true, true), "cancun");
    assert_eq!(hardfork_name(false, false, false, true), "shanghai");
    assert_eq!(hardfork_name(false, false, false, false), "london");
}

#[test]
fn erc20_call_data() {
    let owner = Address::repeat_byte(0x11);
    let spender = Address::repeat_byte(0x22);
    let data = balance_of_calldata(&owner);
    assert_eq!(data.len(), 36);
    assert_eq!(&data[..4], &[0x70, 0xa0, 0x82, 0x31]);
    assert_eq!(&data[4..16], &[0u8; 12]);
    assert_eq!(&data[16..], &[0x11u8; 20]);
    let data = allowance_calldata(&owner, &spender);
    assert_eq!(data.len(), 68);
    assert_eq!(&data[..4], &[0xdd, 0x62, 0xed, 0x3e]);
    assert_eq!(&data[16..36], &[0x11u8; 20]);
    assert_eq!(&data[36..48], &[0u8; 12]);
    assert_eq!(&data[48..], &[0x22u8; 20]);
}

#[test]
fn tx_convert_error_keeps_its_message() {
    let e = anvil_reth::evm::TxConvertError::new("bad tx".to_string());
    assert_eq!(e.message(), "bad tx");
}
