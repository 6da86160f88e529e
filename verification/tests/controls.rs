use anvil_reth::block_env::BlockEnvOverrides;
use anvil_reth::impersonation::ImpersonationState;
use anvil_reth::mining::{fires_after_sleep, interval_step, IntervalStep, MiningController, MiningMode};
use anvil_reth::primitives::{Address, B256};

#[test]
fn gas_limit_and_coinbase_persist_base_fee_is_taken_once() {
    let mut env = BlockEnvOverrides::new();
    env.set_gas_limit(25_000_000);
    env.set_coinbase(Address::repeat_byte(0xCB));
    env.set_next_base_fee(42_000_000_000);
    assert_eq!(env.take_next_base_fee(), Some(42_000_000_000));
    assert_eq!(env.take_next_base_fee(), None);
    assert_eq!(env.gas_limit(), Some(25_000_000));
    assert_eq!(env.coinbase(), Some(Address::repeat_byte(0xCB)));
}

#[test]
fn block_env_snapshot_restores_overrides() {
    let mut env = BlockEnvOverrides::new();
    env.set_gas_limit(25_000_000);
    let snap = env.snapshot();
    env.set_gas_limit(30_000_000);
    env.set_next_base_fee(1);
    env.restore(snap);
    assert_eq!(env.gas_limit(), Some(25_000_000));
    assert_eq!(env.take_next_base_fee(), None);
    assert_eq!(env.coinbase(), None);
}

#[test]
fn automine_is_the_default() {
    let m = MiningController::new();
    assert!(m.is_automine());
    assert_eq!(m.interval_mining(), None);
    assert_eq!(m.pending_triggers(), 0);
}

#[test]
fn mining_mode_transitions() {
    let mut m = MiningController::new();
    m.set_automine(false);
    assert!(!m.is_automine());
    assert_eq!(m.mode(), MiningMode::Manual);
    assert_eq!(m.interval_mining(), None);
    m.set_interval_mining(1200);
    assert!(!m.is_automine());
    assert_eq!(m.interval_mining(), Some(1200));
    m.set_automine(false);
    assert_eq!(m.interval_mining(), Some(1200), "disabling automine keeps interval mining");
    m.set_automine(true);
    assert!(m.is_automine());
    assert_eq!(m.interval_mining(), None, "automine clears interval mining");
    m.set_interval_mining(10);
    m.set_interval_mining(0);
    assert_eq!(m.mode(), MiningMode::Manual, "a zero interval switches to manual mining");
}

#[test]
fn triggers_are_picked_up_once_each() {
    let mut m = MiningController::new();
    m.trigger();
    m.trigger();
    assert_eq!(m.pending_triggers(), 2);
    assert!(m.take_trigger());
    assert!(m.take_trigger());
    assert!(!m.take_trigger());
    assert_eq!(m.pending_triggers(), 0);
}

#[test]
fn automine_task_requests_blocks_only_in_automine_with_transactions() {
    let mut m = MiningController::new();
    assert!(m.automine_should_trigger(1));
    assert!(!m.automine_should_trigger(0));
    m.set_automine(false);
    assert!(!m.automine_should_trigger(3));
}

#[test]
fn interval_task_steps() {
    assert_eq!(interval_step(MiningMode::Interval(5)), IntervalStep::Sleep(5));
    assert_eq!(interval_step(MiningMode::Manual), IntervalStep::WaitForModeChange);
    assert_eq!(interval_step(MiningMode::Automine), IntervalStep::WaitForModeChange);
    assert!(fires_after_sleep(MiningMode::Interval(5)));
    assert!(!fires_after_sleep(MiningMode::Manual));
}

#[test]
fn impersonation_start_stop_and_auto() {
    let mut s = ImpersonationState::new();
    let a = Address::repeat_byte(0xAA);
    let b = Address::repeat_byte(0xBB);
    assert!(!s.is_impersonated(&a));
    s.impersonate(a);
    assert!(s.is_impersonated(&a));
    assert!(!s.is_impersonated(&b));
    assert_eq!(s.impersonated_accounts(), vec![a]);
    s.stop_impersonating(a);
    assert!(!s.is_impersonated(&a));
    s.set_auto_impersonate(true);
    assert!(s.is_impersonated(&b));
    assert!(s.impersonated_accounts().is_empty());
}

#[test]
fn remembered_senders_are_forgotten() {
    let mut s = ImpersonationState::new();
    let h1 = B256::new(0, 1);
    let h2 = B256::new(0, 2);
    let h3 = B256::new(0, 3);
    let a = Address::repeat_byte(1);
    s.remember_tx_sender(h1, a);
    s.remember_tx_sender(h2, a);
    s.remember_tx_sender(h3, a);
    assert_eq!(s.tx_sender(&h1), Some(a));
    s.forget_tx_sender(&h1);
    assert_eq!(s.tx_sender(&h1), None);
    s.forget_tx_senders(&vec![h2, h2, B256::new(7, 7)]);
    assert_eq!(s.tx_sender(&h2), None);
    assert_eq!(s.tx_sender(&h3), Some(a));
}

#[test]
fn impersonated_transactions_pass_validation_with_their_sender_remembered() {
    let mut s = ImpersonationState::new();
    let a = Address::repeat_byte(1);
    let h = B256::new(5, 5);
    assert!(s.validate_impersonated(a, h, 3).is_none());
    assert_eq!(s.tx_sender(&h), None);
    s.impersonate(a);
    let v = s.validate_impersonated(a, h, 3).expect("impersonated sender");
    assert_eq!(v.state_nonce, 3);
    assert_eq!(v.balance, anvil_reth::primitives::U256::max_value());
    assert_eq!(s.tx_sender(&h), Some(a));
}
