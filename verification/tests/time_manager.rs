use anvil_reth::time::{saturating_add_i128, TimeManager, TimestampTooLow};

#[test]
fn new_at_sets_last_timestamp_and_offset() {
    let t = TimeManager::new_at(1_000, 400);
    assert_eq!(t.last_timestamp(), 1_000);
    assert_eq!(t.offset(), 600);
    assert_eq!(t.interval(), None);
}

#[test]
fn next_timestamp_follows_clock_plus_offset() {
    let mut t = TimeManager::new_at(1_000, 400);
    // 10 seconds later on the wall clock: 410 + 600.
    assert_eq!(t.current_call_timestamp_at(410), 1_010);
    assert_eq!(t.next_timestamp_at(410), 1_010);
    assert_eq!(t.last_timestamp(), 1_010);
}

#[test]
fn next_timestamp_moves_past_last_block_when_clock_stands_still() {
    let mut t = TimeManager::new_at(1_000, 400);
    assert_eq!(t.next_timestamp_at(400), 1_001);
    assert_eq!(t.next_timestamp_at(400), 1_002);
}

#[test]
fn increase_time_moves_next_block_forward() {
    let mut t = TimeManager::new_at(1_000, 400);
    assert_eq!(t.increase_time(30), 630);
    assert_eq!(t.next_timestamp_at(410), 1_040);
}

#[test]
fn exact_timestamp_is_used_once() {
    let mut t = TimeManager::new_at(1_000, 400);
    assert_eq!(t.set_next_block_timestamp(5_000), Ok(()));
    assert_eq!(t.current_call_timestamp_at(400), 5_000);
    assert_eq!(t.next_timestamp_at(400), 5_000);
    // The offset now follows the exact timestamp: 5000 - 400.
    assert_eq!(t.offset(), 4_600);
    assert_eq!(t.next_timestamp_at(401), 5_001);
}

#[test]
fn exact_timestamp_before_last_block_is_refused() {
    let mut t = TimeManager::new_at(1_000, 400);
    assert_eq!(
        t.set_next_block_timestamp(999),
        Err(TimestampTooLow { timestamp: 999 })
    );
    assert_eq!(t.set_next_block_timestamp(1_000), Ok(()));
    assert_eq!(t.next_timestamp_at(0), 1_000);
}

#[test]
fn interval_spaces_blocks() {
    let mut t = TimeManager::new_at(1_000, 400);
    t.set_block_timestamp_interval(12);
    assert_eq!(t.interval(), Some(12));
    assert_eq!(t.next_timestamp_at(400), 1_012);
    assert_eq!(t.next_timestamp_at(9_999), 1_024);
}

#[test]
fn zero_interval_still_moves_one_second() {
    let mut t = TimeManager::new_at(1_000, 400);
    t.set_block_timestamp_interval(0);
    assert_eq!(t.next_timestamp_at(400), 1_001);
}

#[test]
fn remove_interval_reports_whether_one_was_set() {
    let mut t = TimeManager::new_at(1_000, 400);
    assert!(!t.remove_block_timestamp_interval());
    t.set_block_timestamp_interval(10);
    assert!(t.remove_block_timestamp_interval());
    assert!(!t.remove_block_timestamp_interval());
    t.set_block_timestamp_interval(10);
    t.set_block_timestamp_interval(20);
    assert!(t.remove_block_timestamp_interval());
    assert!(!t.remove_block_timestamp_interval());
}

#[test]
fn reset_drops_exact_timestamp_and_keeps_interval() {
    let mut t = TimeManager::new_at(1_000, 400);
    t.set_block_timestamp_interval(5);
    assert_eq!(t.set_next_block_timestamp(9_000), Ok(()));
    t.reset_at(2_000, 500);
    assert_eq!(t.last_timestamp(), 2_000);
    assert_eq!(t.offset(), 1_500);
    assert_eq!(t.interval(), Some(5));
    assert_eq!(t.next_timestamp_at(500), 2_005);
}

#[test]
fn reset_sets_baseline_for_later_blocks() {
    let mut t = TimeManager::new_at(1_000, 400);
    t.reset_at(5_000, 400);
    assert_eq!(t.next_timestamp_at(400), 5_001);
    assert_eq!(t.next_timestamp_at(420), 5_020);
}

#[test]
fn clock_behind_offset_wraps_like_a_cast() {
    // A negative chain time is cut to its low 64 bits, which lands far above the last block.
    let mut t = TimeManager::new_at(0, 1_000);
    assert_eq!(t.offset(), -1_000);
    assert_eq!(t.next_timestamp_at(10), (-990i128) as u64);
}

#[test]
fn last_timestamp_saturates() {
    let mut t = TimeManager::new_at(u64::MAX, 0);
    assert_eq!(t.next_timestamp_at(0), u64::MAX);
    t.set_block_timestamp_interval(7);
    assert_eq!(t.next_timestamp_at(0), u64::MAX);
}

#[test]
fn offset_saturates_at_i128_bounds() {
    assert_eq!(saturating_add_i128(i128::MAX, 1), i128::MAX);
    assert_eq!(saturating_add_i128(i128::MIN, -1), i128::MIN);
    assert_eq!(saturating_add_i128(-5, 3), -2);
    let mut t = TimeManager::new_at(0, 0);
    assert_eq!(t.add_offset(i128::MAX), i128::MAX);
    assert_eq!(t.increase_time(u64::MAX), i128::MAX);
}

#[test]
fn snapshot_and_restore_round_trip() {
    let mut t = TimeManager::new_at(1_000, 400);
    t.set_block_timestamp_interval(3);
    let snap = t.snapshot();
    t.next_timestamp_at(400);
    t.remove_block_timestamp_interval();
    t.restore(snap);
    assert_eq!(t.last_timestamp(), 1_000);
    assert_eq!(t.offset(), 600);
    assert_eq!(t.interval(), Some(3));
}

#[test]
fn clock_backed_calls_agree_with_explicit_clock() {
    let now = anvil_reth::time::duration_since_unix_epoch().expect("clock after the epoch");
    let mut t = TimeManager::new(7).expect("clock after the epoch");
    assert_eq!(t.last_timestamp(), 7);
    let ts = t.next_timestamp().expect("clock after the epoch");
    assert!(ts >= 8);
    assert!(now > 1_600_000_000);
}
