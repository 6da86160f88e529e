use anvil_reth::anvil_api::{
    block_wait_step, call_result_matches, candidate_slots, slot_search_start, slot_search_step,
    AccessListItem, BlockWait, SlotSearchAction,
};
use anvil_reth::primitives::{Address, B256, U256};
use anvil_reth::snapshot::{dropped_in_memory_blocks, removes_persisted_blocks};

#[test]
fn big_endian_bytes_read_as_word() {
    assert_eq!(U256::from_be_slice(&[]), U256::zero());
    assert_eq!(U256::from_be_slice(&[0x01, 0x00]), U256::from_u64(256));
    let mut full = [0u8; 32];
    full[0] = 0x01;
    full[31] = 0x02;
    assert_eq!(U256::from_be_slice(&full), U256::new(1u128 << 120, 2));
    assert_eq!(U256::from_be_slice(&[0xff; 32]), U256::max_value());
}

#[test]
fn candidate_slots_keep_token_entries_in_order() {
    let token = Address::repeat_byte(0x11);
    let other = Address::repeat_byte(0x22);
    let items = vec![
        AccessListItem { address: token, storage_keys: vec![B256::new(0, 1), B256::new(0, 2)] },
        AccessListItem { address: other, storage_keys: vec![B256::new(0, 3)] },
        AccessListItem { address: token, storage_keys: vec![B256::new(0, 4)] },
    ];
    assert_eq!(
        candidate_slots(&items, &token),
        vec![B256::new(0, 1), B256::new(0, 2), B256::new(0, 4)]
    );
    assert_eq!(candidate_slots(&items, &other), vec![B256::new(0, 3)]);
    assert!(candidate_slots(&items, &Address::zero()).is_empty());
}

#[test]
fn call_result_compared_as_number() {
    let mut word = vec![0u8; 32];
    word[31] = 42;
    assert!(call_result_matches(&word, U256::from_u64(42)));
    assert!(!call_result_matches(&word, U256::from_u64(43)));
    assert!(call_result_matches(&vec![42u8], U256::from_u64(42)));
    assert!(call_result_matches(&vec![], U256::zero()));
}

#[test]
fn revert_drops_blocks_above_snapshot() {
    assert!(removes_persisted_blocks(10, 5));
    assert!(!removes_persisted_blocks(5, 5));
    assert!(!removes_persisted_blocks(3, 5));
    let in_memory = vec![4, 5, 6, 7];
    assert_eq!(dropped_in_memory_blocks(&in_memory, 5, 5), vec![5, 6, 7]);
    assert_eq!(dropped_in_memory_blocks(&in_memory, 5, 3), vec![6, 7]);
    assert_eq!(dropped_in_memory_blocks(&in_memory, 9, 3), Vec::<u64>::new());
}

#[test]
fn slot_search_skips_failures_and_stops_at_first_match() {
    let slots = vec![B256::new(0, 1), B256::new(0, 2), B256::new(0, 3)];
    let expected = U256::from_u64(7);
    assert_eq!(slot_search_start(&slots), SlotSearchAction::Try(B256::new(0, 1)));
    assert_eq!(slot_search_start(&Vec::new()), SlotSearchAction::NotFound);
    assert_eq!(slot_search_step(&slots, 0, None, expected), SlotSearchAction::Try(B256::new(0, 2)));
    assert_eq!(
        slot_search_step(&slots, 1, Some(vec![0u8; 32]), expected),
        SlotSearchAction::Try(B256::new(0, 3))
    );
    assert_eq!(
        slot_search_step(&slots, 1, Some(vec![7u8]), expected),
        SlotSearchAction::Found(B256::new(0, 2))
    );
    assert_eq!(slot_search_step(&slots, 2, None, expected), SlotSearchAction::NotFound);
}

#[test]
fn slot_search_run_ends_on_first_match() {
    let slots = vec![B256::new(0, 1), B256::new(0, 2), B256::new(0, 3)];
    let expected = U256::from_u64(5);
    let results = vec![None, Some(vec![5u8]), Some(vec![5u8])];
    let mut index = 0usize;
    let mut action = slot_search_start(&slots);
    let found = loop {
        match action {
            SlotSearchAction::Try(_) => {
                action = slot_search_step(&slots, index, results[index].clone(), expected);
                index += 1;
            }
            other => break other,
        }
    };
    assert_eq!(found, SlotSearchAction::Found(B256::new(0, 2)));
}

#[test]
fn block_wait_gives_up_after_two_hundred_looks() {
    assert_eq!(block_wait_step(5, 5, 1), BlockWait::Reached);
    assert_eq!(block_wait_step(6, 5, 200), BlockWait::Reached);
    assert_eq!(block_wait_step(4, 5, 1), BlockWait::PollAgain);
    assert_eq!(block_wait_step(4, 5, 199), BlockWait::PollAgain);
    assert_eq!(block_wait_step(4, 5, 200), BlockWait::TimedOut);
}
