//! The decisions behind the node's `anvil_*`, `hardhat_*` and `evm_*` RPC methods: checking
//! parameters, and how each method changes the local state, the timestamps and the mining.
use vstd::prelude::*;
use crate::block_env::{BlockEnvOverrides, BlockEnvView};
use crate::impersonation::{without_sender, ImpersonationState};
use crate::mining::{
    count_after_trigger, count_after_triggers, mode_after_set_automine, MiningController, MiningMode,
};
use crate::primitives::{be_value, saturating_sum, Address, KeyEq, B256, U256};
use crate::state::{account_or_empty, with_balance, with_nonce, AnvilState};
use crate::state_provider::{empty_account, AccountInfo};
use crate::time::{
    after_reset, clamp_i128, next_block_timestamp, TimeManager, TimeView, TimestampTooLow,
};

verus! {

/// Why an RPC request was refused for its parameters.
#[derive(Debug, Clone, Copy, PartialEq, Eq)]
pub enum InvalidParams {
    /// A block gas limit above `u64::MAX`.
    GasLimitTooLarge,
    /// A nonce above `u64::MAX`.
    NonceTooLarge,
    /// A base fee above `u64::MAX`.
    BaseFeeTooLarge,
    /// A dump that keeps historical states was asked for.
    HistoricalStatesUnsupported,
    /// An exact next-block timestamp before the last block's timestamp.
    TimestampTooLow(u64),
}

/// A timestamp given in milliseconds is read as seconds: any value above `10^12` is divided by
/// 1000.
pub fn normalize_timestamp_input(timestamp: u64) -> (r: u64)
    ensures
        r == if timestamp > 1_000_000_000_000 {
            timestamp / 1000
        } else {
            timestamp
        },
{
    if timestamp > 1_000_000_000_000 {
        timestamp / 1000
    } else {
        timestamp
    }
}

/// Sets a persistent block gas limit; refused where it exceeds `u64::MAX`.
pub fn set_block_gas_limit(block_env: &mut BlockEnvOverrides, gas_limit: U256) -> (r: Result<
    bool,
    InvalidParams,
>)
    ensures
        r is Err <==> gas_limit.value() > u64::MAX,
        r matches Err(e) ==> e == InvalidParams::GasLimitTooLarge && final(block_env)@ == old(
            block_env,
        )@,
        r is Ok ==> r == Ok::<bool, InvalidParams>(true) && final(block_env)@ == (BlockEnvView {
            gas_limit: Some(gas_limit.value() as u64),
            ..old(block_env)@
        }),
{
    match gas_limit.to_u64_checked() {
        Some(limit) => {
            block_env.set_gas_limit(limit);
            Ok(true)
        },
        None => Err(InvalidParams::GasLimitTooLarge),
    }
}

/// Sets the base fee of the next block only; refused where it exceeds `u64::MAX`.
pub fn set_next_block_base_fee_per_gas(block_env: &mut BlockEnvOverrides, base_fee: U256) -> (r:
    Result<(), InvalidParams>)
    ensures
        r is Err <==> base_fee.value() > u64::MAX,
        r matches Err(e) ==> e == InvalidParams::BaseFeeTooLarge && final(block_env)@ == old(
            block_env,
        )@,
        r is Ok ==> final(block_env)@ == (BlockEnvView {
            next_base_fee: Some(base_fee.value() as u64),
            ..old(block_env)@
        }),
{
    match base_fee.to_u64_checked() {
        Some(fee) => {
            block_env.set_next_base_fee(fee);
            Ok(())
        },
        None => Err(InvalidParams::BaseFeeTooLarge),
    }
}

/// Overrides the nonce of `address`; refused where it exceeds `u64::MAX`.
pub fn set_nonce(state: &mut AnvilState, address: Address, nonce: U256) -> (r: Result<
    (),
    InvalidParams,
>)
    ensures
        r is Err <==> nonce.value() > u64::MAX,
        r matches Err(e) ==> e == InvalidParams::NonceTooLarge && final(state)@ == old(state)@,
        r is Ok ==> final(state)@ == with_nonce(old(state)@, address, nonce.value() as u64),
{
    match nonce.to_u64_checked() {
        Some(n) => {
            state.set_nonce(address, n);
            Ok(())
        },
        None => Err(InvalidParams::NonceTooLarge),
    }
}

/// The balance of `address` as the node reports it, where `chain_account` is the chain's
/// account: the overridden balance where there is one, else the chain's, zero for an unknown
/// account.
pub fn account_balance(state: &AnvilState, address: &Address, chain_account: Option<AccountInfo>) -> (r:
    U256)
    ensures
        r == match account_or_empty(state@.accounts, *address).balance {
            Some(b) => b,
            None => match chain_account {
                Some(a) => a.balance,
                None => empty_account().balance,
            },
        },
{
    match state.account(address) {
        Some(account) => match account.balance() {
            Some(b) => {
                return b;
            },
            None => {},
        },
        None => {},
    }
    match chain_account {
        Some(a) => a.balance,
        None => U256::zero(),
    }
}

/// The nonce of `address` as the node reports it, where `chain_account` is the chain's
/// account: the overridden nonce where there is one, else the chain's, zero for an unknown
/// account.
pub fn account_nonce(state: &AnvilState, address: &Address, chain_account: Option<AccountInfo>) -> (r:
    u64)
    ensures
        r == match account_or_empty(state@.accounts, *address).nonce {
            Some(n) => n,
            None => match chain_account {
                Some(a) => a.nonce,
                None => 0,
            },
        },
{
    let base_nonce = match chain_account {
        Some(a) => a.nonce,
        None => 0,
    };
    match state.account(address) {
        Some(account) => match account.nonce() {
            Some(n) => n,
            None => base_nonce,
        },
        None => base_nonce,
    }
}

/// Adds `amount` to the balance of `address`, where `current` is its balance as the node
/// reports it; the sum is held to the largest 256-bit number.
pub fn add_balance(state: &mut AnvilState, address: Address, amount: U256, current: U256)
    ensures
        final(state)@ == with_balance(old(state)@, address, saturating_sum(current, amount)),
{
    state.set_balance(address, current.saturating_add(amount));
}

/// The timestamp state after `anvil_setTime` with `timestamp` at wall-clock second `now`, and
/// what the call returns: the time is reset to `timestamp`, read as seconds where it looks like
/// milliseconds, and the result is how far that lies past the timestamp that a block would
/// have taken just before, or zero.
pub open spec fn set_time_outcome(t: TimeView, timestamp: u64, now: u64) -> (TimeView, u64) {
    let ts = if timestamp > 1_000_000_000_000 {
        timestamp / 1000
    } else {
        timestamp
    };
    let before = next_block_timestamp(t, now).0;
    (after_reset(t, ts as u64, now), if ts > before {
        (ts - before) as u64
    } else {
        0
    })
}

/// `anvil_setTime` at wall-clock second `now`.
pub fn set_time_at(time: &mut TimeManager, timestamp: u64, now: u64) -> (r: u64)
    ensures
        (final(time)@, r) == set_time_outcome(old(time)@, timestamp, now),
{
    let timestamp = normalize_timestamp_input(timestamp);
    let before = time.current_call_timestamp_at(now);
    time.reset_at(timestamp, now);
    timestamp.saturating_sub(before)
}

/// `anvil_setTime` at the current second of the system clock; `None`, with nothing changed,
/// where the clock reads a time before the Unix epoch.
pub fn set_time(time: &mut TimeManager, timestamp: u64) -> (r: Option<u64>)
    ensures
        r is None ==> final(time)@ == old(time)@,
        r matches Some(jump) ==> exists|now: u64|
            #[trigger] set_time_outcome(old(time)@, timestamp, now) == (final(time)@, jump),
{
    match crate::time::duration_since_unix_epoch() {
        Some(now) => Some(set_time_at(time, timestamp, now)),
        None => None,
    }
}

/// Moves time forward by `seconds` and returns the new offset, held to the range of `i64`
/// from above, and otherwise cut to its low 64 bits.
pub fn increase_time(time: &mut TimeManager, seconds: U256) -> (r: i64)
    requires
        seconds.value() <= u64::MAX,
    ensures
        ({
            let offset = clamp_i128(old(time)@.offset + seconds.value());
            &&& final(time)@ == (TimeView { offset, ..old(time)@ })
            &&& r == if offset >= i64::MAX {
                i64::MAX
            } else {
                offset as i64
            }
        }),
{
    let secs = seconds.low as u64;
    let offset = time.increase_time(secs);
    if offset >= i64::MAX as i128 {
        i64::MAX
    } else {
        offset as i64
    }
}

/// Sets the exact timestamp of the next block; refused where it lies before the last block's
/// timestamp.
pub fn set_next_block_timestamp(time: &mut TimeManager, timestamp: u64) -> (r: Result<
    (),
    InvalidParams,
>)
    ensures
        r is Err <==> timestamp < old(time)@.last_timestamp,
        r matches Err(e) ==> e == InvalidParams::TimestampTooLow(timestamp) && final(time)@ == old(
            time,
        )@,
        r is Ok ==> final(time)@ == (TimeView {
            next_exact_timestamp: Some(timestamp),
            ..old(time)@
        }),
{
    match time.set_next_block_timestamp(timestamp) {
        Ok(()) => Ok(()),
        Err(TimestampTooLow { timestamp }) => Err(InvalidParams::TimestampTooLow(timestamp)),
    }
}

/// What waiting for a mined block does after one look at the head.
#[derive(Debug, Clone, Copy, PartialEq, Eq)]
pub enum BlockWait {
    /// The head has reached the block waited for.
    Reached,
    /// Sleep a tenth of a second and look again.
    PollAgain,
    /// Sleep a tenth of a second and give up: the head did not reach the block in 200 looks.
    TimedOut,
}

/// The step after look number `looks` (counting from one) found the head at block `current`
/// while block `expected` is waited for.
pub fn block_wait_step(current: u64, expected: u64, looks: u32) -> (r: BlockWait)
    ensures
        r == if current >= expected {
            BlockWait::Reached
        } else if looks < 200 {
            BlockWait::PollAgain
        } else {
            BlockWait::TimedOut
        },
{
    if current >= expected {
        BlockWait::Reached
    } else if looks < 200 {
        BlockWait::PollAgain
    } else {
        BlockWait::TimedOut
    }
}

/// The number of blocks that `anvil_mine` mines: one where none is given.
pub fn mine_block_count(num_blocks: Option<U256>) -> (r: u64)
    requires
        num_blocks matches Some(n) ==> n.value() <= u64::MAX,
    ensures
        r == match num_blocks {
            Some(n) => n.value(),
            None => 1,
        },
{
    match num_blocks {
        Some(n) => n.low as u64,
        None => 1,
    }
}

/// The time state `t` with its block timestamp interval set to `interval`.
pub open spec fn with_interval(t: TimeView, interval: Option<u64>) -> TimeView {
    TimeView { interval, ..t }
}

/// Before mining with a timestamp interval: where `interval` is given and not zero, it
/// replaces the current interval, and the interval that it replaces is returned so that it
/// can be put back; otherwise nothing changes and `None` is returned.
pub fn begin_mining_interval(time: &mut TimeManager, interval: Option<U256>) -> (r: Option<
    Option<u64>,
>)
    requires
        interval matches Some(i) ==> i.value() <= u64::MAX,
    ensures
        r is Some <==> (interval matches Some(i) && i.value() != 0),
        r matches Some(previous) ==> previous == old(time)@.interval && final(time)@
            == with_interval(old(time)@, Some(interval.unwrap().value() as u64)),
        r is None ==> final(time)@ == old(time)@,
{
    match interval {
        Some(i) => {
            if i.is_zero() {
                None
            } else {
                let previous = time.interval();
                time.set_block_timestamp_interval(i.low as u64);
                Some(previous)
            }
        },
        None => None,
    }
}

/// After mining with a timestamp interval: puts back the interval that `begin_mining_interval`
/// replaced, or removes the interval where there was none.
pub fn end_mining_interval(time: &mut TimeManager, previous: Option<u64>)
    ensures
        final(time)@ == with_interval(old(time)@, previous),
{
    match previous {
        Some(p) => time.set_block_timestamp_interval(p),
        None => {
            time.remove_block_timestamp_interval();
        },
    }
}

/// Requests `blocks` blocks from the miner while the head is block `start`, and returns the
/// numbers of the blocks that will be mined: from `start + 1` up to `start + blocks`, held to
/// `u64::MAX`.
pub fn request_blocks(mining: &mut MiningController, start: u64, blocks: u64) -> (r: Vec<u64>)
    requires
        blocks > 0 ==> start < u64::MAX,
    ensures
        final(mining)@.mode == old(mining)@.mode,
        final(mining)@.pending_triggers == count_after_triggers(
            old(mining)@.pending_triggers,
            blocks as nat,
        ),
        r@.len() == if blocks == 0 {
            0
        } else if start + blocks > u64::MAX {
            u64::MAX - start
        } else {
            blocks as int
        },
        forall|i: int| 0 <= i < r@.len() ==> r@[i] == start + 1 + i,
{
    let mut numbers: Vec<u64> = Vec::new();
    if blocks == 0 {
        return numbers;
    }
    let mut k: u64 = 0;
    while k < blocks
        invariant
            0 <= k <= blocks,
            mining@.mode == old(mining)@.mode,
            mining@.pending_triggers == count_after_triggers(old(mining)@.pending_triggers, k as nat),
        decreases blocks - k,
    {
        mining.trigger();
        k = k + 1;
    }
    let end = start.saturating_add(blocks);
    let mut n: u64 = start;
    while n < end
        invariant
            start <= n <= end,
            numbers@.len() == n - start,
            forall|i: int| 0 <= i < numbers@.len() ==> numbers@[i] == start + 1 + i,
        decreases end - n,
    {
        n = n + 1;
        numbers.push(n);
    }
    numbers
}

/// The options of `anvil_mine_detailed`.
#[derive(Debug, Clone, Copy, PartialEq, Eq)]
pub enum MineOptions {
    /// A timestamp for the first block, and a number of blocks.
    Options { timestamp: Option<u64>, blocks: Option<u64> },
    /// A timestamp for the first block.
    Timestamp(Option<u64>),
}

/// Prepares `anvil_mine_detailed`: an exact timestamp in the options becomes the next block's,
/// which is refused where it lies before the last block; returns the number of blocks to mine,
/// one where the options give none.
pub fn prepare_mine_detailed(time: &mut TimeManager, opts: Option<MineOptions>) -> (r: Result<
    u64,
    InvalidParams,
>)
    ensures
        ({
            let (timestamp, blocks) = match opts {
                Some(MineOptions::Options { timestamp, blocks }) => (
                    timestamp,
                    match blocks {
                        Some(b) => b,
                        None => 1,
                    },
                ),
                Some(MineOptions::Timestamp(timestamp)) => (timestamp, 1),
                None => (None, 1),
            };
            &&& r is Err <==> (timestamp matches Some(ts) && ts < old(time)@.last_timestamp)
            &&& r matches Err(e) ==> e == InvalidParams::TimestampTooLow(timestamp.unwrap())
                && final(time)@ == old(time)@
            &&& r matches Ok(n) ==> n == blocks && final(time)@ == match timestamp {
                Some(ts) => TimeView { next_exact_timestamp: Some(ts), ..old(time)@ },
                None => old(time)@,
            }
        }),
{
    let (timestamp, blocks) = match opts {
        Some(MineOptions::Options { timestamp, blocks }) => (
            timestamp,
            match blocks {
                Some(b) => b,
                None => 1,
            },
        ),
        Some(MineOptions::Timestamp(timestamp)) => (timestamp, 1),
        None => (None, 1),
    };
    match timestamp {
        Some(ts) => {
            match set_next_block_timestamp(time, ts) {
                Ok(()) => {},
                Err(e) => {
                    return Err(e);
                },
            }
        },
        None => {},
    }
    Ok(blocks)
}

/// Switches automine on or off; where it is switched on and the pool holds transactions, one
/// block is requested. `pending_and_queued` is the pool's count of transactions.
pub fn set_automine(mining: &mut MiningController, enabled: bool, pending_and_queued: usize)
    ensures
        final(mining)@.mode == mode_after_set_automine(old(mining)@.mode, enabled),
        final(mining)@.pending_triggers == if enabled && pending_and_queued > 0 {
            count_after_trigger(old(mining)@.pending_triggers)
        } else {
            old(mining)@.pending_triggers
        },
{
    mining.set_automine(enabled);
    if enabled && pending_and_queued > 0 {
        mining.trigger();
    }
}

/// After the pool was asked to drop the transaction with hash `tx_hash`: where it held the
/// transaction, its remembered sender is forgotten and the hash is returned.
pub fn drop_transaction(state: &mut ImpersonationState, tx_hash: B256, removed: bool) -> (r:
    Option<B256>)
    ensures
        r == if removed {
            Some(tx_hash)
        } else {
            None::<B256>
        },
        removed ==> final(state)@ == without_sender(old(state)@, tx_hash),
        !removed ==> final(state)@ == old(state)@,
{
    if removed {
        state.forget_tx_sender(&tx_hash);
        Some(tx_hash)
    } else {
        None
    }
}

/// Checks the parameters of a state dump: keeping historical states is refused.
pub fn check_dump_request(preserve_historical_states: Option<bool>) -> (r: Result<
    (),
    InvalidParams,
>)
    ensures
        r is Err <==> preserve_historical_states == Some(true),
        r matches Err(e) ==> e == InvalidParams::HistoricalStatesUnsupported,
{
    match preserve_historical_states {
        Some(true) => Err(InvalidParams::HistoricalStatesUnsupported),
        _ => Ok(()),
    }
}

/// The name of the latest hardfork active at a block, given which of the hardforks since
/// London are active there.
pub fn hardfork_name(osaka: bool, prague: bool, cancun: bool, shanghai: bool) -> (r: &'static str)
    ensures
        r@ == if osaka {
            "osaka"@
        } else if prague {
            "prague"@
        } else if cancun {
            "cancun"@
        } else if shanghai {
            "shanghai"@
        } else {
            "london"@
        },
{
    if osaka {
        "osaka"
    } else if prague {
        "prague"
    } else if cancun {
        "cancun"
    } else if shanghai {
        "shanghai"
    } else {
        "london"
    }
}

/// The first four bytes of the keccak-256 hash of `balanceOf(address)`.
pub open spec fn balance_of_selector() -> Seq<u8> {
    seq![0x70u8, 0xa0u8, 0x82u8, 0x31u8]
}

/// The first four bytes of the keccak-256 hash of `allowance(address,address)`.
pub open spec fn allowance_selector() -> Seq<u8> {
    seq![0xddu8, 0x62u8, 0xedu8, 0x3eu8]
}

/// The 32-byte ABI word of an address: twelve zero bytes and the address.
pub open spec fn address_word(a: Address) -> Seq<u8> {
    Seq::new(12, |i: int| 0u8) + a.bytes@
}

/// Appends the 32-byte ABI word of `a` to `out`.
fn push_address_word(out: &mut Vec<u8>, a: &Address)
    ensures
        final(out)@ == old(out)@ + address_word(*a),
{
    let mut i: usize = 0;
    while i < 12
        invariant
            0 <= i <= 12,
            out@ == old(out)@ + Seq::new(i as nat, |j: int| 0u8),
        decreases 12 - i,
    {
        out.push(0u8);
        i = i + 1;
        assert(out@ =~= old(out)@ + Seq::new(i as nat, |j: int| 0u8));
    }
    let mut k: usize = 0;
    while k < 20
        invariant
            0 <= k <= 20,
            out@ == old(out)@ + Seq::new(12, |j: int| 0u8) + a.bytes@.take(k as int),
        decreases 20 - k,
    {
        out.push(a.bytes[k]);
        k = k + 1;
        assert(out@ =~= old(out)@ + Seq::new(12, |j: int| 0u8) + a.bytes@.take(k as int));
    }
    assert(a.bytes@.take(20) =~= a.bytes@);
    assert(out@ =~= old(out)@ + address_word(*a));
}

/// The call data of `balanceOf(holder)`: the selector and the ABI word of the holder.
pub open spec fn balance_of_call(holder: Address) -> Seq<u8> {
    balance_of_selector() + address_word(holder)
}

/// The call data of `allowance(owner, spender)`: the selector and the ABI words of the owner
/// and the spender.
pub open spec fn allowance_call(owner: Address, spender: Address) -> Seq<u8> {
    allowance_selector() + address_word(owner) + address_word(spender)
}

/// The call data of `balanceOf(address)`.
pub fn balance_of_calldata(address: &Address) -> (r: Vec<u8>)
    ensures
        r@ == balance_of_call(*address),
{
    let mut out: Vec<u8> = Vec::new();
    out.push(0x70u8);
    out.push(0xa0u8);
    out.push(0x82u8);
    out.push(0x31u8);
    assert(out@ =~= balance_of_selector());
    push_address_word(&mut out, address);
    out
}

/// The call data of `allowance(owner, spender)`.
pub fn allowance_calldata(owner: &Address, spender: &Address) -> (r: Vec<u8>)
    ensures
        r@ == allowance_call(*owner, *spender),
{
    let mut out: Vec<u8> = Vec::new();
    out.push(0xddu8);
    out.push(0x62u8);
    out.push(0xedu8);
    out.push(0x3eu8);
    assert(out@ =~= allowance_selector());
    push_address_word(&mut out, owner);
    push_address_word(&mut out, spender);
    out
}


/// One entry of an access list: an account and the storage slots of it that a call touched.
#[derive(Debug, Clone, PartialEq, Eq)]
pub struct AccessListItem {
    pub address: Address,
    pub storage_keys: Vec<B256>,
}

/// The storage slots of `token` that the access list `items` names, in order: the candidates
/// for the slot that holds an ERC-20 balance or allowance.
pub open spec fn token_slots(items: Seq<AccessListItem>, token: Address) -> Seq<B256>
    decreases items.len(),
{
    if items.len() == 0 {
        Seq::empty()
    } else {
        let earlier = token_slots(items.drop_last(), token);
        if items.last().address == token {
            earlier + items.last().storage_keys@
        } else {
            earlier
        }
    }
}

/// The storage slots of `token` in an access list, in the order in which they are tried.
pub fn candidate_slots(items: &Vec<AccessListItem>, token: &Address) -> (r: Vec<B256>)
    ensures
        r@ == token_slots(items@, *token),
{
    let mut out: Vec<B256> = Vec::new();
    let mut i: usize = 0;
    while i < items.len()
        invariant
            0 <= i <= items@.len(),
            out@ == token_slots(items@.take(i as int), *token),
        decreases items@.len() - i,
    {
        assert(items@.take(i + 1).drop_last() =~= items@.take(i as int));
        let item = &items[i];
        if item.address.key_eq(token) {
            let ghost before = out@;
            let mut k: usize = 0;
            while k < item.storage_keys.len()
                invariant
                    0 <= k <= item.storage_keys@.len(),
                    out@ == before + item.storage_keys@.take(k as int),
                decreases item.storage_keys@.len() - k,
            {
                out.push(item.storage_keys[k]);
                k = k + 1;
                assert(out@ =~= before + item.storage_keys@.take(k as int));
            }
            assert(item.storage_keys@.take(k as int) =~= item.storage_keys@);
        }
        i = i + 1;
    }
    assert(items@.take(items@.len() as int) =~= items@);
    out
}

/// Whether the return data of a `balanceOf` or `allowance` call, read as a big-endian number
/// of at most 32 bytes, is the value that was written to the slot on trial.
pub fn call_result_matches(result: &Vec<u8>, expected: U256) -> (r: bool)
    requires
        result@.len() <= 32,
    ensures
        r == (be_value(result@) == expected.value()),
{
    let got = U256::from_be_slice(result.as_slice());
    got == expected
}

/// What the search for the storage slot of an ERC-20 balance or allowance does next.
#[derive(Debug, Clone, Copy, PartialEq, Eq)]
pub enum SlotSearchAction {
    /// Write the expected value to this candidate slot and make the trial call.
    Try(B256),
    /// The trial call read the expected value back: this is the slot.
    Found(B256),
    /// No candidate is left: the search fails.
    NotFound,
}

/// The action after the candidates before `index` were tried in vain.
pub open spec fn next_trial(candidates: Seq<B256>, index: int) -> SlotSearchAction {
    if 0 <= index < candidates.len() {
        SlotSearchAction::Try(candidates[index])
    } else {
        SlotSearchAction::NotFound
    }
}

/// Whether a trial call's outcome is a success that returned `expected`.
pub open spec fn trial_matches(result: Option<Seq<u8>>, expected: U256) -> bool {
    match result {
        Some(v) => be_value(v) == expected.value(),
        None => false,
    }
}

/// The action after the trial call for candidate `index`, whose outcome is `result`: the
/// candidate where the call read `expected` back, else the next trial.
pub open spec fn step_outcome(
    candidates: Seq<B256>,
    index: int,
    result: Option<Seq<u8>>,
    expected: U256,
) -> SlotSearchAction {
    if trial_matches(result, expected) {
        SlotSearchAction::Found(candidates[index])
    } else {
        next_trial(candidates, index + 1)
    }
}

/// Where the search ends when candidate `index` is tried next and the trial call for candidate
/// `i` has outcome `results[i]`: each step is `step_outcome`, and a `Try` goes on to the next
/// candidate.
pub open spec fn search_from(
    candidates: Seq<B256>,
    results: Seq<Option<Seq<u8>>>,
    expected: U256,
    index: int,
) -> SlotSearchAction
    decreases candidates.len() - index,
{
    if index < 0 || index >= candidates.len() {
        SlotSearchAction::NotFound
    } else {
        match step_outcome(candidates, index, results[index], expected) {
            SlotSearchAction::Try(_) => search_from(candidates, results, expected, index + 1),
            other => other,
        }
    }
}

/// The first action of the search: try the first candidate, or fail where there is none.
pub fn slot_search_start(candidates: &Vec<B256>) -> (r: SlotSearchAction)
    ensures
        r == next_trial(candidates@, 0),
{
    if candidates.len() > 0 {
        SlotSearchAction::Try(candidates[0])
    } else {
        SlotSearchAction::NotFound
    }
}

/// The action after the trial call for candidate `index`, whose return data is `result`, or
/// `None` where the call failed: a call that read `expected` back ends the search with that
/// candidate; a failed call, or one that read another value, moves on to the next candidate;
/// after the last one the search fails.
pub fn slot_search_step(
    candidates: &Vec<B256>,
    index: usize,
    result: Option<Vec<u8>>,
    expected: U256,
) -> (r: SlotSearchAction)
    requires
        index < candidates@.len(),
        result matches Some(v) ==> v@.len() <= 32,
    ensures
        r == step_outcome(
            candidates@,
            index as int,
            match result {
                Some(v) => Some(v@),
                None => None,
            },
            expected,
        ),
{
    let matched = match &result {
        Some(v) => call_result_matches(v, expected),
        None => false,
    };
    if matched {
        SlotSearchAction::Found(candidates[index])
    } else if index < candidates.len() - 1 {
        SlotSearchAction::Try(candidates[index + 1])
    } else {
        SlotSearchAction::NotFound
    }
}
} // verus!

verus! {

/// The slot search ends on the first candidate whose trial call read the expected value back,
/// and fails exactly where no trial did: following `slot_search_start` and then
/// `slot_search_step` with the outcome of each trial, from candidate `index` on.
pub proof fn law_slot_search_first_match(
    candidates: Seq<B256>,
    results: Seq<Option<Seq<u8>>>,
    expected: U256,
    index: int,
)
    requires
        0 <= index <= candidates.len(),
        results.len() == candidates.len(),
    ensures
        search_from(candidates, results, expected, index) is NotFound <==> (forall|i: int|
            index <= i < candidates.len() ==> !#[trigger] trial_matches(results[i], expected)),
        search_from(candidates, results, expected, index) is Try ==> false,
        search_from(candidates, results, expected, index) matches SlotSearchAction::Found(slot)
            ==> exists|j: int|
            index <= j < candidates.len() && trial_matches(results[j], expected) && slot
                == candidates[j] && forall|i: int|
                index <= i < j ==> !#[trigger] trial_matches(results[i], expected),
    decreases candidates.len() - index,
{
    if index < candidates.len() {
        law_slot_search_first_match(candidates, results, expected, index + 1);
        if trial_matches(results[index], expected) {
            assert(search_from(candidates, results, expected, index) == SlotSearchAction::Found(
                candidates[index],
            ));
        } else {
            if index + 1 < candidates.len() {
                assert(step_outcome(candidates, index, results[index], expected)
                    == SlotSearchAction::Try(candidates[index + 1]));
            }
            assert(search_from(candidates, results, expected, index) == search_from(
                candidates,
                results,
                expected,
                index + 1,
            ));
            let found = search_from(candidates, results, expected, index);
            if let SlotSearchAction::Found(slot) = found {
                let j = choose|j: int|
                    index + 1 <= j < candidates.len() && trial_matches(results[j], expected)
                        && slot == candidates[j] && forall|i: int|
                        index + 1 <= i < j ==> !#[trigger] trial_matches(results[i], expected);
                assert forall|i: int| index <= i < j implies !#[trigger] trial_matches(
                    results[i],
                    expected,
                ) by {
                    if i > index {
                    }
                }
            }
        }
    }
}

/// The ABI word of an address is twelve zero bytes and then the address's twenty bytes in
/// order; so the `balanceOf` call data is `70 a0 82 31`, twelve zero bytes and the holder, and
/// the `allowance` call data is `dd 62 ed 3e`, then the owner and the spender, each after
/// twelve zero bytes.
pub proof fn law_calldata_layout(a: Address, owner: Address, spender: Address)
    ensures
        address_word(a).len() == 32,
        forall|i: int| 0 <= i < 12 ==> #[trigger] address_word(a)[i] == 0u8,
        forall|i: int| 0 <= i < 20 ==> #[trigger] address_word(a)[12 + i] == a.bytes@[i],
        balance_of_call(a).len() == 36,
        balance_of_call(a).take(4) == seq![0x70u8, 0xa0u8, 0x82u8, 0x31u8],
        balance_of_call(a).subrange(4, 16) == Seq::new(12, |i: int| 0u8),
        balance_of_call(a).subrange(16, 36) == a.bytes@,
        allowance_call(owner, spender).len() == 68,
        allowance_call(owner, spender).take(4) == seq![0xddu8, 0x62u8, 0xedu8, 0x3eu8],
        allowance_call(owner, spender).subrange(4, 16) == Seq::new(12, |i: int| 0u8),
        allowance_call(owner, spender).subrange(16, 36) == owner.bytes@,
        allowance_call(owner, spender).subrange(36, 48) == Seq::new(12, |i: int| 0u8),
        allowance_call(owner, spender).subrange(48, 68) == spender.bytes@,
{
    assert(balance_of_call(a).take(4) =~= seq![0x70u8, 0xa0u8, 0x82u8, 0x31u8]);
    assert(balance_of_call(a).subrange(4, 16) =~= Seq::new(12, |i: int| 0u8));
    assert(balance_of_call(a).subrange(16, 36) =~= a.bytes@);
    let c = allowance_call(owner, spender);
    assert(c.take(4) =~= seq![0xddu8, 0x62u8, 0xedu8, 0x3eu8]);
    assert(c.subrange(4, 16) =~= Seq::new(12, |i: int| 0u8));
    assert(c.subrange(16, 36) =~= owner.bytes@);
    assert(c.subrange(36, 48) =~= Seq::new(12, |i: int| 0u8));
    assert(c.subrange(48, 68) =~= spender.bytes@);
}

/// Mining with a timestamp interval leaves the interval as it was before: what
/// `begin_mining_interval` hands out, `end_mining_interval` puts back.
pub proof fn law_mining_interval_restored(t: TimeView, interval: u64)
    ensures
        with_interval(with_interval(t, Some(interval)), t.interval) == t,
{
}

} // verus!
