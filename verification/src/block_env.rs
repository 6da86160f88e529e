//! Overrides of the block environment: a block gas limit and a coinbase that hold for every
//! later block, and a base fee that the next block alone uses.
use vstd::prelude::*;
use crate::primitives::Address;

verus! {

/// The model of the block-environment overrides, and of a snapshot of them.
pub struct BlockEnvView {
    pub gas_limit: Option<u64>,
    pub coinbase: Option<Address>,
    pub next_base_fee: Option<u64>,
}

/// The overrides after a base fee `fee` was set for the next block.
pub open spec fn with_next_base_fee(v: BlockEnvView, fee: u64) -> BlockEnvView {
    BlockEnvView { next_base_fee: Some(fee), ..v }
}

/// The overrides after the next block took its base fee, if one was set.
pub open spec fn base_fee_taken(v: BlockEnvView) -> BlockEnvView {
    BlockEnvView { next_base_fee: None, ..v }
}

/// Restorable block-environment override state.
#[derive(Clone, Copy, Debug)]
pub struct BlockEnvSnapshot {
    gas_limit: Option<u64>,
    coinbase: Option<Address>,
    next_base_fee: Option<u64>,
}

impl View for BlockEnvSnapshot {
    type V = BlockEnvView;

    closed spec fn view(&self) -> BlockEnvView {
        BlockEnvView {
            gas_limit: self.gas_limit,
            coinbase: self.coinbase,
            next_base_fee: self.next_base_fee,
        }
    }
}

impl BlockEnvSnapshot {
    /// A snapshot without overrides.
    pub fn new() -> (r: BlockEnvSnapshot)
        ensures
            r@ == (BlockEnvView { gas_limit: None, coinbase: None, next_base_fee: None }),
    {
        BlockEnvSnapshot { gas_limit: None, coinbase: None, next_base_fee: None }
    }
}

/// Block-environment overrides for block gas limit, coinbase, and next-block base fee.
///
/// `gas_limit` and `coinbase` are persistent: they apply to every subsequent block until
/// changed again. `next_base_fee` is consumed once when the next block is built.
#[derive(Clone, Copy, Debug)]
pub struct BlockEnvOverrides {
    gas_limit: Option<u64>,
    coinbase: Option<Address>,
    next_base_fee: Option<u64>,
}

impl View for BlockEnvOverrides {
    type V = BlockEnvView;

    closed spec fn view(&self) -> BlockEnvView {
        BlockEnvView {
            gas_limit: self.gas_limit,
            coinbase: self.coinbase,
            next_base_fee: self.next_base_fee,
        }
    }
}

impl BlockEnvOverrides {
    /// No overrides.
    pub fn new() -> (r: BlockEnvOverrides)
        ensures
            r@ == (BlockEnvView { gas_limit: None, coinbase: None, next_base_fee: None }),
    {
        BlockEnvOverrides { gas_limit: None, coinbase: None, next_base_fee: None }
    }

    /// Sets a persistent gas limit override for all future blocks.
    pub fn set_gas_limit(&mut self, limit: u64)
        ensures
            final(self)@ == (BlockEnvView { gas_limit: Some(limit), ..old(self)@ }),
    {
        self.gas_limit = Some(limit);
    }

    /// Returns the gas limit override, if set.
    pub fn gas_limit(&self) -> (r: Option<u64>)
        ensures
            r == self@.gas_limit,
    {
        self.gas_limit
    }

    /// Sets a persistent coinbase override for all future blocks.
    pub fn set_coinbase(&mut self, address: Address)
        ensures
            final(self)@ == (BlockEnvView { coinbase: Some(address), ..old(self)@ }),
    {
        self.coinbase = Some(address);
    }

    /// Returns the coinbase override, if set.
    pub fn coinbase(&self) -> (r: Option<Address>)
        ensures
            r == self@.coinbase,
    {
        self.coinbase
    }

    /// Sets the base fee for the next block only. Consumed on use.
    pub fn set_next_base_fee(&mut self, fee: u64)
        ensures
            final(self)@ == with_next_base_fee(old(self)@, fee),
    {
        self.next_base_fee = Some(fee);
    }

    /// Takes the next-block base fee override, consuming it.
    pub fn take_next_base_fee(&mut self) -> (r: Option<u64>)
        ensures
            r == old(self)@.next_base_fee,
            final(self)@ == base_fee_taken(old(self)@),
    {
        let fee = self.next_base_fee;
        self.next_base_fee = None;
        fee
    }

    /// Captures the current block environment overrides.
    pub fn snapshot(&self) -> (r: BlockEnvSnapshot)
        ensures
            r@ == self@,
    {
        BlockEnvSnapshot {
            gas_limit: self.gas_limit,
            coinbase: self.coinbase,
            next_base_fee: self.next_base_fee,
        }
    }

    /// Restores block environment overrides from a snapshot.
    pub fn restore(&mut self, snapshot: BlockEnvSnapshot)
        ensures
            final(self)@ == snapshot@,
    {
        self.gas_limit = snapshot.gas_limit;
        self.coinbase = snapshot.coinbase;
        self.next_base_fee = snapshot.next_base_fee;
    }
}

impl Default for BlockEnvOverrides {
    fn default() -> (r: BlockEnvOverrides)
        ensures
            r@ == (BlockEnvView { gas_limit: None, coinbase: None, next_base_fee: None }),
    {
        BlockEnvOverrides::new()
    }
}

impl Default for BlockEnvSnapshot {
    fn default() -> (r: BlockEnvSnapshot)
        ensures
            r@ == (BlockEnvView { gas_limit: None, coinbase: None, next_base_fee: None }),
    {
        BlockEnvSnapshot::new()
    }
}

} // verus!

verus! {

/// A base fee set for the next block is handed out once: the first take gives it, the second
/// gives nothing, and the persistent gas limit and coinbase stay as they were.
pub proof fn law_next_base_fee_taken_once(v: BlockEnvView, fee: u64)
    ensures
        ({
            let set = with_next_base_fee(v, fee);
            let taken = base_fee_taken(set);
            &&& set.next_base_fee == Some(fee)
            &&& taken.next_base_fee is None
            &&& base_fee_taken(taken) == taken
            &&& taken.gas_limit == v.gas_limit
            &&& taken.coinbase == v.coinbase
        }),
{
}

} // verus!
