//! A local Ethereum development node's own state machinery: account overrides, block
//! environment overrides, block timestamps, mining modes, impersonation, snapshots and state
//! dumps, each with a contract that Verus proves.
use vstd::prelude::*;

pub mod primitives;
pub mod assoc;
pub mod state;
pub mod time;
pub mod block_env;
pub mod mining;
pub mod impersonation;
pub mod snapshot;
pub mod state_provider;
pub mod state_dump;
pub mod anvil_api;
pub mod evm;

verus! {

} // verus!
