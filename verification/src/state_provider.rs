//! Reading the chain state through the local overrides: an account's nonce, balance and code
//! hash, a storage slot, and code by its hash.
use vstd::prelude::*;
use crate::assoc::Duplicate;
use crate::primitives::{Address, B256, U256};
use crate::state::{AccountOverrideView, AnvilState};

verus! {

/// The basic fields of an account in the chain state.
#[derive(Clone, Copy, Debug, PartialEq, Eq, Structural)]
pub struct AccountInfo {
    pub nonce: u64,
    pub balance: U256,
    pub bytecode_hash: Option<B256>,
}

impl AccountInfo {
    /// The account that the chain holds for an address it does not know: nonce zero, balance
    /// zero, no code.
    pub fn empty() -> (r: AccountInfo)
        ensures
            r == empty_account(),
    {
        AccountInfo { nonce: 0, balance: U256::zero(), bytecode_hash: None }
    }
}

/// The account of an unknown address.
pub open spec fn empty_account() -> AccountInfo {
    AccountInfo { nonce: 0, balance: U256 { high: 0, low: 0 }, bytecode_hash: None }
}

/// `base` with the fields that `ov` overrides replaced.
pub open spec fn overlaid_account(base: AccountInfo, ov: AccountOverrideView) -> AccountInfo {
    AccountInfo {
        nonce: match ov.nonce {
            Some(n) => n,
            None => base.nonce,
        },
        balance: match ov.balance {
            Some(b) => b,
            None => base.balance,
        },
        bytecode_hash: match ov.code_hash {
            Some(h) => Some(h),
            None => base.bytecode_hash,
        },
    }
}

/// The account `address` as read through the overrides `accounts`, where `base` is the
/// chain's account: with overrides, the chain's account (or an empty one) with them applied;
/// without, the chain's account as it is.
pub open spec fn account_through_overlay(
    accounts: Map<Address, AccountOverrideView>,
    address: Address,
    base: Option<AccountInfo>,
) -> Option<AccountInfo> {
    if accounts.contains_key(address) {
        Some(
            overlaid_account(
                match base {
                    Some(b) => b,
                    None => empty_account(),
                },
                accounts[address],
            ),
        )
    } else {
        base
    }
}

/// The account of `address` as read through the overrides of `state`, where `base` is what
/// the chain holds: the chain's account where `address` has no overrides; otherwise the
/// chain's account, or the empty account where the chain has none, with the overridden fields
/// replaced.
pub fn basic_account(state: &AnvilState, address: &Address, base: Option<AccountInfo>) -> (r:
    Option<AccountInfo>)
    ensures
        r == account_through_overlay(state@.accounts, *address, base),
{
    let account_override = match state.account(address) {
        Some(a) => a,
        None => {
            return base;
        },
    };
    let mut account = match base {
        Some(b) => b,
        None => AccountInfo::empty(),
    };
    match account_override.balance() {
        Some(balance) => {
            account.balance = balance;
        },
        None => {},
    }
    match account_override.nonce() {
        Some(nonce) => {
            account.nonce = nonce;
        },
        None => {},
    }
    match account_override.code_hash() {
        Some(code_hash) => {
            account.bytecode_hash = Some(code_hash);
        },
        None => {},
    }
    Some(account)
}

/// Storage slot `slot` of `address` as read through the overrides of `state`, where `base` is
/// what the chain holds: the overridden value where there is one, else the chain's.
pub fn storage(state: &AnvilState, address: &Address, slot: &B256, base: Option<U256>) -> (r:
    Option<U256>)
    ensures
        r == if state@.accounts.contains_key(*address) && state@.accounts[*address].storage.contains_key(
            *slot,
        ) {
            Some(state@.accounts[*address].storage[*slot])
        } else {
            base
        },
{
    match state.storage(address, slot) {
        Some(value) => Some(value),
        None => base,
    }
}

/// The code with hash `code_hash` as read through the overrides of `state`, where `base` is
/// what the chain holds: overriding code where there is some, else the chain's.
pub fn bytecode_by_hash(state: &AnvilState, code_hash: &B256, base: Option<Vec<u8>>) -> (r:
    Option<Vec<u8>>)
    ensures
        r matches Some(c) ==> if state@.bytecodes.contains_key(*code_hash) {
            c@ == state@.bytecodes[*code_hash]
        } else {
            base matches Some(b) && c@ == b@
        },
        r is None <==> !state@.bytecodes.contains_key(*code_hash) && base is None,
{
    match state.bytecode_by_hash(code_hash) {
        Some(code) => Some(code.duplicate()),
        None => base,
    }
}

/// Reading an account through the overrides: an account with overrides is always found; each
/// field it overrides (nonce, balance, code hash) reports the overriding value, and each field
/// it leaves alone reports the chain's value, or that of an empty account where the chain has
/// none; an account without overrides reads as the chain has it.
pub proof fn law_overlay_reports_overrides(
    accounts: Map<Address, AccountOverrideView>,
    a: Address,
    base: Option<AccountInfo>,
)
    ensures
        ({
            let chain = match base {
                Some(b) => b,
                None => empty_account(),
            };
            let read = account_through_overlay(accounts, a, base);
            &&& !accounts.contains_key(a) ==> read == base
            &&& accounts.contains_key(a) ==> read is Some
            &&& accounts.contains_key(a) ==> {
                let ov = accounts[a];
                let acc = read.unwrap();
                &&& ov.nonce matches Some(n) ==> acc.nonce == n
                &&& ov.nonce is None ==> acc.nonce == chain.nonce
                &&& ov.balance matches Some(b) ==> acc.balance == b
                &&& ov.balance is None ==> acc.balance == chain.balance
                &&& ov.code_hash matches Some(h) ==> acc.bytecode_hash == Some(h)
                &&& ov.code_hash is None ==> acc.bytecode_hash == chain.bytecode_hash
            }
        }),
{
}

} // verus!
