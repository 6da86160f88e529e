//! Impersonation: accounts whose transactions the node accepts without a valid signature, and
//! the sender to credit for each such transaction by its hash.
use vstd::prelude::*;
use crate::assoc::AssocMap;
use crate::primitives::{Address, B256};

verus! {

/// The model of the impersonation state.
pub struct ImpersonationView {
    /// Accounts impersonated one by one.
    pub accounts: Set<Address>,
    /// Whether every account counts as impersonated.
    pub auto_impersonate: bool,
    /// The sender to credit for each impersonated transaction, by transaction hash.
    pub tx_senders: Map<B256, Address>,
}

/// Whether `address` counts as impersonated in `s`.
pub open spec fn impersonated(s: ImpersonationView, address: Address) -> bool {
    s.auto_impersonate || s.accounts.contains(address)
}

/// The state after `address` is impersonated.
pub open spec fn with_impersonated(s: ImpersonationView, address: Address) -> ImpersonationView {
    ImpersonationView { accounts: s.accounts.insert(address), ..s }
}

/// The state after impersonation of `address` stops.
pub open spec fn without_impersonated(s: ImpersonationView, address: Address) -> ImpersonationView {
    ImpersonationView { accounts: s.accounts.remove(address), ..s }
}

/// The state after automatic impersonation is switched on or off.
pub open spec fn with_auto_impersonate(s: ImpersonationView, enabled: bool) -> ImpersonationView {
    ImpersonationView { auto_impersonate: enabled, ..s }
}

/// The state after `sender` is remembered as the sender of transaction `hash`.
pub open spec fn with_sender(s: ImpersonationView, hash: B256, sender: Address) -> ImpersonationView {
    ImpersonationView { tx_senders: s.tx_senders.insert(hash, sender), ..s }
}

/// The state after the sender of transaction `hash` is forgotten.
pub open spec fn without_sender(s: ImpersonationView, hash: B256) -> ImpersonationView {
    ImpersonationView { tx_senders: s.tx_senders.remove(hash), ..s }
}

/// Impersonation state, consulted by the pool validator, the block executor and the RPC
/// layer.
pub struct ImpersonationState {
    accounts: AssocMap<Address, ()>,
    auto_impersonate: bool,
    tx_senders: AssocMap<B256, Address>,
}

impl View for ImpersonationState {
    type V = ImpersonationView;

    closed spec fn view(&self) -> ImpersonationView {
        ImpersonationView {
            accounts: self.accounts@.dom(),
            auto_impersonate: self.auto_impersonate,
            tx_senders: self.tx_senders@,
        }
    }
}

impl ImpersonationState {
    /// No impersonated accounts and no remembered senders.
    pub fn new() -> (r: ImpersonationState)
        ensures
            r@.accounts == Set::<Address>::empty(),
            !r@.auto_impersonate,
            r@.tx_senders == Map::<B256, Address>::empty(),
    {
        ImpersonationState {
            accounts: AssocMap::new(),
            auto_impersonate: false,
            tx_senders: AssocMap::new(),
        }
    }

    /// Starts impersonating `address`.
    pub fn impersonate(&mut self, address: Address)
        ensures
            final(self)@ == with_impersonated(old(self)@, address),
    {
        self.accounts.insert(address, ());
        assert(self@.accounts =~= old(self)@.accounts.insert(address));
    }

    /// Stops impersonating `address` one by one; automatic impersonation is not affected.
    pub fn stop_impersonating(&mut self, address: Address)
        ensures
            final(self)@ == without_impersonated(old(self)@, address),
    {
        self.accounts.remove(&address);
        assert(self@.accounts =~= old(self)@.accounts.remove(address));
    }

    /// Switches automatic impersonation of every account on or off.
    pub fn set_auto_impersonate(&mut self, enabled: bool)
        ensures
            final(self)@ == with_auto_impersonate(old(self)@, enabled),
    {
        self.auto_impersonate = enabled;
    }

    /// Whether `address` counts as impersonated.
    pub fn is_impersonated(&self, address: &Address) -> (r: bool)
        ensures
            r == impersonated(self@, *address),
    {
        self.auto_impersonate || self.accounts.contains_key(address)
    }

    /// The accounts impersonated one by one, each once.
    pub fn impersonated_accounts(&self) -> (r: Vec<Address>)
        ensures
            r@.no_duplicates(),
            r@.to_set() == self@.accounts,
    {
        self.accounts.keys()
    }

    /// Remembers `sender` as the sender of the transaction with hash `hash`.
    pub fn remember_tx_sender(&mut self, hash: B256, sender: Address)
        ensures
            final(self)@ == with_sender(old(self)@, hash, sender),
    {
        self.tx_senders.insert(hash, sender);
    }

    /// Forgets the sender of the transaction with hash `hash`.
    pub fn forget_tx_sender(&mut self, hash: &B256)
        ensures
            final(self)@ == without_sender(old(self)@, *hash),
    {
        self.tx_senders.remove(hash);
    }

    /// Forgets the senders of all the given transactions.
    pub fn forget_tx_senders(&mut self, hashes: &Vec<B256>)
        ensures
            final(self)@ == (ImpersonationView {
                tx_senders: old(self)@.tx_senders.remove_keys(hashes@.to_set()),
                ..old(self)@
            }),
    {
        let mut i: usize = 0;
        proof {
            assert(hashes@.take(0).to_set() =~= Set::<B256>::empty());
            assert(old(self)@.tx_senders.remove_keys(Set::<B256>::empty()) =~= old(self)@.tx_senders);
        }
        while i < hashes.len()
            invariant
                0 <= i <= hashes@.len(),
                self@ == (ImpersonationView {
                    tx_senders: old(self)@.tx_senders.remove_keys(hashes@.take(i as int).to_set()),
                    ..old(self)@
                }),
            decreases hashes@.len() - i,
        {
            let ghost before = self@.tx_senders;
            self.forget_tx_sender(&hashes[i]);
            i = i + 1;
            proof {
                assert(hashes@.take(i as int) =~= hashes@.take(i - 1).push(hashes@[i - 1]));
                hashes@.take(i - 1).lemma_push_to_set_commute(hashes@[i - 1]);
                assert(hashes@.take(i as int).to_set() =~= hashes@.take(i - 1).to_set().insert(
                    hashes@[i - 1],
                ));
                assert(self@.tx_senders =~= old(self)@.tx_senders.remove_keys(
                    hashes@.take(i as int).to_set(),
                ));
            }
        }
        assert(hashes@.take(hashes@.len() as int) =~= hashes@);
    }

    /// The remembered sender of the transaction with hash `hash`, if any.
    pub fn tx_sender(&self, hash: &B256) -> (r: Option<Address>)
        ensures
            r == if self@.tx_senders.contains_key(*hash) {
                Some(self@.tx_senders[*hash])
            } else {
                None::<Address>
            },
    {
        match self.tx_senders.get(hash) {
            Some(a) => Some(*a),
            None => None,
        }
    }

    /// For a transaction from `sender` with hash `hash` and nonce `nonce`: where `sender` is
    /// impersonated, remembers it as the transaction's sender and returns the outcome that the
    /// pool takes as valid, with the largest balance and the transaction's own nonce; otherwise
    /// returns `None`, changes nothing, and the transaction goes to the ordinary validator.
    pub fn validate_impersonated(
        &mut self,
        sender: Address,
        hash: B256,
        nonce: u64,
    ) -> (r: Option<ImpersonatedValidation>)
        ensures
            r is Some <==> impersonated(old(self)@, sender),
            r matches Some(v) ==> v.balance.value() == crate::primitives::word_max()
                && v.state_nonce == nonce,
            r is Some ==> final(self)@ == with_sender(old(self)@, hash, sender),
            r is None ==> final(self)@ == old(self)@,
    {
        if self.is_impersonated(&sender) {
            self.remember_tx_sender(hash, sender);
            Some(
                ImpersonatedValidation {
                    balance: crate::primitives::U256::max_value(),
                    state_nonce: nonce,
                },
            )
        } else {
            None
        }
    }
}

/// The account facts that the pool is given for an impersonated transaction.
#[derive(Clone, Copy, Debug)]
pub struct ImpersonatedValidation {
    pub balance: crate::primitives::U256,
    pub state_nonce: u64,
}

impl Default for ImpersonationState {
    fn default() -> (r: ImpersonationState)
        ensures
            r@.accounts == Set::<Address>::empty(),
            !r@.auto_impersonate,
            r@.tx_senders == Map::<B256, Address>::empty(),
    {
        ImpersonationState::new()
    }
}

} // verus!

verus! {

/// An impersonated account counts as impersonated; once impersonation of it stops it no
/// longer does, unless every account is impersonated; with automatic impersonation on, every
/// account counts as impersonated; impersonating one account leaves every other as it was.
pub proof fn law_impersonate_then_stop(s: ImpersonationView, a: Address, b: Address)
    ensures
        impersonated(with_impersonated(s, a), a),
        !s.auto_impersonate ==> !impersonated(without_impersonated(with_impersonated(s, a), a), a),
        impersonated(with_auto_impersonate(s, true), b),
        b != a ==> impersonated(with_impersonated(s, a), b) == impersonated(s, b),
        b != a ==> impersonated(without_impersonated(s, a), b) == impersonated(s, b),
{
}

/// A remembered sender is found by its transaction hash until it is forgotten; forgetting one
/// transaction's sender keeps every other.
pub proof fn law_remember_then_forget(
    s: ImpersonationView,
    hash: B256,
    other: B256,
    sender: Address,
)
    ensures
        with_sender(s, hash, sender).tx_senders.contains_key(hash),
        with_sender(s, hash, sender).tx_senders[hash] == sender,
        !without_sender(with_sender(s, hash, sender), hash).tx_senders.contains_key(hash),
        other != hash && s.tx_senders.contains_key(other) ==> without_sender(
            with_sender(s, hash, sender),
            hash,
        ).tx_senders[other] == s.tx_senders[other],
        other != hash ==> (without_sender(with_sender(s, hash, sender), hash).tx_senders.contains_key(
            other,
        ) == s.tx_senders.contains_key(other)),
{
}

} // verus!
