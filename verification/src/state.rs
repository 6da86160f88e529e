//! Locally owned account state that the node lays over the chain state: balance, nonce, code
//! and storage overrides per account, and the bytecode of overridden code by its hash.
use vstd::prelude::*;
use crate::assoc::{AssocMap, Duplicate};
use crate::primitives::{keccak256_of, keccak_empty_hash, spec_keccak256, Address, B256, U256};

verus! {

impl Duplicate for U256 {
    fn duplicate(&self) -> (r: U256) {
        *self
    }
}

impl Duplicate for B256 {
    fn duplicate(&self) -> (r: B256) {
        *self
    }
}

impl Duplicate for Address {
    fn duplicate(&self) -> (r: Address) {
        *self
    }
}

impl Duplicate for Vec<u8> {
    fn duplicate(&self) -> (r: Vec<u8>) {
        let mut r: Vec<u8> = Vec::new();
        let mut i: usize = 0;
        while i < self.len()
            invariant
                0 <= i <= self@.len(),
                r@ == self@.take(i as int),
            decreases self@.len() - i,
        {
            r.push(self[i]);
            i = i + 1;
            assert(r@ =~= self@.take(i as int));
        }
        assert(r@ =~= self@);
        r
    }
}

/// The model of one account's overrides.
pub struct AccountOverrideView {
    pub balance: Option<U256>,
    pub nonce: Option<u64>,
    pub code_hash: Option<B256>,
    pub storage: Map<B256, U256>,
}

impl AccountOverrideView {
    /// An account with no overrides.
    pub open spec fn empty() -> AccountOverrideView {
        AccountOverrideView {
            balance: None,
            nonce: None,
            code_hash: None,
            storage: Map::empty(),
        }
    }
}

/// The code override of an account, by the hash of its code.
struct CodeOverride {
    hash: B256,
}

/// The overrides of one account. A field that is `None` leaves the chain's value in place.
pub struct AccountOverride {
    balance: Option<U256>,
    nonce: Option<u64>,
    code: Option<CodeOverride>,
    storage: AssocMap<B256, U256>,
}

impl View for AccountOverride {
    type V = AccountOverrideView;

    closed spec fn view(&self) -> AccountOverrideView {
        AccountOverrideView {
            balance: self.balance,
            nonce: self.nonce,
            code_hash: match self.code {
                Some(c) => Some(c.hash),
                None => None,
            },
            storage: self.storage@,
        }
    }
}

impl AccountOverride {
    /// An account with no overrides.
    pub fn new() -> (r: AccountOverride)
        ensures
            r@ == AccountOverrideView::empty(),
    {
        AccountOverride { balance: None, nonce: None, code: None, storage: AssocMap::new() }
    }

    /// The balance override, if any.
    pub fn balance(&self) -> (r: Option<U256>)
        ensures
            r == self@.balance,
    {
        self.balance
    }

    /// The nonce override, if any.
    pub fn nonce(&self) -> (r: Option<u64>)
        ensures
            r == self@.nonce,
    {
        self.nonce
    }

    /// The hash of the overriding code, if any.
    pub fn code_hash(&self) -> (r: Option<B256>)
        ensures
            r == self@.code_hash,
    {
        match &self.code {
            Some(code) => Some(code.hash),
            None => None,
        }
    }

    /// The overridden storage slots.
    pub fn storage(&self) -> (r: &AssocMap<B256, U256>)
        ensures
            r@ == self@.storage,
    {
        &self.storage
    }
}

impl Default for AccountOverride {
    fn default() -> (r: AccountOverride)
        ensures
            r@ == AccountOverrideView::empty(),
    {
        AccountOverride::new()
    }
}

impl Duplicate for AccountOverride {
    fn duplicate(&self) -> (r: AccountOverride) {
        let code = match &self.code {
            Some(c) => Some(CodeOverride { hash: c.hash }),
            None => None,
        };
        AccountOverride {
            balance: self.balance,
            nonce: self.nonce,
            code,
            storage: self.storage.duplicate_map(),
        }
    }
}

/// The model of the local state: the overrides of each account, and overridden code by its
/// hash.
pub struct AnvilStateView {
    pub accounts: Map<Address, AccountOverrideView>,
    pub bytecodes: Map<B256, Seq<u8>>,
}

/// The overrides of `address` in `accounts`, or no overrides where it has none.
pub open spec fn account_or_empty(
    accounts: Map<Address, AccountOverrideView>,
    address: Address,
) -> AccountOverrideView {
    if accounts.contains_key(address) {
        accounts[address]
    } else {
        AccountOverrideView::empty()
    }
}

/// The local state after the balance override of `address` becomes `balance`.
pub open spec fn with_balance(s: AnvilStateView, address: Address, balance: U256) -> AnvilStateView {
    AnvilStateView {
        accounts: s.accounts.insert(
            address,
            AccountOverrideView { balance: Some(balance), ..account_or_empty(s.accounts, address) },
        ),
        bytecodes: s.bytecodes,
    }
}

/// The local state after the nonce override of `address` becomes `nonce`.
pub open spec fn with_nonce(s: AnvilStateView, address: Address, nonce: u64) -> AnvilStateView {
    AnvilStateView {
        accounts: s.accounts.insert(
            address,
            AccountOverrideView { nonce: Some(nonce), ..account_or_empty(s.accounts, address) },
        ),
        bytecodes: s.bytecodes,
    }
}

/// The local state after the code of `address` becomes `code`: the account's code hash is
/// the keccak-256 hash of the code, and non-empty code is kept under that hash.
pub open spec fn with_code(s: AnvilStateView, address: Address, code: Seq<u8>) -> AnvilStateView {
    AnvilStateView {
        accounts: s.accounts.insert(
            address,
            AccountOverrideView {
                code_hash: Some(spec_keccak256(code)),
                ..account_or_empty(s.accounts, address)
            },
        ),
        bytecodes: if code.len() == 0 {
            s.bytecodes
        } else {
            s.bytecodes.insert(spec_keccak256(code), code)
        },
    }
}

/// The local state after storage slot `slot` of `address` becomes `value`.
pub open spec fn with_storage(
    s: AnvilStateView,
    address: Address,
    slot: B256,
    value: U256,
) -> AnvilStateView {
    AnvilStateView {
        accounts: s.accounts.insert(
            address,
            AccountOverrideView {
                storage: account_or_empty(s.accounts, address).storage.insert(slot, value),
                ..account_or_empty(s.accounts, address)
            },
        ),
        bytecodes: s.bytecodes,
    }
}

/// Every kept code is kept under its own hash, and the code override of every account is the
/// hash of the empty code or the hash of kept code, so that its code can be found.
pub open spec fn code_consistent(s: AnvilStateView) -> bool {
    &&& forall|h: B256| #[trigger]
        s.bytecodes.contains_key(h) ==> spec_keccak256(s.bytecodes[h]) == h
    &&& forall|a: Address| #[trigger]
        s.accounts.contains_key(a) && s.accounts[a].code_hash is Some ==> {
            let h = s.accounts[a].code_hash.unwrap();
            h == spec_keccak256(Seq::<u8>::empty()) || s.bytecodes.contains_key(h)
        }
}

/// The locally owned state that the node lays over the chain state.
pub struct AnvilState {
    accounts: AssocMap<Address, AccountOverride>,
    bytecodes: AssocMap<B256, Vec<u8>>,
}

impl View for AnvilState {
    type V = AnvilStateView;

    closed spec fn view(&self) -> AnvilStateView {
        AnvilStateView { accounts: self.accounts@, bytecodes: self.bytecodes@ }
    }
}

impl AnvilState {
    #[verifier::type_invariant]
    spec fn inv(&self) -> bool {
        code_consistent(self@)
    }

    /// A state without overrides.
    pub fn new() -> (r: AnvilState)
        ensures
            r@.accounts == Map::<Address, AccountOverrideView>::empty(),
            r@.bytecodes == Map::<B256, Seq<u8>>::empty(),
    {
        AnvilState { accounts: AssocMap::new(), bytecodes: AssocMap::new() }
    }

    /// Takes the overrides of `address` out of `accounts`, or no overrides where it has none.
    fn take_account(
        accounts: &mut AssocMap<Address, AccountOverride>,
        address: &Address,
    ) -> (r: AccountOverride)
        ensures
            r@ == account_or_empty(old(accounts)@, *address),
            final(accounts)@ == old(accounts)@.remove(*address),
    {
        match accounts.remove(address) {
            Some(account) => account,
            None => AccountOverride::new(),
        }
    }

    /// Moves the account overrides out, leaving none in their place.
    fn take_accounts(&mut self) -> (r: AssocMap<Address, AccountOverride>)
        ensures
            r@ == old(self)@.accounts,
            final(self)@.accounts == Map::<Address, AccountOverrideView>::empty(),
            final(self)@.bytecodes == old(self)@.bytecodes,
    {
        proof {
            use_type_invariant(&*self);
        }
        let mut accounts = AssocMap::new();
        assert(forall|a: Address| !accounts@.contains_key(a));
        let ghost t = AnvilStateView { accounts: accounts@, bytecodes: self.bytecodes@ };
        assert(t.bytecodes == self@.bytecodes);
        assert(forall|h: B256| #[trigger]
            t.bytecodes.contains_key(h) ==> spec_keccak256(t.bytecodes[h]) == h);
        assert(code_consistent(t));
        std::mem::swap(&mut accounts, &mut self.accounts);
        accounts
    }

    /// Overrides the balance of `address`.
    pub fn set_balance(&mut self, address: Address, balance: U256)
        ensures
            final(self)@ == with_balance(old(self)@, address, balance),
    {
        proof {
            use_type_invariant(&*self);
        }
        let mut accounts = self.take_accounts();
        let mut account = AnvilState::take_account(&mut accounts, &address);
        account.balance = Some(balance);
        accounts.insert(address, account);
        assert(accounts@ =~= with_balance(old(self)@, address, balance).accounts);
        self.accounts = accounts;
    }

    /// Overrides the nonce of `address`.
    pub fn set_nonce(&mut self, address: Address, nonce: u64)
        ensures
            final(self)@ == with_nonce(old(self)@, address, nonce),
    {
        proof {
            use_type_invariant(&*self);
        }
        let mut accounts = self.take_accounts();
        let mut account = AnvilState::take_account(&mut accounts, &address);
        account.nonce = Some(nonce);
        accounts.insert(address, account);
        assert(accounts@ =~= with_nonce(old(self)@, address, nonce).accounts);
        self.accounts = accounts;
    }

    /// Overrides the code of `address`. Empty code is recorded by the hash of the empty
    /// string; other code is also kept by its hash, so that it can be looked up.
    pub fn set_code(&mut self, address: Address, code: Vec<u8>)
        ensures
            final(self)@ == with_code(old(self)@, address, code@),
    {
        proof {
            use_type_invariant(&*self);
        }
        let ghost code_view = code@;
        let mut accounts = self.take_accounts();
        let hash = if code.len() == 0 {
            assert(code_view =~= Seq::<u8>::empty());
            keccak_empty_hash()
        } else {
            let hash = keccak256_of(code.as_slice());
            let mut bytecodes = AssocMap::new();
            std::mem::swap(&mut bytecodes, &mut self.bytecodes);
            bytecodes.insert(hash, code);
            self.bytecodes = bytecodes;
            hash
        };
        let mut account = AnvilState::take_account(&mut accounts, &address);
        account.code = Some(CodeOverride { hash });
        accounts.insert(address, account);
        assert(accounts@ =~= with_code(old(self)@, address, code_view).accounts);
        self.accounts = accounts;
    }

    /// Overrides one storage slot of `address`.
    pub fn set_storage_at(&mut self, address: Address, slot: B256, value: U256)
        ensures
            final(self)@ == with_storage(old(self)@, address, slot, value),
    {
        proof {
            use_type_invariant(&*self);
        }
        let mut accounts = self.take_accounts();
        let mut account = AnvilState::take_account(&mut accounts, &address);
        account.storage.insert(slot, value);
        accounts.insert(address, account);
        assert(accounts@ =~= with_storage(old(self)@, address, slot, value).accounts);
        self.accounts = accounts;
    }

    /// The overrides of `address`, if it has any.
    pub fn account(&self, address: &Address) -> (r: Option<&AccountOverride>)
        ensures
            r is Some <==> self@.accounts.contains_key(*address),
            r matches Some(a) ==> a@ == self@.accounts[*address],
    {
        self.accounts.get(address)
    }

    /// Every account with overrides, once each.
    pub fn addresses(&self) -> (r: Vec<Address>)
        ensures
            r@.no_duplicates(),
            r@.to_set() == self@.accounts.dom(),
    {
        self.accounts.keys()
    }

    /// Every account with overrides, once each, with a copy of its overrides.
    pub fn accounts(&self) -> (r: Vec<(Address, AccountOverride)>)
        ensures
            r@.len() == self@.accounts.dom().len(),
            forall|i: int, j: int| 0 <= i < j < r@.len() ==> r@[i].0 != r@[j].0,
            forall|i: int|
                0 <= i < r@.len() ==> #[trigger] self@.accounts.contains_key(r@[i].0)
                    && r@[i].1@ == self@.accounts[r@[i].0],
            forall|a: Address|
                self@.accounts.contains_key(a) ==> exists|i: int|
                    0 <= i < r@.len() && #[trigger] r@[i].0 == a,
    {
        let keys = self.accounts.keys();
        let n = self.accounts.len();
        let mut r: Vec<(Address, AccountOverride)> = Vec::new();
        let mut i: usize = 0;
        while i < n
            invariant
                0 <= i <= n,
                n == self.accounts.spec_len(),
                n == self@.accounts.dom().len(),
                keys@ == self.accounts.key_seq(),
                keys@.no_duplicates(),
                keys@.to_set() == self@.accounts.dom(),
                r@.len() == i,
                forall|j: int|
                    0 <= j < i ==> #[trigger] r@[j].0 == keys@[j] && self@.accounts.contains_key(
                        r@[j].0,
                    ) && r@[j].1@ == self@.accounts[r@[j].0],
            decreases n - i,
        {
            let (k, v) = self.accounts.entry_at(i);
            r.push((*k, v.duplicate()));
            i = i + 1;
        }
        proof {
            assert forall|a: Address| self@.accounts.contains_key(a) implies exists|j: int|
                0 <= j < r@.len() && #[trigger] r@[j].0 == a by {
                assert(keys@.to_set().contains(a));
                let j = choose|j: int| 0 <= j < keys@.len() && keys@[j] == a;
                assert(r@[j].0 == a);
            }
        }
        r
    }

    /// The overriding code whose hash is `code_hash`, if any.
    pub fn bytecode_by_hash(&self, code_hash: &B256) -> (r: Option<&Vec<u8>>)
        ensures
            r is Some <==> self@.bytecodes.contains_key(*code_hash),
            r matches Some(c) ==> c@ == self@.bytecodes[*code_hash],
    {
        self.bytecodes.get(code_hash)
    }

    /// The overridden value of storage slot `slot` of `address`, if any.
    pub fn storage(&self, address: &Address, slot: &B256) -> (r: Option<U256>)
        ensures
            r is Some <==> self@.accounts.contains_key(*address)
                && self@.accounts[*address].storage.contains_key(*slot),
            r matches Some(v) ==> v == self@.accounts[*address].storage[*slot],
    {
        match self.accounts.get(address) {
            Some(account) => match account.storage.get(slot) {
                Some(v) => Some(*v),
                None => None,
            },
            None => None,
        }
    }
}

impl Default for AnvilState {
    fn default() -> (r: AnvilState)
        ensures
            r@.accounts == Map::<Address, AccountOverrideView>::empty(),
            r@.bytecodes == Map::<B256, Seq<u8>>::empty(),
    {
        AnvilState::new()
    }
}

impl Duplicate for AnvilState {
    fn duplicate(&self) -> (r: AnvilState) {
        proof {
            use_type_invariant(self);
        }
        AnvilState {
            accounts: self.accounts.duplicate_map(),
            bytecodes: self.bytecodes.duplicate_map(),
        }
    }
}

} // verus!

verus! {

/// A balance, nonce, code or storage write reads back from the account it was made to, keeps
/// that account's other overrides, and leaves every other account as it was.
pub proof fn law_read_after_write(
    s: AnvilStateView,
    a: Address,
    other: Address,
    balance: U256,
    nonce: u64,
    code: Seq<u8>,
    slot: B256,
    value: U256,
)
    requires
        other != a,
    ensures
        with_balance(s, a, balance).accounts[a] == (AccountOverrideView {
            balance: Some(balance),
            ..account_or_empty(s.accounts, a)
        }),
        with_nonce(s, a, nonce).accounts[a] == (AccountOverrideView {
            nonce: Some(nonce),
            ..account_or_empty(s.accounts, a)
        }),
        with_code(s, a, code).accounts[a].code_hash == Some(spec_keccak256(code)),
        code.len() > 0 ==> with_code(s, a, code).bytecodes[spec_keccak256(code)] == code,
        with_storage(s, a, slot, value).accounts[a].storage[slot] == value,
        with_storage(s, a, slot, value).accounts[a].storage.remove(slot) == account_or_empty(
            s.accounts,
            a,
        ).storage.remove(slot),
        account_or_empty(with_balance(s, a, balance).accounts, other) == account_or_empty(
            s.accounts,
            other,
        ),
        account_or_empty(with_nonce(s, a, nonce).accounts, other) == account_or_empty(
            s.accounts,
            other,
        ),
        account_or_empty(with_code(s, a, code).accounts, other) == account_or_empty(
            s.accounts,
            other,
        ),
        account_or_empty(with_storage(s, a, slot, value).accounts, other) == account_or_empty(
            s.accounts,
            other,
        ),
{
    assert(with_storage(s, a, slot, value).accounts[a].storage.remove(slot) =~= account_or_empty(
        s.accounts,
        a,
    ).storage.remove(slot));
}

/// Every write keeps the code of every account findable by its code hash.
pub proof fn law_writes_keep_code_consistent(
    s: AnvilStateView,
    a: Address,
    balance: U256,
    nonce: u64,
    code: Seq<u8>,
    slot: B256,
    value: U256,
)
    requires
        code_consistent(s),
    ensures
        code_consistent(with_balance(s, a, balance)),
        code_consistent(with_nonce(s, a, nonce)),
        code_consistent(with_code(s, a, code)),
        code_consistent(with_storage(s, a, slot, value)),
{
    assert(code.len() == 0 ==> code =~= Seq::<u8>::empty());
}

} // verus!
