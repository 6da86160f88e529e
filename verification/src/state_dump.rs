//! State dumps: the chain's accounts merged with the local overrides, and loading a dump back
//! into the local overrides.
use vstd::prelude::*;
use crate::assoc::{AssocMap, Duplicate};
use crate::primitives::{keccak_empty_hash, spec_keccak256, Address, B256, U256};
use crate::state::{
    account_or_empty, code_consistent, AccountOverride, AccountOverrideView, AnvilState,
    AnvilStateView,
};

verus! {

/// The 32 big-endian bytes of a number.
pub open spec fn word_bytes(v: U256) -> B256 {
    B256 { high: v.high, low: v.low }
}

/// The number whose 32 big-endian bytes these are.
pub open spec fn word_value(b: B256) -> U256 {
    U256 { high: b.high, low: b.low }
}

/// The model of one account in a dump.
pub struct RecordView {
    pub nonce: u64,
    pub balance: U256,
    pub code: Seq<u8>,
    pub storage: Map<B256, B256>,
}

/// An account that has no entry in a dump yet.
pub open spec fn empty_record() -> RecordView {
    RecordView {
        nonce: 0,
        balance: U256 { high: 0, low: 0 },
        code: Seq::empty(),
        storage: Map::empty(),
    }
}

/// One account in a state dump.
pub struct SerializableAccountRecord {
    pub nonce: u64,
    pub balance: U256,
    pub code: Vec<u8>,
    pub storage: AssocMap<B256, B256>,
}

impl View for SerializableAccountRecord {
    type V = RecordView;

    open spec fn view(&self) -> RecordView {
        RecordView {
            nonce: self.nonce,
            balance: self.balance,
            code: self.code@,
            storage: self.storage@,
        }
    }
}

impl SerializableAccountRecord {
    /// An account with nonce zero, balance zero, no code and no storage.
    pub fn new() -> (r: SerializableAccountRecord)
        ensures
            r@ == empty_record(),
    {
        let r = SerializableAccountRecord {
            nonce: 0,
            balance: U256::zero(),
            code: Vec::new(),
            storage: AssocMap::new(),
        };
        assert(r@.code =~= Seq::<u8>::empty());
        r
    }
}

impl Default for SerializableAccountRecord {
    fn default() -> (r: SerializableAccountRecord)
        ensures
            r@ == empty_record(),
    {
        SerializableAccountRecord::new()
    }
}

/// The model of an account that the chain's state dump yields.
pub struct DumpedAccountView {
    pub address: Address,
    pub nonce: u64,
    pub balance: U256,
    pub code: Option<Seq<u8>>,
    pub storage: Map<B256, B256>,
}

/// An account as the chain's state dump yields it.
pub struct DumpedAccount {
    pub address: Address,
    pub nonce: u64,
    pub balance: U256,
    pub code: Option<Vec<u8>>,
    pub storage: AssocMap<B256, B256>,
}

impl View for DumpedAccount {
    type V = DumpedAccountView;

    open spec fn view(&self) -> DumpedAccountView {
        DumpedAccountView {
            address: self.address,
            nonce: self.nonce,
            balance: self.balance,
            code: match &self.code {
                Some(c) => Some(c@),
                None => None,
            },
            storage: self.storage@,
        }
    }
}

/// The dump record of an account that the chain's dump yields; no code is empty code.
pub open spec fn record_of_dumped(a: DumpedAccountView) -> RecordView {
    RecordView {
        nonce: a.nonce,
        balance: a.balance,
        code: match a.code {
            Some(c) => c,
            None => Seq::empty(),
        },
        storage: a.storage,
    }
}

impl SerializableAccountRecord {
    /// The record of an account that the chain's dump yields.
    pub fn from_dumped(account: &DumpedAccount) -> (r: SerializableAccountRecord)
        ensures
            r@ == record_of_dumped(account@),
    {
        let code = match &account.code {
            Some(c) => c.duplicate(),
            None => Vec::new(),
        };
        let r = SerializableAccountRecord {
            nonce: account.nonce,
            balance: account.balance,
            code,
            storage: account.storage.duplicate_map(),
        };
        assert(r@.code =~= record_of_dumped(account@).code);
        r
    }
}

/// The accounts of a chain dump by address; a later entry for an address replaces an earlier
/// one.
pub open spec fn dumped_accounts(s: Seq<DumpedAccountView>) -> Map<Address, RecordView>
    decreases s.len(),
{
    if s.len() == 0 {
        Map::empty()
    } else {
        dumped_accounts(s.drop_last()).insert(s.last().address, record_of_dumped(s.last()))
    }
}

/// The dump record of an account with overrides `ov`, where `rec` is what the dump held: the
/// overridden nonce, balance and code replace the dump's; overridden code is found by its hash
/// among `bytecodes`, the empty-code hash and an unknown hash giving empty code; overridden
/// storage slots replace the dump's.
pub open spec fn merged_record(
    rec: RecordView,
    ov: AccountOverrideView,
    bytecodes: Map<B256, Seq<u8>>,
) -> RecordView {
    RecordView {
        nonce: match ov.nonce {
            Some(n) => n,
            None => rec.nonce,
        },
        balance: match ov.balance {
            Some(b) => b,
            None => rec.balance,
        },
        code: match ov.code_hash {
            Some(h) => if h == spec_keccak256(Seq::<u8>::empty()) {
                Seq::empty()
            } else if bytecodes.contains_key(h) {
                bytecodes[h]
            } else {
                Seq::empty()
            },
            None => rec.code,
        },
        storage: rec.storage.union_prefer_right(ov.storage.map_values(|v: U256| word_bytes(v))),
    }
}

/// The record of `address` in `d`, or an empty record where it has none.
pub open spec fn record_or_empty(d: Map<Address, RecordView>, address: Address) -> RecordView {
    if d.contains_key(address) {
        d[address]
    } else {
        empty_record()
    }
}

/// A dump's accounts with the overrides of `s` merged in.
pub open spec fn merged_accounts(
    d: Map<Address, RecordView>,
    s: AnvilStateView,
) -> Map<Address, RecordView> {
    Map::new(
        |a: Address| d.contains_key(a) || s.accounts.contains_key(a),
        |a: Address|
            if s.accounts.contains_key(a) {
                merged_record(record_or_empty(d, a), s.accounts[a], s.bytecodes)
            } else {
                d[a]
            },
    )
}

/// The model of a state dump.
pub struct StateDumpView {
    pub accounts: Map<Address, RecordView>,
    pub best_block_number: Option<u64>,
}

/// A state dump: every account of the chain, with the local overrides merged in, and the
/// number of the best block.
pub struct SerializableState {
    pub accounts: AssocMap<Address, SerializableAccountRecord>,
    pub best_block_number: Option<u64>,
}

impl View for SerializableState {
    type V = StateDumpView;

    open spec fn view(&self) -> StateDumpView {
        StateDumpView { accounts: self.accounts@, best_block_number: self.best_block_number }
    }
}

impl SerializableState {
    /// An empty dump.
    pub fn new() -> (r: SerializableState)
        ensures
            r@.accounts == Map::<Address, RecordView>::empty(),
            r@.best_block_number is None,
    {
        SerializableState { accounts: AssocMap::new(), best_block_number: None }
    }

    /// The dump of the chain's accounts, as its state dump yields them, at best block
    /// `best_block_number`.
    pub fn from_dump(dump: &Vec<DumpedAccount>, best_block_number: Option<u64>) -> (r:
        SerializableState)
        ensures
            r@.accounts == dumped_accounts(dump@.map_values(|a: DumpedAccount| a@)),
            r@.best_block_number == best_block_number,
    {
        let ghost views = dump@.map_values(|a: DumpedAccount| a@);
        let mut accounts: AssocMap<Address, SerializableAccountRecord> = AssocMap::new();
        let mut i: usize = 0;
        while i < dump.len()
            invariant
                0 <= i <= dump@.len(),
                views == dump@.map_values(|a: DumpedAccount| a@),
                accounts@ == dumped_accounts(views.take(i as int)),
            decreases dump@.len() - i,
        {
            let account = &dump[i];
            let record = SerializableAccountRecord::from_dumped(account);
            accounts.insert(account.address, record);
            i = i + 1;
            proof {
                assert(views.take(i as int).drop_last() =~= views.take(i - 1));
            }
        }
        assert(views.take(dump@.len() as int) =~= views);
        SerializableState { accounts, best_block_number }
    }

    /// Merges the local overrides of `anvil_state` into the dump.
    pub fn merge_anvil_state(&mut self, anvil_state: &AnvilState)
        ensures
            final(self)@.accounts == merged_accounts(old(self)@.accounts, anvil_state@),
            final(self)@.best_block_number == old(self)@.best_block_number,
    {
        let addresses = anvil_state.addresses();
        let ghost d = self@.accounts;
        let ghost s = anvil_state@;
        let mut i: usize = 0;
        while i < addresses.len()
            invariant
                0 <= i <= addresses@.len(),
                d == old(self)@.accounts,
                s == anvil_state@,
                self@.best_block_number == old(self)@.best_block_number,
                addresses@.no_duplicates(),
                addresses@.to_set() == s.accounts.dom(),
                self@.accounts == Map::new(
                    |a: Address| d.contains_key(a) || listed_before(addresses@, i as int, a),
                    |a: Address|
                        if listed_before(addresses@, i as int, a) {
                            merged_record(record_or_empty(d, a), s.accounts[a], s.bytecodes)
                        } else {
                            d[a]
                        },
                ),
            decreases addresses@.len() - i,
        {
            let address = addresses[i];
            let ghost m_old = self@.accounts;
            let mut record = match self.accounts.remove(&address) {
                Some(r) => r,
                None => SerializableAccountRecord::new(),
            };
            proof {
                assert(!listed_before(addresses@, i as int, address)) by {
                    if listed_before(addresses@, i as int, address) {
                        let k = choose|k: int| 0 <= k < i && addresses@[k] == address;
                        assert(addresses@[k] != addresses@[i as int]);
                    }
                }
                assert(record@ == record_or_empty(d, address));
                assert(addresses@.to_set().contains(address));
            }
            match anvil_state.account(&address) {
                Some(account) => {
                    merge_account(&mut record, account, anvil_state);
                },
                None => {},
            }
            self.accounts.insert(address, record);
            i = i + 1;
            proof {
                assert forall|a: Address| #[trigger]
                    listed_before(addresses@, i as int, a) <==> (listed_before(addresses@, i - 1, a)
                        || a == address) by {
                    if a == address {
                        assert(addresses@[i - 1] == a);
                    }
                    if listed_before(addresses@, i - 1, a) {
                        let k = choose|k: int| 0 <= k < i - 1 && addresses@[k] == a;
                        assert(0 <= k < i && addresses@[k] == a);
                    }
                    if listed_before(addresses@, i as int, a) && a != address {
                        let k = choose|k: int| 0 <= k < i && addresses@[k] == a;
                        assert(k < i - 1);
                    }
                }
                let merged = merged_record(record_or_empty(d, address), s.accounts[address], s.bytecodes);
                assert(self@.accounts =~= m_old.insert(address, merged));
                let target = Map::new(
                    |a: Address| d.contains_key(a) || listed_before(addresses@, i as int, a),
                    |a: Address|
                        if listed_before(addresses@, i as int, a) {
                            merged_record(record_or_empty(d, a), s.accounts[a], s.bytecodes)
                        } else {
                            d[a]
                        },
                );
                assert forall|a: Address| #[trigger] target.contains_key(a) <==> m_old.insert(address, merged).contains_key(a) by {
                    assert(listed_before(addresses@, i as int, a) <==> (listed_before(addresses@, i - 1, a) || a == address));
                }
                assert forall|a: Address| #[trigger] target.contains_key(a) implies target[a] == m_old.insert(address, merged)[a] by {
                    assert(listed_before(addresses@, i as int, a) <==> (listed_before(addresses@, i - 1, a) || a == address));
                }
                assert(target =~= m_old.insert(address, merged));
            }
        }
        proof {
            assert forall|a: Address| #[trigger]
                listed_before(addresses@, addresses@.len() as int, a) <==> s.accounts.contains_key(
                    a,
                ) by {
                assert(addresses@.to_set().contains(a) == addresses@.contains(a));
                if listed_before(addresses@, addresses@.len() as int, a) {
                    let k = choose|k: int| 0 <= k < addresses@.len() && addresses@[k] == a;
                    assert(addresses@.contains(a));
                }
                if addresses@.contains(a) {
                    let k = choose|k: int| 0 <= k < addresses@.len() && addresses@[k] == a;
                    assert(listed_before(addresses@, addresses@.len() as int, a));
                }
            }
            assert(self@.accounts =~= merged_accounts(d, s));
        }
    }
}

/// Merges the overrides `account` into the dump record `record`, finding overridden code among
/// the code kept by `anvil_state`.
fn merge_account(
    record: &mut SerializableAccountRecord,
    account: &AccountOverride,
    anvil_state: &AnvilState,
)
    ensures
        final(record)@ == merged_record(old(record)@, account@, anvil_state@.bytecodes),
{
    let ghost rec0 = old(record)@;
    let ghost ov = account@;
    match account.balance() {
        Some(b) => {
            record.balance = b;
        },
        None => {},
    }
    match account.nonce() {
        Some(n) => {
            record.nonce = n;
        },
        None => {},
    }
    match account.code_hash() {
        Some(h) => {
            let empty_hash = keccak_empty_hash();
            record.code = if h == empty_hash {
                Vec::new()
            } else {
                match anvil_state.bytecode_by_hash(&h) {
                    Some(c) => c.duplicate(),
                    None => Vec::new(),
                }
            };
        },
        None => {},
    }
    let slots = account.storage();
    let keys = slots.keys();
    let mut j: usize = 0;
    while j < keys.len()
        invariant
            0 <= j <= keys@.len(),
            keys@.to_set() == ov.storage.dom(),
            slots@ == ov.storage,
            record@.storage == rec0.storage.union_prefer_right(
                Map::new(
                    |k: B256| keys@.take(j as int).contains(k),
                    |k: B256| word_bytes(ov.storage[k]),
                ),
            ),
            record@.nonce == (match ov.nonce {
                Some(n) => n,
                None => rec0.nonce,
            }),
            record@.balance == (match ov.balance {
                Some(b) => b,
                None => rec0.balance,
            }),
            record@.code == merged_record(rec0, ov, anvil_state@.bytecodes).code,
        decreases keys@.len() - j,
    {
        let slot = keys[j];
        let value = match slots.get(&slot) {
            Some(v) => *v,
            None => U256::zero(),
        };
        proof {
            assert(keys@.to_set().contains(slot));
        }
        record.storage.insert(slot, value.to_b256());
        j = j + 1;
        proof {
            let pre = keys@.take(j - 1);
            let post = keys@.take(j as int);
            assert(post =~= pre.push(slot));
            assert forall|k: B256| #[trigger]
                post.contains(k) <==> (pre.contains(k) || k == slot) by {
                if post.contains(k) {
                    let x = choose|x: int| 0 <= x < post.len() && post[x] == k;
                    if x < j - 1 {
                        assert(pre[x] == k);
                    }
                }
                if pre.contains(k) {
                    let x = choose|x: int| 0 <= x < pre.len() && pre[x] == k;
                    assert(post[x] == k);
                }
                if k == slot {
                    assert(post[j - 1] == k);
                }
            }
            assert(record@.storage =~= rec0.storage.union_prefer_right(
                Map::new(|k: B256| post.contains(k), |k: B256| word_bytes(ov.storage[k])),
            ));
        }
    }
    proof {
        assert(keys@.take(keys@.len() as int) =~= keys@);
        assert forall|k: B256| keys@.contains(k) <==> ov.storage.dom().contains(k) by {
            assert(keys@.to_set().contains(k) == keys@.contains(k));
        }
        assert(Map::new(
            |k: B256| keys@.take(keys@.len() as int).contains(k),
            |k: B256| word_bytes(ov.storage[k]),
        ) =~= ov.storage.map_values(|v: U256| word_bytes(v)));
        assert(record@ == merged_record(rec0, ov, anvil_state@.bytecodes));
    }
}

/// Whether `a` is the address of one of the first `n` entries.
spec fn listed_before(addresses: Seq<Address>, n: int, a: Address) -> bool {
    exists|k: int| 0 <= k < n && addresses[k] == a
}

/// The nonce of `address` in the local state, where it overrides one, else `base`.
pub open spec fn nonce_or(s: AnvilStateView, address: Address, base: u64) -> u64 {
    match account_or_empty(s.accounts, address).nonce {
        Some(n) => n,
        None => base,
    }
}

/// The local state after the dump record `rec` of `address` was loaded into `s`, where `base`
/// is the chain's nonce of `address`: its balance, code and storage slots become the
/// record's, and its nonce the larger of the record's and the current one.
pub open spec fn loaded_account(
    s: AnvilStateView,
    address: Address,
    rec: RecordView,
    base: u64,
) -> AnvilStateView {
    let nonce = if nonce_or(s, address, base) >= rec.nonce {
        nonce_or(s, address, base)
    } else {
        rec.nonce
    };
    AnvilStateView {
        accounts: s.accounts.insert(
            address,
            AccountOverrideView {
                balance: Some(rec.balance),
                nonce: Some(nonce),
                code_hash: Some(spec_keccak256(rec.code)),
                storage: account_or_empty(s.accounts, address).storage.union_prefer_right(
                    rec.storage.map_values(|b: B256| word_value(b)),
                ),
            },
        ),
        bytecodes: if rec.code.len() == 0 {
            s.bytecodes
        } else {
            s.bytecodes.insert(spec_keccak256(rec.code), rec.code)
        },
    }
}

/// Loads the dump record `record` of `address` into the local state, where `base_nonce` is the
/// chain's nonce of `address`.
pub fn load_account(
    state: &mut AnvilState,
    address: Address,
    record: &SerializableAccountRecord,
    base_nonce: u64,
)
    ensures
        final(state)@ == loaded_account(old(state)@, address, record@, base_nonce),
{
    let current = match state.account(&address) {
        Some(account) => match account.nonce() {
            Some(n) => n,
            None => base_nonce,
        },
        None => base_nonce,
    };
    let nonce = if current >= record.nonce {
        current
    } else {
        record.nonce
    };
    state.set_balance(address, record.balance);
    state.set_nonce(address, nonce);
    state.set_code(address, record.code.duplicate());
    let ghost s1 = state@;
    let ghost base_storage = account_or_empty(old(state)@.accounts, address).storage;
    assert(account_or_empty(s1.accounts, address).storage == base_storage);
    assert(s1.accounts.contains_key(address));
    assert(Map::new(|k: B256| Seq::<B256>::empty().contains(k), |k: B256| word_value(record@.storage[k])) =~= Map::<B256, U256>::empty());
    assert(base_storage.union_prefer_right(Map::<B256, U256>::empty()) =~= base_storage);
    assert(s1.accounts[address].storage == base_storage);
    assert((AccountOverrideView { storage: base_storage, ..s1.accounts[address] })
        == s1.accounts[address]);
    assert(s1.accounts.insert(address, s1.accounts[address]) =~= s1.accounts);
    let keys = record.storage.keys();
    assert(keys@.take(0) =~= Seq::<B256>::empty());
    assert(Map::new(
        |k: B256| keys@.take(0).contains(k),
        |k: B256| word_value(record@.storage[k]),
    ) =~= Map::<B256, U256>::empty());
    let mut j: usize = 0;
    while j < keys.len()
        invariant
            0 <= j <= keys@.len(),
            keys@.to_set() == record@.storage.dom(),
            state@.bytecodes == s1.bytecodes,
            state@.accounts == s1.accounts.insert(
                address,
                AccountOverrideView {
                    storage: base_storage.union_prefer_right(
                        Map::new(
                            |k: B256| keys@.take(j as int).contains(k),
                            |k: B256| word_value(record@.storage[k]),
                        ),
                    ),
                    ..s1.accounts[address]
                },
            ),
        decreases keys@.len() - j,
    {
        let slot = keys[j];
        let value = match record.storage.get(&slot) {
            Some(v) => v.to_u256(),
            None => U256::zero(),
        };
        proof {
            assert(keys@.to_set().contains(slot));
        }
        let ghost before = state@;
        state.set_storage_at(address, slot, value);
        j = j + 1;
        proof {
            let pre = keys@.take(j - 1);
            let post = keys@.take(j as int);
            assert(post =~= pre.push(slot));
            assert forall|k: B256| #[trigger] post.contains(k) <==> (pre.contains(k) || k == slot) by {
                if post.contains(k) {
                    let x = choose|x: int| 0 <= x < post.len() && post[x] == k;
                    if x < j - 1 {
                        assert(pre[x] == k);
                    }
                }
                if pre.contains(k) {
                    let x = choose|x: int| 0 <= x < pre.len() && pre[x] == k;
                    assert(post[x] == k);
                }
                if k == slot {
                    assert(post[j - 1] == k);
                }
            }
            assert(state@.accounts[address].storage =~= base_storage.union_prefer_right(
                Map::new(|k: B256| post.contains(k), |k: B256| word_value(record@.storage[k])),
            ));
            assert(state@.accounts =~= s1.accounts.insert(
                address,
                AccountOverrideView {
                    storage: base_storage.union_prefer_right(
                        Map::new(|k: B256| post.contains(k), |k: B256| word_value(record@.storage[k])),
                    ),
                    ..s1.accounts[address]
                },
            ));
        }
    }
    proof {
        assert(keys@.take(keys@.len() as int) =~= keys@);
        assert forall|k: B256| keys@.contains(k) <==> record@.storage.dom().contains(k) by {
            assert(keys@.to_set().contains(k) == keys@.contains(k));
        }
        assert(Map::new(
            |k: B256| keys@.take(keys@.len() as int).contains(k),
            |k: B256| word_value(record@.storage[k]),
        ) =~= record@.storage.map_values(|b: B256| word_value(b)));
        assert(state@.accounts =~= loaded_account(old(state)@, address, record@, base_nonce).accounts);
    }
}

} // verus!

verus! {

/// Dumping and loading back gives the local overrides again. Where the overrides of `s` were
/// merged into a dump of the chain's accounts `d`, loading the record of an overridden account
/// into any state `target` gives that account its overridden balance and code hash exactly,
/// every overridden storage slot, and a nonce no smaller than the overridden one, equal to it
/// where `target` does not hold a larger one.
pub proof fn law_dump_then_load_restores_overrides(
    d: Map<Address, RecordView>,
    s: AnvilStateView,
    target: AnvilStateView,
    a: Address,
    base_nonce: u64,
)
    requires
        code_consistent(s),
        s.accounts.contains_key(a),
    ensures
        ({
            let rec = merged_accounts(d, s)[a];
            let loaded = loaded_account(target, a, rec, base_nonce);
            let ov = s.accounts[a];
            let acct = loaded.accounts[a];
            &&& ov.balance matches Some(b) ==> acct.balance == Some(b)
            &&& ov.code_hash matches Some(h) ==> acct.code_hash == Some(h)
            &&& ov.nonce matches Some(n) ==> acct.nonce matches Some(m) && m >= n && (nonce_or(
                target,
                a,
                base_nonce,
            ) <= n ==> m == n)
            &&& forall|slot: B256| #[trigger]
                ov.storage.contains_key(slot) ==> acct.storage.contains_key(slot)
                    && acct.storage[slot] == ov.storage[slot]
        }),
{
    let rec = merged_accounts(d, s)[a];
    let ov = s.accounts[a];
    match ov.code_hash {
        Some(h) => {
            if h != spec_keccak256(Seq::<u8>::empty()) {
                assert(s.bytecodes.contains_key(h));
            } else {
                assert(rec.code =~= Seq::<u8>::empty());
            }
        },
        None => {},
    }
}

/// Merging the local overrides into a dump changes only what is overridden. An account of the
/// dump without overrides keeps its record. For an overridden account, each overridden field
/// (balance, nonce) takes the overriding value and each other field keeps the dump's value (an
/// account the dump lacks starts from nonce 0, balance 0, no code, no storage); code is kept
/// unless a code override exists; an overridden storage slot takes the overriding word, and
/// every other slot of the dump stays as it was.
pub proof fn law_merge_changes_only_overridden_fields(
    d: Map<Address, RecordView>,
    s: AnvilStateView,
    a: Address,
    slot: B256,
)
    requires
        d.contains_key(a) || s.accounts.contains_key(a),
    ensures
        merged_accounts(d, s).contains_key(a),
        !s.accounts.contains_key(a) ==> merged_accounts(d, s)[a] == d[a],
        s.accounts.contains_key(a) ==> ({
            let ov = s.accounts[a];
            let before = if d.contains_key(a) {
                d[a]
            } else {
                RecordView {
                    nonce: 0,
                    balance: U256 { high: 0, low: 0 },
                    code: Seq::empty(),
                    storage: Map::empty(),
                }
            };
            let after = merged_accounts(d, s)[a];
            &&& ov.balance matches Some(b) ==> after.balance == b
            &&& ov.balance is None ==> after.balance == before.balance
            &&& ov.nonce matches Some(n) ==> after.nonce == n
            &&& ov.nonce is None ==> after.nonce == before.nonce
            &&& ov.code_hash is None ==> after.code == before.code
            &&& ov.storage.contains_key(slot) ==> after.storage.contains_key(slot)
                && after.storage[slot] == (B256 {
                high: ov.storage[slot].high,
                low: ov.storage[slot].low,
            })
            &&& !ov.storage.contains_key(slot) ==> (after.storage.contains_key(slot)
                == before.storage.contains_key(slot))
            &&& !ov.storage.contains_key(slot) && before.storage.contains_key(slot)
                ==> after.storage[slot] == before.storage[slot]
        }),
{
}

/// Loading a dump record never moves an account's nonce back: afterwards the nonce is the
/// larger of the nonce it had before (its override, else the chain's `base`) and the record's.
/// Balance and code become the record's, and every storage slot of the record takes the
/// record's value while other overridden slots stay.
pub proof fn law_load_nonce_is_the_larger(
    s: AnvilStateView,
    a: Address,
    rec: RecordView,
    base: u64,
    slot: B256,
)
    ensures
        ({
            let prior = match account_or_empty(s.accounts, a).nonce {
                Some(n) => n,
                None => base,
            };
            let acct = loaded_account(s, a, rec, base).accounts[a];
            &&& loaded_account(s, a, rec, base).accounts.contains_key(a)
            &&& acct.nonce matches Some(n) && n >= prior && n >= rec.nonce && (n == prior
                || n == rec.nonce)
            &&& acct.balance == Some(rec.balance)
            &&& acct.code_hash == Some(spec_keccak256(rec.code))
            &&& rec.storage.contains_key(slot) ==> acct.storage.contains_key(slot)
                && acct.storage[slot] == (U256 {
                high: rec.storage[slot].high,
                low: rec.storage[slot].low,
            })
            &&& !rec.storage.contains_key(slot) ==> (acct.storage.contains_key(slot)
                == account_or_empty(s.accounts, a).storage.contains_key(slot))
        }),
{
}

/// Loading a dump record keeps the code of every account findable by its code hash.
pub proof fn law_load_keeps_code_consistent(
    s: AnvilStateView,
    a: Address,
    rec: RecordView,
    base_nonce: u64,
)
    requires
        code_consistent(s),
    ensures
        code_consistent(loaded_account(s, a, rec, base_nonce)),
{
    assert(rec.code.len() == 0 ==> rec.code =~= Seq::<u8>::empty());
}

} // verus!

verus! {

#[verifier::external_type_specification]
#[verifier::external_body]
pub struct ExIoError(std::io::Error);

/// The gzip stream that `flate2` writes for `data` at the default compression level, with the
/// default header (no name, no comment, modification time zero): a function of `data` alone.
pub uninterp spec fn spec_gzip(data: Seq<u8>) -> Seq<u8>;

/// Whether `flate2` completes the gzip compression of `data` without an I/O error: a function
/// of `data` alone, since the input is read from memory.
pub uninterp spec fn spec_gzip_ok(data: Seq<u8>) -> bool;

/// Whether `flate2`'s gzip decoder reads the stream `data` to its end without an I/O error.
pub uninterp spec fn spec_gunzip_ok(data: Seq<u8>) -> bool;

/// Whether `flate2`'s gzip decoder reads a valid gzip header at the start of `data`.
pub uninterp spec fn spec_gzip_header(data: Seq<u8>) -> bool;

/// The bytes that `flate2`'s gzip decoder gives back for the gzip stream `data`.
pub uninterp spec fn spec_gunzip(data: Seq<u8>) -> Seq<u8>;

/// Reads `flate2::read::GzEncoder::new(data, flate2::Compression::default())` to its end with
/// `std::io::Read::read_to_end`. The contract claims: the read succeeds exactly where
/// compression of `data` does (a function of `data`, named); the bytes of a successful read
/// are the gzip stream of `data`; they open with the gzip identification bytes and the deflate
/// method (`0x1f 0x8b 0x08`, written by `GzBuilder`); `flate2`'s decoder reads their header,
/// reads them to the end without error, and decompresses them to `data`.
#[verifier::external_body]
fn gzip_compress(data: &[u8]) -> (r: Result<Vec<u8>, std::io::Error>)
    ensures
        r is Ok <==> spec_gzip_ok(data@),
        r matches Ok(v) ==> v@ == spec_gzip(data@),
        r matches Ok(v) ==> has_gzip_magic(v@) && spec_gzip_header(v@) && spec_gunzip_ok(v@)
            && spec_gunzip(v@) == data@,
{
    let mut encoder = flate2::read::GzEncoder::new(data, flate2::Compression::default());
    let mut out = Vec::new();
    std::io::Read::read_to_end(&mut encoder, &mut out).map(|_| out)
}

/// Calls `flate2::read::GzDecoder::new(data)`, which parses the gzip header at once; where
/// `GzDecoder::header` reports a valid header, reads the stream to its end with
/// `std::io::Read::read_to_end`, and otherwise returns `None`. The contract claims: `Some`
/// exactly where the header is valid, which needs the bytes `0x1f 0x8b 0x08` first (the header
/// parser refuses anything else); the read succeeds exactly where decoding `data` does (a
/// function of `data`, named), and then gives the decompressed bytes of `data`.
#[verifier::external_body]
fn gzip_decompress(data: &[u8]) -> (r: Option<Result<Vec<u8>, std::io::Error>>)
    ensures
        r is Some <==> spec_gzip_header(data@),
        r is Some ==> has_gzip_magic(data@),
        r matches Some(res) ==> (res is Ok <==> spec_gunzip_ok(data@)),
        r matches Some(Ok(v)) ==> v@ == spec_gunzip(data@),
{
    let mut decoder = flate2::read::GzDecoder::new(data);
    match decoder.header() {
        Some(_) => {},
        None => return None,
    }
    let mut out = Vec::new();
    Some(std::io::Read::read_to_end(&mut decoder, &mut out).map(|_| out))
}

/// Calls `std::string::ToString::to_string` on an I/O error: its message. Nothing is claimed
/// of it.
#[verifier::external_body]
fn io_error_text(error: &std::io::Error) -> String {
    error.to_string()
}

/// Gzip-compresses the serialized dump `json`; an error carries the message of the I/O error
/// that stopped the compression. A stream it returns decodes without error back to `json`.
pub fn encode_gzipped(json: &[u8]) -> (r: Result<Vec<u8>, String>)
    ensures
        r is Ok <==> spec_gzip_ok(json@),
        r matches Ok(v) ==> v@ == spec_gzip(json@),
        r matches Ok(v) ==> has_gzip_magic(v@) && spec_gzip_header(v@) && spec_gunzip_ok(v@)
            && spec_gunzip(v@) == json@,
{
    match gzip_compress(json) {
        Ok(bytes) => Ok(bytes),
        Err(e) => Err(io_error_text(&e)),
    }
}

/// Whether `buf` opens with the identification bytes and compression method of a gzip stream
/// (RFC 1952): `0x1f 0x8b 0x08`. A gzip header can be read only from such bytes.
pub open spec fn has_gzip_magic(buf: Seq<u8>) -> bool {
    buf.len() >= 3 && buf[0] == 0x1f && buf[1] == 0x8b && buf[2] == 0x08
}

/// The serialized dump held in `buf`: decompressed where `buf` starts with a gzip header, and
/// `buf` itself otherwise; an error carries the message of the I/O error that stopped the
/// decompression.
pub fn decode_gzipped(buf: &[u8]) -> (r: Result<Vec<u8>, String>)
    ensures
        spec_gzip_header(buf@) ==> (r is Ok <==> spec_gunzip_ok(buf@)),
        spec_gzip_header(buf@) ==> (r matches Ok(v) ==> v@ == spec_gunzip(buf@)),
        !spec_gzip_header(buf@) ==> (r matches Ok(v) && v@ == buf@),
        !has_gzip_magic(buf@) ==> (r matches Ok(v) && v@ == buf@),
{
    match gzip_decompress(buf) {
        Some(Ok(bytes)) => {
            return Ok(bytes);
        },
        Some(Err(e)) => {
            return Err(io_error_text(&e));
        },
        None => {},
    }
    let mut out: Vec<u8> = Vec::new();
    let mut i: usize = 0;
    while i < buf.len()
        invariant
            0 <= i <= buf@.len(),
            out@ == buf@.take(i as int),
        decreases buf@.len() - i,
    {
        out.push(buf[i]);
        i = i + 1;
        assert(out@ =~= buf@.take(i as int));
    }
    assert(out@ =~= buf@);
    Ok(out)
}

} // verus!
