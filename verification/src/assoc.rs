//! A finite map kept as a list of entries with distinct keys; its model is a `Map` from keys
//! to the models of the values.
use vstd::prelude::*;
use crate::primitives::KeyEq;

verus! {

/// Values that can be copied into a value with the same model.
pub trait Duplicate: View + Sized {
    /// A copy of `self` with the same model.
    fn duplicate(&self) -> (r: Self)
        ensures
            r@ == self@,
    ;
}

/// No key occurs twice among the entries.
pub open spec fn distinct_keys<K, V>(s: Seq<(K, V)>) -> bool {
    forall|i: int, j: int| 0 <= i < j < s.len() ==> #[trigger] s[i].0 != #[trigger] s[j].0
}

/// Whether some entry has key `k`.
pub open spec fn has_key<K, V>(s: Seq<(K, V)>, k: K) -> bool {
    exists|i: int| 0 <= i < s.len() && s[i].0 == k
}

/// The position of an entry with key `k`, where there is one.
pub open spec fn key_index<K, V>(s: Seq<(K, V)>, k: K) -> int {
    choose|i: int| 0 <= i < s.len() && s[i].0 == k
}

/// The map that a list of entries stands for.
pub open spec fn entries_model<K, V: View>(s: Seq<(K, V)>) -> Map<K, V::V> {
    Map::new(|k: K| has_key(s, k), |k: K| s[key_index(s, k)].1@)
}

/// The keys of a list of entries, in order.
pub open spec fn entry_keys<K, V>(s: Seq<(K, V)>) -> Seq<K> {
    s.map_values(|e: (K, V)| e.0)
}

proof fn lemma_key_index<K, V>(s: Seq<(K, V)>, i: int)
    requires
        distinct_keys(s),
        0 <= i < s.len(),
    ensures
        has_key(s, s[i].0),
        key_index(s, s[i].0) == i,
{
    let k = s[i].0;
    assert(has_key(s, k));
    let j = key_index(s, k);
    if j < i {
        assert(s[j].0 != s[i].0);
    } else if i < j {
        assert(s[i].0 != s[j].0);
    }
}

proof fn lemma_model_at<K, V: View>(s: Seq<(K, V)>, i: int)
    requires
        distinct_keys(s),
        0 <= i < s.len(),
    ensures
        entries_model(s).contains_key(s[i].0),
        entries_model(s)[s[i].0] == s[i].1@,
{
    lemma_key_index(s, i);
}

proof fn lemma_remove_entry<K, V: View>(s: Seq<(K, V)>, i: int)
    requires
        distinct_keys(s),
        0 <= i < s.len(),
    ensures
        distinct_keys(s.remove(i)),
        entries_model(s.remove(i)) == entries_model(s).remove(s[i].0),
        entry_keys(s.remove(i)) == entry_keys(s).remove(i),
{
    let t = s.remove(i);
    let k = s[i].0;
    assert forall|a: int, b: int| 0 <= a < b < t.len() implies #[trigger] t[a].0
        != #[trigger] t[b].0 by {
        let a0 = if a < i { a } else { a + 1 };
        let b0 = if b < i { b } else { b + 1 };
        assert(s[a0].0 != s[b0].0);
    }
    let m = entries_model(s).remove(k);
    assert forall|kk: K| #[trigger] entries_model(t).contains_key(kk) <==> m.contains_key(kk) by {
        if has_key(t, kk) {
            let j = key_index(t, kk);
            let j0 = if j < i { j } else { j + 1 };
            assert(s[j0].0 == kk);
            assert(has_key(s, kk));
            assert(s[i].0 != s[j0].0) by {
                if j0 < i {
                    assert(s[j0].0 != s[i].0);
                }
            }
        }
        if m.contains_key(kk) {
            let j0 = key_index(s, kk);
            assert(j0 != i);
            let j = if j0 < i { j0 } else { j0 - 1 };
            assert(t[j].0 == kk);
        }
    }
    assert forall|kk: K| #[trigger]
        entries_model(t).contains_key(kk) implies entries_model(t)[kk] == m[kk] by {
        let j = key_index(t, kk);
        lemma_key_index(t, j);
        let j0 = if j < i { j } else { j + 1 };
        lemma_key_index(s, j0);
    }
    assert(entries_model(t) =~= m);
    assert(entry_keys(t) =~= entry_keys(s).remove(i));
}

proof fn lemma_update_entry<K, V: View>(s: Seq<(K, V)>, i: int, v: V)
    requires
        distinct_keys(s),
        0 <= i < s.len(),
    ensures
        distinct_keys(s.update(i, (s[i].0, v))),
        entries_model(s.update(i, (s[i].0, v))) == entries_model(s).insert(s[i].0, v@),
        entry_keys(s.update(i, (s[i].0, v))) == entry_keys(s),
{
    let k = s[i].0;
    let t = s.update(i, (k, v));
    assert forall|a: int, b: int| 0 <= a < b < t.len() implies #[trigger] t[a].0
        != #[trigger] t[b].0 by {
        assert(s[a].0 != s[b].0);
    }
    let m = entries_model(s).insert(k, v@);
    assert forall|kk: K| #[trigger] entries_model(t).contains_key(kk) <==> m.contains_key(kk) by {
        if has_key(t, kk) {
            let j = key_index(t, kk);
            assert(s[j].0 == kk);
        }
        if m.contains_key(kk) {
            if kk == k {
                assert(t[i].0 == kk);
            } else {
                let j = key_index(s, kk);
                assert(t[j].0 == kk);
            }
        }
    }
    assert forall|kk: K| #[trigger]
        entries_model(t).contains_key(kk) implies entries_model(t)[kk] == m[kk] by {
        let j = key_index(t, kk);
        lemma_key_index(t, j);
        if j != i {
            lemma_key_index(s, j);
        }
    }
    assert(entries_model(t) =~= m);
    assert(entry_keys(t) =~= entry_keys(s));
}

proof fn lemma_push_entry<K, V: View>(s: Seq<(K, V)>, k: K, v: V)
    requires
        distinct_keys(s),
        !has_key(s, k),
    ensures
        distinct_keys(s.push((k, v))),
        entries_model(s.push((k, v))) == entries_model(s).insert(k, v@),
        entry_keys(s.push((k, v))) == entry_keys(s).push(k),
{
    let t = s.push((k, v));
    let n = s.len() as int;
    assert forall|a: int, b: int| 0 <= a < b < t.len() implies #[trigger] t[a].0
        != #[trigger] t[b].0 by {
        if b == n {
            assert(s[a].0 != k) by {
                if s[a].0 == k {
                    assert(has_key(s, k));
                }
            }
        } else {
            assert(s[a].0 != s[b].0);
        }
    }
    let m = entries_model(s).insert(k, v@);
    assert forall|kk: K| #[trigger] entries_model(t).contains_key(kk) <==> m.contains_key(kk) by {
        if has_key(t, kk) {
            let j = key_index(t, kk);
            if j != n {
                assert(s[j].0 == kk);
            }
        }
        if m.contains_key(kk) {
            if kk == k {
                assert(t[n].0 == kk);
            } else {
                let j = key_index(s, kk);
                assert(t[j].0 == kk);
            }
        }
    }
    assert forall|kk: K| #[trigger]
        entries_model(t).contains_key(kk) implies entries_model(t)[kk] == m[kk] by {
        let j = key_index(t, kk);
        lemma_key_index(t, j);
        if j != n {
            lemma_key_index(s, j);
        }
    }
    assert(entries_model(t) =~= m);
    assert(entry_keys(t) =~= entry_keys(s).push(k));
}

/// A finite map from keys to values, listed in the order in which keys were first inserted.
/// Keys are compared with `KeyEq`, whose result is proved to be equality of the key values, so
/// the map needs neither a hash nor an order on its keys (addresses, hashes and 256-bit words);
/// no key occurs twice.
#[verifier::reject_recursive_types(K)]
pub struct AssocMap<K, V> {
    entries: Vec<(K, V)>,
}

impl<K, V> AssocMap<K, V> {
    #[verifier::type_invariant]
    spec fn inv(&self) -> bool {
        distinct_keys(self.entries@)
    }

    /// The keys in entry order.
    pub closed spec fn key_seq(&self) -> Seq<K> {
        entry_keys(self.entries@)
    }

    /// The number of entries.
    pub closed spec fn spec_len(&self) -> nat {
        self.entries@.len()
    }
}

impl<K, V: View> View for AssocMap<K, V> {
    type V = Map<K, V::V>;

    closed spec fn view(&self) -> Map<K, V::V> {
        entries_model(self.entries@)
    }
}

impl<K: KeyEq + Copy, V: View> AssocMap<K, V> {
    /// The map without entries.
    pub fn new() -> (r: Self)
        ensures
            r@ == Map::<K, V::V>::empty(),
            r.key_seq() == Seq::<K>::empty(),
    {
        let r = AssocMap { entries: Vec::new() };
        assert(r@ =~= Map::<K, V::V>::empty());
        assert(r.key_seq() =~= Seq::<K>::empty());
        r
    }

    /// Facts about the key sequence that hold of every map.
    proof fn lemma_keys(&self)
        requires
            distinct_keys(self.entries@),
        ensures
            self.key_seq().len() == self.spec_len(),
            self.key_seq().no_duplicates(),
            self.key_seq().to_set() == self@.dom(),
            self@.dom().finite(),
            self@.dom().len() == self.spec_len(),
    {
        let s = self.entries@;
        let ks = self.key_seq();
        assert forall|i: int, j: int| 0 <= i < ks.len() && 0 <= j < ks.len() && i != j implies ks[i]
            != ks[j] by {
            if i < j {
                assert(s[i].0 != s[j].0);
            } else {
                assert(s[j].0 != s[i].0);
            }
        }
        assert forall|k: K| ks.to_set().contains(k) <==> self@.dom().contains(k) by {
            if ks.to_set().contains(k) {
                let i = choose|i: int| 0 <= i < ks.len() && ks[i] == k;
                assert(s[i].0 == k);
            }
            if self@.dom().contains(k) {
                let i = key_index(s, k);
                assert(ks[i] == k);
            }
        }
        assert(ks.to_set() =~= self@.dom());
        ks.unique_seq_to_set();
    }

    /// The number of entries, which is the number of keys.
    pub fn len(&self) -> (r: usize)
        ensures
            r == self.spec_len(),
            r == self@.dom().len(),
    {
        proof {
            use_type_invariant(self);
            self.lemma_keys();
        }
        self.entries.len()
    }

    /// The position of the entry for `k`, if any.
    fn position(&self, k: &K) -> (r: Option<usize>)
        ensures
            r is Some <==> self@.contains_key(*k),
            r matches Some(i) ==> i < self.entries@.len() && self.entries@[i as int].0 == *k,
    {
        let mut i: usize = 0;
        while i < self.entries.len()
            invariant
                0 <= i <= self.entries@.len(),
                forall|j: int| 0 <= j < i ==> self.entries@[j].0 != *k,
            decreases self.entries@.len() - i,
        {
            if self.entries[i].0.key_eq(k) {
                proof {
                    assert(has_key(self.entries@, *k));
                }
                return Some(i);
            }
            i = i + 1;
        }
        None
    }

    /// The value stored for `k`, if any.
    pub fn get(&self, k: &K) -> (r: Option<&V>)
        ensures
            r is Some <==> self@.contains_key(*k),
            r matches Some(v) ==> v@ == self@[*k],
    {
        proof {
            use_type_invariant(self);
        }
        match self.position(k) {
            Some(i) => {
                proof {
                    lemma_model_at(self.entries@, i as int);
                }
                Some(&self.entries[i].1)
            },
            None => None,
        }
    }

    /// Whether `k` has an entry.
    pub fn contains_key(&self, k: &K) -> (r: bool)
        ensures
            r == self@.contains_key(*k),
    {
        self.position(k).is_some()
    }

    /// The key and value of the `i`-th entry.
    pub fn entry_at(&self, i: usize) -> (r: (&K, &V))
        requires
            i < self.spec_len(),
        ensures
            *r.0 == self.key_seq()[i as int],
            self@.contains_key(*r.0),
            r.1@ == self@[*r.0],
    {
        proof {
            use_type_invariant(self);
            lemma_model_at(self.entries@, i as int);
        }
        let e = &self.entries[i];
        (&e.0, &e.1)
    }

    /// Removes the entry for `k`, returning its value if there was one.
    pub fn remove(&mut self, k: &K) -> (r: Option<V>)
        ensures
            final(self)@ == old(self)@.remove(*k),
            r is Some <==> old(self)@.contains_key(*k),
            r matches Some(v) ==> v@ == old(self)@[*k],
    {
        proof {
            use_type_invariant(&*self);
        }
        match self.position(k) {
            Some(i) => {
                let mut entries: Vec<(K, V)> = Vec::new();
                std::mem::swap(&mut entries, &mut self.entries);
                proof {
                    lemma_model_at(entries@, i as int);
                    lemma_remove_entry(entries@, i as int);
                }
                let (_, v) = entries.remove(i);
                self.entries = entries;
                Some(v)
            },
            None => {
                proof {
                    assert(self@ =~= self@.remove(*k));
                }
                None
            },
        }
    }

    /// Stores `v` for `k`, returning the value it replaces, if any. A new key goes last in
    /// the key order; a key already present keeps its place.
    pub fn insert(&mut self, k: K, v: V) -> (r: Option<V>)
        ensures
            final(self)@ == old(self)@.insert(k, v@),
            r is Some <==> old(self)@.contains_key(k),
            r matches Some(o) ==> o@ == old(self)@[k],
            final(self).key_seq() == if old(self)@.contains_key(k) {
                old(self).key_seq()
            } else {
                old(self).key_seq().push(k)
            },
    {
        proof {
            use_type_invariant(&*self);
        }
        let pos = self.position(&k);
        let mut entries: Vec<(K, V)> = Vec::new();
        std::mem::swap(&mut entries, &mut self.entries);
        let ghost s = entries@;
        match pos {
            Some(i) => {
                proof {
                    lemma_model_at(s, i as int);
                    lemma_update_entry(s, i as int, v);
                }
                let (_, o) = entries.remove(i);
                entries.insert(i, (k, v));
                assert(entries@ =~= s.update(i as int, (k, v)));
                self.entries = entries;
                Some(o)
            },
            None => {
                proof {
                    lemma_push_entry(s, k, v);
                }
                entries.push((k, v));
                self.entries = entries;
                None
            },
        }
    }

    /// The keys, in entry order.
    pub fn keys(&self) -> (r: Vec<K>)
        ensures
            r@ == self.key_seq(),
            r@.len() == self.spec_len(),
            r@.no_duplicates(),
            r@.to_set() == self@.dom(),
    {
        proof {
            use_type_invariant(self);
            self.lemma_keys();
        }
        let mut r: Vec<K> = Vec::new();
        let mut i: usize = 0;
        while i < self.entries.len()
            invariant
                0 <= i <= self.entries@.len(),
                r@ == self.key_seq().take(i as int),
            decreases self.entries@.len() - i,
        {
            r.push(self.entries[i].0);
            i = i + 1;
            assert(r@ =~= self.key_seq().take(i as int));
        }
        assert(r@ =~= self.key_seq());
        r
    }
}

impl<K: KeyEq + Copy, V: Duplicate> AssocMap<K, V> {
    /// A copy of the map with the same keys, key order and value models.
    pub fn duplicate_map(&self) -> (r: Self)
        ensures
            r@ == self@,
            r.key_seq() == self.key_seq(),
    {
        proof {
            use_type_invariant(self);
        }
        let mut entries: Vec<(K, V)> = Vec::new();
        let mut i: usize = 0;
        while i < self.entries.len()
            invariant
                0 <= i <= self.entries@.len(),
                entries@.len() == i,
                distinct_keys(self.entries@),
                forall|j: int|
                    0 <= j < i ==> #[trigger] entries@[j].0 == self.entries@[j].0
                        && entries@[j].1@ == self.entries@[j].1@,
            decreases self.entries@.len() - i,
        {
            let e = &self.entries[i];
            entries.push((e.0, e.1.duplicate()));
            i = i + 1;
        }
        let ghost s = self.entries@;
        let ghost t = entries@;
        proof {
            assert forall|a: int, b: int| 0 <= a < b < t.len() implies #[trigger] t[a].0
                != #[trigger] t[b].0 by {
                assert(s[a].0 != s[b].0);
            }
            assert forall|kk: K| #[trigger]
                entries_model(t).contains_key(kk) <==> entries_model(s).contains_key(kk) by {
                if has_key(t, kk) {
                    let j = key_index(t, kk);
                    assert(s[j].0 == kk);
                }
                if has_key(s, kk) {
                    let j = key_index(s, kk);
                    assert(t[j].0 == kk);
                }
            }
            assert forall|kk: K| #[trigger]
                entries_model(t).contains_key(kk) implies entries_model(t)[kk]
                == entries_model(s)[kk] by {
                let j = key_index(t, kk);
                lemma_key_index(t, j);
                lemma_key_index(s, j);
            }
            assert(entries_model(t) =~= entries_model(s));
            assert(entry_keys(t) =~= entry_keys(s));
        }
        AssocMap { entries }
    }
}

} // verus!
