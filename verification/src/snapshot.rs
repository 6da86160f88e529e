//! Snapshots of the node's local state by id, and reverting to one.
use vstd::prelude::*;
use crate::assoc::{AssocMap, Duplicate};
use crate::block_env::{BlockEnvOverrides, BlockEnvSnapshot, BlockEnvView};
use crate::primitives::{lemma_u256_of_small, lemma_u256_of_value, u256_of, word_modulus, B256, U256};
use crate::state::{AnvilState, AnvilStateView};
use crate::time::{TimeManager, TimeSnapshot, TimeView};

verus! {

/// The timestamp state that a time snapshot holds.
pub open spec fn time_view_of(s: TimeSnapshot) -> TimeView {
    TimeView {
        offset: s.offset,
        last_timestamp: s.last_timestamp,
        next_exact_timestamp: s.next_exact_timestamp,
        interval: s.interval,
    }
}

/// The model of a snapshot.
pub struct SnapshotView {
    pub block_number: u64,
    pub block_hash: B256,
    pub anvil_state: AnvilStateView,
    pub time: TimeView,
    pub block_env: BlockEnvView,
}

/// Captured local state for a snapshot id.
pub struct Snapshot {
    pub block_number: u64,
    pub block_hash: B256,
    pub anvil_state: AnvilState,
    pub time: TimeSnapshot,
    pub block_env: BlockEnvSnapshot,
}

impl View for Snapshot {
    type V = SnapshotView;

    open spec fn view(&self) -> SnapshotView {
        SnapshotView {
            block_number: self.block_number,
            block_hash: self.block_hash,
            anvil_state: self.anvil_state@,
            time: time_view_of(self.time),
            block_env: self.block_env@,
        }
    }
}

impl Snapshot {
    /// A snapshot of the given head block and local state.
    pub fn new(
        block_number: u64,
        block_hash: B256,
        anvil_state: AnvilState,
        time: TimeSnapshot,
        block_env: BlockEnvSnapshot,
    ) -> (r: Snapshot)
        ensures
            r@ == (SnapshotView {
                block_number,
                block_hash,
                anvil_state: anvil_state@,
                time: time_view_of(time),
                block_env: block_env@,
            }),
    {
        Snapshot { block_number, block_hash, anvil_state, time, block_env }
    }
}

impl Duplicate for Snapshot {
    fn duplicate(&self) -> (r: Snapshot) {
        Snapshot {
            block_number: self.block_number,
            block_hash: self.block_hash,
            anvil_state: self.anvil_state.duplicate(),
            time: self.time,
            block_env: self.block_env,
        }
    }
}

/// The model of the snapshot manager.
pub struct SnapshotsView {
    /// The id that the next snapshot gets.
    pub next_id: U256,
    pub snapshots: Map<U256, SnapshotView>,
}

/// The snapshots whose ids are below `id`.
pub open spec fn snapshots_below(
    snapshots: Map<U256, SnapshotView>,
    id: U256,
) -> Map<U256, SnapshotView> {
    snapshots.restrict(snapshots.dom().filter(|k: U256| k.value() < id.value()))
}

/// The snapshots after `snapshot` was stored under the next id, which moves one on, wrapping
/// around at `2^256`.
pub open spec fn with_snapshot(m: SnapshotsView, snapshot: SnapshotView) -> SnapshotsView {
    SnapshotsView {
        next_id: u256_of(((m.next_id.value() + 1) % word_modulus()) as nat),
        snapshots: m.snapshots.insert(m.next_id, snapshot),
    }
}

/// The snapshots after a revert to snapshot `id`: it and every later one are dropped.
pub open spec fn reverted_to(m: SnapshotsView, id: U256) -> SnapshotsView {
    SnapshotsView { next_id: m.next_id, snapshots: snapshots_below(m.snapshots, id) }
}

/// Tracks snapshot ids and their captured state.
pub struct SnapshotManager {
    next_id: U256,
    snapshots: AssocMap<U256, Snapshot>,
}

impl View for SnapshotManager {
    type V = SnapshotsView;

    closed spec fn view(&self) -> SnapshotsView {
        SnapshotsView { next_id: self.next_id, snapshots: self.snapshots@ }
    }
}

impl SnapshotManager {
    /// No snapshots; the first id is 1.
    pub fn new() -> (r: SnapshotManager)
        ensures
            r@.next_id.value() == 1,
            r@.snapshots == Map::<U256, SnapshotView>::empty(),
    {
        SnapshotManager { next_id: U256::from_u64(1), snapshots: AssocMap::new() }
    }

    /// Stores `snapshot` under the next id and returns that id; the next id after it is one
    /// more, wrapping around at `2^256`.
    pub fn insert(&mut self, snapshot: Snapshot) -> (r: U256)
        ensures
            r == old(self)@.next_id,
            final(self)@ == with_snapshot(old(self)@, snapshot@),
    {
        let id = self.next_id;
        let next = id.wrapping_increment();
        proof {
            lemma_u256_of_value(next);
        }
        self.next_id = next;
        self.snapshots.insert(id, snapshot);
        id
    }

    /// A copy of the snapshot with id `id`, if there is one.
    pub fn get(&self, id: U256) -> (r: Option<Snapshot>)
        ensures
            r is Some <==> self@.snapshots.contains_key(id),
            r matches Some(s) ==> s@ == self@.snapshots[id],
    {
        match self.snapshots.get(&id) {
            Some(s) => Some(s.duplicate()),
            None => None,
        }
    }

    /// Drops every snapshot whose id is `id` or above.
    pub fn invalidate_from(&mut self, id: U256)
        ensures
            final(self)@ == reverted_to(old(self)@, id),
    {
        let keys = self.snapshots.keys();
        let ghost old_map = self@.snapshots;
        let mut i: usize = 0;
        while i < keys.len()
            invariant
                0 <= i <= keys@.len(),
                keys@.to_set() == old_map.dom(),
                self@.next_id == old(self)@.next_id,
                old_map == old(self)@.snapshots,
                self@.snapshots == Map::new(
                    |k: U256|
                        old_map.contains_key(k) && (k.value() < id.value() || !keys@.take(
                            i as int,
                        ).contains(k)),
                    |k: U256| old_map[k],
                ),
            decreases keys@.len() - i,
        {
            let k = keys[i];
            let ghost before = self@.snapshots;
            if !k.less_than(&id) {
                self.snapshots.remove(&k);
            }
            i = i + 1;
            proof {
                let pre = keys@.take(i - 1);
                let post = keys@.take(i as int);
                assert(post =~= pre.push(k));
                assert forall|kk: U256| #[trigger]
                    post.contains(kk) <==> (pre.contains(kk) || kk == k) by {
                    if post.contains(kk) {
                        let j = choose|j: int| 0 <= j < post.len() && post[j] == kk;
                        if j < i - 1 {
                            assert(pre[j] == kk);
                        }
                    }
                    if pre.contains(kk) {
                        let j = choose|j: int| 0 <= j < pre.len() && pre[j] == kk;
                        assert(post[j] == kk);
                    }
                    if kk == k {
                        assert(post[i - 1] == kk);
                    }
                }
                assert(self@.snapshots =~= Map::new(
                    |kk: U256|
                        old_map.contains_key(kk) && (kk.value() < id.value() || !keys@.take(
                            i as int,
                        ).contains(kk)),
                    |kk: U256| old_map[kk],
                ));
            }
        }
        proof {
            assert(keys@.take(keys@.len() as int) =~= keys@);
            assert forall|kk: U256| keys@.contains(kk) <==> old_map.contains_key(kk) by {
                assert(keys@.to_set().contains(kk) == keys@.contains(kk));
            }
            assert(self@.snapshots =~= snapshots_below(old_map, id));
        }
    }

    /// Every snapshot id, once each, with the head block number and hash of its snapshot.
    pub fn metadata(&self) -> (r: Vec<(U256, u64, B256)>)
        ensures
            r@.len() == self@.snapshots.dom().len(),
            forall|i: int, j: int| 0 <= i < j < r@.len() ==> r@[i].0 != r@[j].0,
            forall|i: int|
                0 <= i < r@.len() ==> #[trigger] self@.snapshots.contains_key(r@[i].0)
                    && r@[i].1 == self@.snapshots[r@[i].0].block_number && r@[i].2
                    == self@.snapshots[r@[i].0].block_hash,
            forall|id: U256|
                self@.snapshots.contains_key(id) ==> exists|i: int|
                    0 <= i < r@.len() && #[trigger] r@[i].0 == id,
    {
        let keys = self.snapshots.keys();
        let n = self.snapshots.len();
        let mut r: Vec<(U256, u64, B256)> = Vec::new();
        let mut i: usize = 0;
        while i < n
            invariant
                0 <= i <= n,
                n == self.snapshots.spec_len(),
                n == self@.snapshots.dom().len(),
                keys@ == self.snapshots.key_seq(),
                keys@.no_duplicates(),
                keys@.to_set() == self@.snapshots.dom(),
                r@.len() == i,
                forall|j: int|
                    0 <= j < i ==> #[trigger] r@[j].0 == keys@[j] && self@.snapshots.contains_key(
                        r@[j].0,
                    ) && r@[j].1 == self@.snapshots[r@[j].0].block_number && r@[j].2
                        == self@.snapshots[r@[j].0].block_hash,
            decreases n - i,
        {
            let (k, s) = self.snapshots.entry_at(i);
            r.push((*k, s.block_number, s.block_hash));
            i = i + 1;
        }
        proof {
            assert forall|id: U256| self@.snapshots.contains_key(id) implies exists|j: int|
                0 <= j < r@.len() && #[trigger] r@[j].0 == id by {
                assert(keys@.to_set().contains(id));
                let j = choose|j: int| 0 <= j < keys@.len() && keys@[j] == id;
                assert(r@[j].0 == id);
            }
        }
        r
    }
}

impl Default for SnapshotManager {
    fn default() -> (r: SnapshotManager)
        ensures
            r@.next_id.value() == 1,
            r@.snapshots == Map::<U256, SnapshotView>::empty(),
    {
        SnapshotManager::new()
    }
}

/// Takes a snapshot of the local state together with the head block, and returns its id.
pub fn take_snapshot(
    snapshots: &mut SnapshotManager,
    block_number: u64,
    block_hash: B256,
    state: &AnvilState,
    time: &TimeManager,
    block_env: &BlockEnvOverrides,
) -> (r: U256)
    ensures
        r == old(snapshots)@.next_id,
        final(snapshots)@ == with_snapshot(
            old(snapshots)@,
            SnapshotView {
                block_number,
                block_hash,
                anvil_state: state@,
                time: time@,
                block_env: block_env@,
            },
        ),
{
    let time_snapshot = time.snapshot();
    assert(time_view_of(time_snapshot) == time@);
    let snapshot = Snapshot::new(
        block_number,
        block_hash,
        state.duplicate(),
        time_snapshot,
        block_env.snapshot(),
    );
    snapshots.insert(snapshot)
}

/// Reverts the local state to the snapshot with id `id`, where there is one: the state, the
/// timestamp state and the block-environment overrides become those of the snapshot, and that
/// snapshot and every later one are dropped. Returns the snapshot's head block, or `None`,
/// with nothing changed, where there is no such snapshot.
pub fn revert_to_snapshot(
    snapshots: &mut SnapshotManager,
    id: U256,
    state: &mut AnvilState,
    time: &mut TimeManager,
    block_env: &mut BlockEnvOverrides,
) -> (r: Option<(u64, B256)>)
    ensures
        r is Some <==> old(snapshots)@.snapshots.contains_key(id),
        r matches Some(head) ==> {
            let s = old(snapshots)@.snapshots[id];
            &&& head == (s.block_number, s.block_hash)
            &&& final(state)@ == s.anvil_state
            &&& final(time)@ == s.time
            &&& final(block_env)@ == s.block_env
            &&& final(snapshots)@ == reverted_to(old(snapshots)@, id)
        },
        r is None ==> {
            &&& final(snapshots)@ == old(snapshots)@
            &&& final(state)@ == old(state)@
            &&& final(time)@ == old(time)@
            &&& final(block_env)@ == old(block_env)@
        },
{
    match snapshots.get(id) {
        Some(snapshot) => {
            let head = (snapshot.block_number, snapshot.block_hash);
            *state = snapshot.anvil_state;
            time.restore(snapshot.time);
            block_env.restore(snapshot.block_env);
            snapshots.invalidate_from(id);
            Some(head)
        },
        None => None,
    }
}


/// Whether reverting to a snapshot of block `snapshot_block` removes persisted blocks: it does
/// where the last persisted block lies above the snapshot's block.
pub fn removes_persisted_blocks(last_persisted: u64, snapshot_block: u64) -> (r: bool)
    ensures
        r == (last_persisted > snapshot_block),
{
    last_persisted > snapshot_block
}

/// Whether an in-memory canonical block of number `block_number` is dropped when reverting to
/// a snapshot of block `snapshot_block`: every block above the snapshot's block is, and the
/// snapshot's block itself too where it is already persisted.
pub open spec fn drops_in_memory_block(
    block_number: u64,
    snapshot_block: u64,
    last_persisted: u64,
) -> bool {
    if last_persisted >= snapshot_block {
        block_number >= snapshot_block
    } else {
        block_number > snapshot_block
    }
}

/// The numbers of the in-memory canonical blocks that reverting to a snapshot of block
/// `snapshot_block` drops, in the order of `in_memory`.
pub fn dropped_in_memory_blocks(in_memory: &Vec<u64>, snapshot_block: u64, last_persisted: u64)
    -> (r: Vec<u64>)
    ensures
        r@ == in_memory@.filter(|n: u64| drops_in_memory_block(n, snapshot_block, last_persisted)),
{
    let ghost pred = |n: u64| drops_in_memory_block(n, snapshot_block, last_persisted);
    let snapshot_is_persisted = last_persisted >= snapshot_block;
    let mut out: Vec<u64> = Vec::new();
    let mut i: usize = 0;
    while i < in_memory.len()
        invariant
            0 <= i <= in_memory@.len(),
            pred == (|n: u64| drops_in_memory_block(n, snapshot_block, last_persisted)),
            snapshot_is_persisted == (last_persisted >= snapshot_block),
            out@ == in_memory@.take(i as int).filter(pred),
        decreases in_memory@.len() - i,
    {
        let n = in_memory[i];
        proof {
            let next = in_memory@.take(i + 1);
            assert(next.drop_last() =~= in_memory@.take(i as int));
            assert(next.last() == n);
            reveal(Seq::filter);
        }
        let dropped = if snapshot_is_persisted {
            n >= snapshot_block
        } else {
            n > snapshot_block
        };
        if dropped {
            out.push(n);
        }
        i = i + 1;
    }
    assert(in_memory@.take(in_memory@.len() as int) =~= in_memory@);
    out
}
} // verus!

verus! {


/// Every stored snapshot id lies below the id that the next snapshot gets.
pub open spec fn ids_below_next(m: SnapshotsView) -> bool {
    forall|k: U256| #[trigger] m.snapshots.contains_key(k) ==> k.value() < m.next_id.value()
}

/// The snapshots after each of `taken` was stored in turn.
pub open spec fn with_snapshots(m: SnapshotsView, taken: Seq<SnapshotView>) -> SnapshotsView
    decreases taken.len(),
{
    if taken.len() == 0 {
        m
    } else {
        with_snapshot(with_snapshots(m, taken.drop_last()), taken.last())
    }
}

/// Snapshot ids start at 1 and go up by one with each snapshot: after `n` snapshots from a new
/// manager the next id is `n + 1`, below `2^256`. An id is never handed out twice: the id a
/// snapshot gets is not in use, every stored id stays below the next one, and a revert leaves
/// the next id where it was, so a dropped id is not given again.
pub proof fn law_snapshot_ids(
    m: SnapshotsView,
    taken: Seq<SnapshotView>,
    snapshot: SnapshotView,
    id: U256,
)
    requires
        ids_below_next(m),
        m.next_id.value() + taken.len() + 1 < word_modulus(),
    ensures
        with_snapshots(m, taken).next_id.value() == m.next_id.value() + taken.len(),
        ids_below_next(with_snapshots(m, taken)),
        !m.snapshots.contains_key(m.next_id),
        ids_below_next(with_snapshot(m, snapshot)),
        reverted_to(m, id).next_id == m.next_id,
        ids_below_next(reverted_to(m, id)),
        m.next_id.value() == 1 && m.snapshots == Map::<U256, SnapshotView>::empty() ==> with_snapshots(
            m,
            taken,
        ).next_id.value() == taken.len() + 1,
    decreases taken.len(),
{
    lemma_with_snapshot_next(m, snapshot);
    if taken.len() > 0 {
        law_snapshot_ids(m, taken.drop_last(), taken.last(), id);
        let before = with_snapshots(m, taken.drop_last());
        lemma_with_snapshot_next(before, taken.last());
    }
}

/// Storing a snapshot moves the next id up by one, below `2^256`, and keeps every stored id
/// below it.
proof fn lemma_with_snapshot_next(m: SnapshotsView, snapshot: SnapshotView)
    requires
        ids_below_next(m),
        m.next_id.value() + 1 < word_modulus(),
    ensures
        with_snapshot(m, snapshot).next_id.value() == m.next_id.value() + 1,
        ids_below_next(with_snapshot(m, snapshot)),
{
    let n = (m.next_id.value() + 1) as nat;
    vstd::arithmetic::div_mod::lemma_small_mod(n, word_modulus());
    lemma_u256_of_small(n);
}

/// A snapshot stores what it was taken of under the id that was next; a revert to that id
/// hands back exactly what was stored, drops that id and every later one, and keeps every
/// earlier snapshot.
pub proof fn law_snapshot_then_revert(m: SnapshotsView, snapshot: SnapshotView, earlier: U256)
    ensures
        ({
            let id = m.next_id;
            let taken = with_snapshot(m, snapshot);
            let reverted = reverted_to(taken, id);
            &&& taken.snapshots.contains_key(id)
            &&& taken.snapshots[id] == snapshot
            &&& !reverted.snapshots.contains_key(id)
            &&& forall|k: U256| #[trigger]
                reverted.snapshots.contains_key(k) ==> k.value() < id.value()
            &&& (earlier.value() < id.value() && m.snapshots.contains_key(earlier)
                ==> reverted.snapshots.contains_key(earlier) && reverted.snapshots[earlier]
                == m.snapshots[earlier])
        }),
{
}

} // verus!
