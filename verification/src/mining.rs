//! Mining modes and mining triggers: whether blocks are mined as transactions arrive, on a
//! fixed interval, or only on request, and the count of requested blocks not yet mined.
use vstd::prelude::*;

verus! {

/// How the node decides when to mine a block.
#[derive(Debug, Clone, Copy, PartialEq, Eq, Structural)]
pub enum MiningMode {
    /// A block is mined as soon as a transaction is pending.
    Automine,
    /// Blocks are mined only on request.
    Manual,
    /// A block is mined every given number of seconds.
    Interval(u64),
}

/// The model of the mining controller.
pub struct MiningView {
    pub mode: MiningMode,
    /// Requested blocks that the miner has not yet picked up.
    pub pending_triggers: usize,
}

/// The mode after automine is switched on or off: on, it replaces any mode; off, it turns
/// automine into manual mining and leaves other modes alone.
pub open spec fn mode_after_set_automine(mode: MiningMode, enabled: bool) -> MiningMode {
    if enabled {
        MiningMode::Automine
    } else {
        match mode {
            MiningMode::Automine => MiningMode::Manual,
            other => other,
        }
    }
}

/// The mode after interval mining is set to `interval_secs`; zero means manual mining.
pub open spec fn mode_after_set_interval(interval_secs: u64) -> MiningMode {
    if interval_secs == 0 {
        MiningMode::Manual
    } else {
        MiningMode::Interval(interval_secs)
    }
}

/// The count of requested blocks after one more request; it wraps around at its largest
/// value, as an atomic counter does.
pub open spec fn count_after_trigger(count: usize) -> usize {
    if count == usize::MAX {
        0
    } else {
        (count + 1) as usize
    }
}

/// The count of requested blocks after `n` more requests.
pub open spec fn count_after_triggers(count: usize, n: nat) -> usize
    decreases n,
{
    if n == 0 {
        count
    } else {
        count_after_trigger(count_after_triggers(count, (n - 1) as nat))
    }
}

/// The count of requested blocks after the miner tries to pick one up.
pub open spec fn count_after_take(count: usize) -> usize {
    if count > 0 {
        (count - 1) as usize
    } else {
        count
    }
}

/// The count of requested blocks after a run of requests and pick-ups, in order: `true` is a
/// request (`trigger`), `false` an attempt to pick one up (`take_trigger`).
pub open spec fn count_after_run(count: usize, run: Seq<bool>) -> usize
    decreases run.len(),
{
    if run.len() == 0 {
        count
    } else {
        let before = count_after_run(count, run.drop_last());
        if run.last() {
            count_after_trigger(before)
        } else {
            count_after_take(before)
        }
    }
}

/// The number of requests in a run.
pub open spec fn requests_in(run: Seq<bool>) -> nat
    decreases run.len(),
{
    if run.len() == 0 {
        0
    } else {
        requests_in(run.drop_last()) + if run.last() {
            1nat
        } else {
            0nat
        }
    }
}

/// The number of pick-ups in a run that found a requested block (`take_trigger` returned
/// `true`).
pub open spec fn blocks_taken_in(count: usize, run: Seq<bool>) -> nat
    decreases run.len(),
{
    if run.len() == 0 {
        0
    } else {
        blocks_taken_in(count, run.drop_last()) + if !run.last() && count_after_run(
            count,
            run.drop_last(),
        ) > 0 {
            1nat
        } else {
            0nat
        }
    }
}

/// What the interval-mining task does next in a given mode.
#[derive(Debug, Clone, Copy, PartialEq, Eq, Structural)]
pub enum IntervalStep {
    /// Wait until the mode changes.
    WaitForModeChange,
    /// Sleep this many seconds, or until the mode changes, whichever comes first.
    Sleep(u64),
}

/// What the interval-mining task does next in `mode`.
pub fn interval_step(mode: MiningMode) -> (r: IntervalStep)
    ensures
        r == match mode {
            MiningMode::Interval(secs) => IntervalStep::Sleep(secs),
            _ => IntervalStep::WaitForModeChange,
        },
{
    match mode {
        MiningMode::Automine | MiningMode::Manual => IntervalStep::WaitForModeChange,
        MiningMode::Interval(secs) => IntervalStep::Sleep(secs),
    }
}

/// Whether a block is requested when an interval sleep ends and the mode is then `mode`: only
/// while interval mining is still on.
pub fn fires_after_sleep(mode: MiningMode) -> (r: bool)
    ensures
        r == mode is Interval,
{
    match mode {
        MiningMode::Interval(_) => true,
        _ => false,
    }
}

/// Controls the mining mode and counts requested blocks.
#[derive(Debug, Clone, Copy)]
pub struct MiningController {
    mode: MiningMode,
    pending_triggers: usize,
}

impl View for MiningController {
    type V = MiningView;

    closed spec fn view(&self) -> MiningView {
        MiningView { mode: self.mode, pending_triggers: self.pending_triggers }
    }
}

impl MiningController {
    /// Automine, with no blocks requested.
    pub fn new() -> (r: MiningController)
        ensures
            r@.mode == MiningMode::Automine,
            r@.pending_triggers == 0,
    {
        MiningController { mode: MiningMode::Automine, pending_triggers: 0 }
    }

    /// The current mode.
    pub fn mode(&self) -> (r: MiningMode)
        ensures
            r == self@.mode,
    {
        self.mode
    }

    /// Whether blocks are mined as transactions arrive.
    pub fn is_automine(&self) -> (r: bool)
        ensures
            r == self@.mode is Automine,
    {
        match self.mode {
            MiningMode::Automine => true,
            _ => false,
        }
    }

    /// The mining interval in seconds, while interval mining is on.
    pub fn interval_mining(&self) -> (r: Option<u64>)
        ensures
            r == match self@.mode {
                MiningMode::Interval(secs) => Some(secs),
                _ => None::<u64>,
            },
    {
        match self.mode {
            MiningMode::Interval(secs) => Some(secs),
            MiningMode::Automine | MiningMode::Manual => None,
        }
    }

    /// Switches automine on or off.
    pub fn set_automine(&mut self, enabled: bool)
        ensures
            final(self)@.mode == mode_after_set_automine(old(self)@.mode, enabled),
            final(self)@.pending_triggers == old(self)@.pending_triggers,
    {
        let next_mode = match (self.mode, enabled) {
            (MiningMode::Automine, true) => return ,
            (MiningMode::Automine, false) => MiningMode::Manual,
            (_, true) => MiningMode::Automine,
            (_, false) => return ,
        };
        self.mode = next_mode;
    }

    /// Mines a block every `interval_secs` seconds; zero switches to manual mining.
    pub fn set_interval_mining(&mut self, interval_secs: u64)
        ensures
            final(self)@.mode == mode_after_set_interval(interval_secs),
            final(self)@.pending_triggers == old(self)@.pending_triggers,
    {
        self.mode = if interval_secs == 0 {
            MiningMode::Manual
        } else {
            MiningMode::Interval(interval_secs)
        };
    }

    /// The number of requested blocks not yet picked up.
    pub fn pending_triggers(&self) -> (r: usize)
        ensures
            r == self@.pending_triggers,
    {
        self.pending_triggers
    }

    /// Requests one block. The count wraps around at its largest value, as an atomic counter
    /// does.
    pub fn trigger(&mut self)
        ensures
            final(self)@.mode == old(self)@.mode,
            final(self)@.pending_triggers == count_after_trigger(old(self)@.pending_triggers),
    {
        self.pending_triggers = if self.pending_triggers == usize::MAX {
            0
        } else {
            self.pending_triggers + 1
        };
    }

    /// Picks up one requested block, where there is one.
    pub fn take_trigger(&mut self) -> (r: bool)
        ensures
            r == (old(self)@.pending_triggers > 0),
            final(self)@.mode == old(self)@.mode,
            final(self)@.pending_triggers == count_after_take(old(self)@.pending_triggers),
    {
        if self.pending_triggers > 0 {
            self.pending_triggers = self.pending_triggers - 1;
            true
        } else {
            false
        }
    }

    /// Whether the automine task requests a block when the pool reports `pending_and_queued`
    /// transactions: only in automine mode and with at least one transaction.
    pub fn automine_should_trigger(&self, pending_and_queued: usize) -> (r: bool)
        ensures
            r == (self@.mode is Automine && pending_and_queued > 0),
    {
        self.is_automine() && pending_and_queued > 0
    }
}

impl Default for MiningController {
    fn default() -> (r: MiningController)
        ensures
            r@.mode == MiningMode::Automine,
            r@.pending_triggers == 0,
    {
        MiningController::new()
    }
}

} // verus!

verus! {

/// Switching automine on always gives automine, which reports no mining interval.
pub proof fn law_automine_on_clears_interval(mode: MiningMode)
    ensures
        mode_after_set_automine(mode, true) == MiningMode::Automine,
{
}

/// Switching automine off turns automine into manual mining and keeps interval mining.
pub proof fn law_automine_off_keeps_interval(mode: MiningMode)
    ensures
        mode is Automine ==> mode_after_set_automine(mode, false) == MiningMode::Manual,
        mode matches MiningMode::Interval(secs) ==> mode_after_set_automine(mode, false)
            == MiningMode::Interval(secs),
        mode is Manual ==> mode_after_set_automine(mode, false) == MiningMode::Manual,
{
}

/// A requested block is picked up exactly once: after a request the miner finds one, and
/// picking it up brings the count back to what it was.
pub proof fn law_trigger_then_take(count: usize)
    requires
        count < usize::MAX,
    ensures
        count_after_trigger(count) > 0,
        count_after_take(count_after_trigger(count)) == count,
{
}

/// Over any run of requests and pick-ups that does not wrap the count around, every requested
/// block is picked up at most once: the blocks picked up and those still pending add up to the
/// blocks pending at the start plus those requested, so the miner never takes more blocks than
/// were requested.
pub proof fn law_blocks_taken_bounded_by_requests(count: usize, run: Seq<bool>)
    requires
        count + requests_in(run) <= usize::MAX,
    ensures
        count_after_run(count, run) + blocks_taken_in(count, run) == count + requests_in(run),
        blocks_taken_in(count, run) <= count + requests_in(run),
    decreases run.len(),
{
    if run.len() > 0 {
        law_blocks_taken_bounded_by_requests(count, run.drop_last());
    }
}

/// An interval of zero seconds means manual mining; any other interval is reported back.
pub proof fn law_interval_zero_is_manual(secs: u64)
    ensures
        secs == 0 ==> mode_after_set_interval(secs) == MiningMode::Manual,
        secs != 0 ==> mode_after_set_interval(secs) == MiningMode::Interval(secs),
{
}

} // verus!
