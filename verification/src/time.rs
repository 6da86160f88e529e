//! Block timestamps: a time offset from the wall clock, an exact timestamp for the next block,
//! and a fixed interval between blocks.
use vstd::prelude::*;

verus! {

#[verifier::external_type_specification]
#[verifier::external_body]
pub struct ExSystemTime(std::time::SystemTime);

#[verifier::external_type_specification]
#[verifier::external_body]
pub struct ExSystemTimeError(std::time::SystemTimeError);

/// Calls `std::time::SystemTime::now`, the current wall-clock time. Nothing is claimed of the
/// result: it depends on the clock.
#[verifier::external_body]
fn system_time_now() -> std::time::SystemTime {
    std::time::SystemTime::now()
}

/// Calls `std::time::SystemTime::duration_since` with `std::time::UNIX_EPOCH`, the time
/// elapsed since the Unix epoch, which is an error where `now` lies before the epoch. Nothing
/// is claimed of the result.
#[verifier::external_body]
fn elapsed_since_unix_epoch(now: &std::time::SystemTime) -> Result<
    std::time::Duration,
    std::time::SystemTimeError,
> {
    now.duration_since(std::time::UNIX_EPOCH)
}

/// Calls `std::time::Duration::as_secs`, the whole seconds of a duration. Nothing is claimed of
/// the result, since the duration is opaque here.
#[verifier::external_body]
fn whole_seconds(d: &std::time::Duration) -> u64 {
    d.as_secs()
}

/// The whole seconds since the Unix epoch by the system clock, or `None` where the clock reads
/// a time before the epoch.
pub fn duration_since_unix_epoch() -> Option<u64> {
    let now = system_time_now();
    match elapsed_since_unix_epoch(&now) {
        Ok(d) => Some(whole_seconds(&d)),
        Err(_) => None,
    }
}

/// `x`, held to the range of `i128`.
pub open spec fn clamp_i128(x: int) -> i128 {
    if x > i128::MAX {
        i128::MAX
    } else if x < i128::MIN {
        i128::MIN
    } else {
        x as i128
    }
}

/// `a + b`, held to the range of `u64`.
pub open spec fn saturating_add_u64(a: u64, b: u64) -> u64 {
    if a + b > u64::MAX {
        u64::MAX
    } else {
        (a + b) as u64
    }
}

/// The sum of two `i128`, or the nearest bound where it leaves their range.
pub fn saturating_add_i128(a: i128, b: i128) -> (r: i128)
    ensures
        r == clamp_i128(a + b),
{
    if b > 0 && a > i128::MAX - b {
        i128::MAX
    } else if b < 0 && a < i128::MIN - b {
        i128::MIN
    } else {
        a + b
    }
}

/// The model of the timestamp state.
pub struct TimeView {
    /// Added to the wall clock to give the time of the chain.
    pub offset: i128,
    /// The timestamp of the last mined block.
    pub last_timestamp: u64,
    /// The exact timestamp of the next block, if one was set.
    pub next_exact_timestamp: Option<u64>,
    /// The fixed distance between block timestamps, if one was set.
    pub interval: Option<u64>,
}

/// The timestamp of the next block, read at wall-clock second `now`, and the offset to keep
/// where the timestamp was set exactly.
///
/// An exact timestamp is taken as set, unless it lies before the last block, which gives the
/// second after the last block. Otherwise, the interval is added to the last timestamp, or,
/// without one, the offset to the clock; where that does not move past the last block, the
/// second after the last block is taken.
pub open spec fn next_block_timestamp(t: TimeView, now: u64) -> (u64, Option<i128>) {
    let last = t.last_timestamp;
    match t.next_exact_timestamp {
        Some(exact) => {
            let next = if exact < last {
                saturating_add_u64(last, 1)
            } else {
                exact
            };
            (next, Some((next - now) as i128))
        },
        None => {
            let candidate = match t.interval {
                Some(interval) => saturating_add_u64(last, interval),
                None => clamp_i128(now + t.offset) as u64,
            };
            let next = if candidate <= last {
                saturating_add_u64(last, 1)
            } else {
                candidate
            };
            (next, None)
        },
    }
}

/// The timestamp state after the next block's timestamp was taken at wall-clock second `now`.
pub open spec fn after_next_block(t: TimeView, now: u64) -> TimeView {
    let (next, offset) = next_block_timestamp(t, now);
    TimeView {
        offset: match offset {
            Some(o) => o,
            None => t.offset,
        },
        last_timestamp: next,
        next_exact_timestamp: None,
        interval: t.interval,
    }
}

/// The timestamp state after the clock was reset to `start` at wall-clock second `now`.
pub open spec fn after_reset(t: TimeView, start: u64, now: u64) -> TimeView {
    TimeView {
        offset: (start - now) as i128,
        last_timestamp: start,
        next_exact_timestamp: None,
        interval: t.interval,
    }
}

/// A saved copy of the timestamp state.
#[derive(Clone, Copy, Debug)]
pub struct TimeSnapshot {
    pub offset: i128,
    pub last_timestamp: u64,
    pub next_exact_timestamp: Option<u64>,
    pub interval: Option<u64>,
}

/// An exact next-block timestamp that lies before the last block's timestamp.
#[derive(Clone, Copy, Debug, PartialEq, Eq)]
pub struct TimestampTooLow {
    /// The timestamp that was refused.
    pub timestamp: u64,
}

/// Manages block timestamp overrides.
#[derive(Clone, Copy, Debug)]
pub struct TimeManager {
    /// Tracks the overall applied timestamp offset.
    offset: i128,
    /// The timestamp of the last mined block.
    last_timestamp: u64,
    /// Contains the exact timestamp to use for the next mined block, if any.
    next_exact_timestamp: Option<u64>,
    /// The interval to use when determining the next block's timestamp.
    interval: Option<u64>,
}

impl View for TimeManager {
    type V = TimeView;

    closed spec fn view(&self) -> TimeView {
        TimeView {
            offset: self.offset,
            last_timestamp: self.last_timestamp,
            next_exact_timestamp: self.next_exact_timestamp,
            interval: self.interval,
        }
    }
}

impl TimeManager {
    /// A time manager whose last block has timestamp `start_timestamp`, read at wall-clock
    /// second `now`.
    pub fn new_at(start_timestamp: u64, now: u64) -> (r: TimeManager)
        ensures
            r@ == after_reset(
                TimeView {
                    offset: 0,
                    last_timestamp: 0,
                    next_exact_timestamp: None,
                    interval: None,
                },
                start_timestamp,
                now,
            ),
    {
        let mut r = TimeManager {
            offset: 0,
            last_timestamp: 0,
            next_exact_timestamp: None,
            interval: None,
        };
        r.reset_at(start_timestamp, now);
        r
    }

    /// A time manager whose last block has timestamp `start_timestamp`, reading the system
    /// clock; `None` where the clock reads a time before the Unix epoch.
    pub fn new(start_timestamp: u64) -> (r: Option<TimeManager>)
        ensures
            r matches Some(t) ==> exists|now: u64|
                t@ == after_reset(
                    TimeView {
                        offset: 0,
                        last_timestamp: 0,
                        next_exact_timestamp: None,
                        interval: None,
                    },
                    start_timestamp,
                    now,
                ),
    {
        match duration_since_unix_epoch() {
            Some(now) => Some(TimeManager::new_at(start_timestamp, now)),
            None => None,
        }
    }

    /// Resets the time to `start_timestamp` at wall-clock second `now`: the last block takes
    /// that timestamp, the offset follows from it, and an exact next timestamp is dropped.
    pub fn reset_at(&mut self, start_timestamp: u64, now: u64)
        ensures
            final(self)@ == after_reset(old(self)@, start_timestamp, now),
    {
        self.last_timestamp = start_timestamp;
        self.offset = (start_timestamp as i128) - (now as i128);
        self.next_exact_timestamp = None;
    }

    /// Resets the time to `start_timestamp`, reading the system clock. Returns `false`, and
    /// changes nothing, where the clock reads a time before the Unix epoch.
    pub fn reset(&mut self, start_timestamp: u64) -> (r: bool)
        ensures
            r ==> exists|now: u64| final(self)@ == after_reset(old(self)@, start_timestamp, now),
            !r ==> final(self)@ == old(self)@,
    {
        match duration_since_unix_epoch() {
            Some(now) => {
                self.reset_at(start_timestamp, now);
                true
            },
            None => false,
        }
    }

    /// Sets the current time baseline, as `reset` does.
    pub fn set_time(&mut self, timestamp: u64) -> (r: bool)
        ensures
            r ==> exists|now: u64| final(self)@ == after_reset(old(self)@, timestamp, now),
            !r ==> final(self)@ == old(self)@,
    {
        self.reset(timestamp)
    }

    /// The current offset to the wall clock.
    pub fn offset(&self) -> (r: i128)
        ensures
            r == self@.offset,
    {
        self.offset
    }

    /// The timestamp of the last block.
    pub fn last_timestamp(&self) -> (r: u64)
        ensures
            r == self@.last_timestamp,
    {
        self.last_timestamp
    }

    /// Adds `offset` to the offset, held to the range of `i128`, and returns the new offset.
    pub fn add_offset(&mut self, offset: i128) -> (r: i128)
        ensures
            r == clamp_i128(old(self)@.offset + offset),
            final(self)@ == (TimeView { offset: r, ..old(self)@ }),
    {
        let next = saturating_add_i128(self.offset, offset);
        self.offset = next;
        next
    }

    /// Jumps forward in time by `seconds`, returning the new offset.
    pub fn increase_time(&mut self, seconds: u64) -> (r: i128)
        ensures
            r == clamp_i128(old(self)@.offset + seconds),
            final(self)@ == (TimeView { offset: r, ..old(self)@ }),
    {
        self.add_offset(seconds as i128)
    }

    /// Sets the exact timestamp of the next block; refused where it lies before the last
    /// block's timestamp.
    pub fn set_next_block_timestamp(&mut self, timestamp: u64) -> (r: Result<(), TimestampTooLow>)
        ensures
            r is Err <==> timestamp < old(self)@.last_timestamp,
            r matches Err(e) ==> e.timestamp == timestamp && final(self)@ == old(self)@,
            r is Ok ==> final(self)@ == (TimeView {
                next_exact_timestamp: Some(timestamp),
                ..old(self)@
            }),
    {
        if timestamp < self.last_timestamp {
            return Err(TimestampTooLow { timestamp });
        }
        self.next_exact_timestamp = Some(timestamp);
        Ok(())
    }

    /// Sets the interval between block timestamps.
    pub fn set_block_timestamp_interval(&mut self, interval: u64)
        ensures
            final(self)@ == (TimeView { interval: Some(interval), ..old(self)@ }),
    {
        self.interval = Some(interval);
    }

    /// The interval between block timestamps, if one is set.
    pub fn interval(&self) -> (r: Option<u64>)
        ensures
            r == self@.interval,
    {
        self.interval
    }

    /// Removes the interval, returning whether there was one.
    pub fn remove_block_timestamp_interval(&mut self) -> (r: bool)
        ensures
            r == old(self)@.interval is Some,
            final(self)@ == (TimeView { interval: None, ..old(self)@ }),
    {
        let had = self.interval.is_some();
        self.interval = None;
        had
    }

    /// The timestamp of the next block read at wall-clock second `now`, and the offset to keep
    /// where it was set exactly.
    pub fn compute_next_timestamp(&self, now: u64) -> (r: (u64, Option<i128>))
        ensures
            r == next_block_timestamp(self@, now),
    {
        let current = now as i128;
        let last_timestamp = self.last_timestamp;
        match self.next_exact_timestamp {
            Some(next) => {
                let next = if next < last_timestamp {
                    last_timestamp.saturating_add(1)
                } else {
                    next
                };
                (next, Some((next as i128) - current))
            },
            None => {
                let candidate = match self.interval {
                    Some(interval) => last_timestamp.saturating_add(interval),
                    None => saturating_add_i128(current, self.offset) as u64,
                };
                let next = if candidate <= last_timestamp {
                    last_timestamp.saturating_add(1)
                } else {
                    candidate
                };
                (next, None)
            },
        }
    }

    /// Takes the timestamp of the next block at wall-clock second `now`: the exact timestamp,
    /// if any, is used up, the offset follows an exact timestamp, and the result becomes the
    /// last block's timestamp.
    pub fn next_timestamp_at(&mut self, now: u64) -> (r: u64)
        ensures
            r == next_block_timestamp(old(self)@, now).0,
            final(self)@ == after_next_block(old(self)@, now),
    {
        let (next_timestamp, next_offset) = self.compute_next_timestamp(now);
        self.next_exact_timestamp = None;
        match next_offset {
            Some(o) => {
                self.offset = o;
            },
            None => {},
        }
        self.last_timestamp = next_timestamp;
        next_timestamp
    }

    /// Takes the timestamp of the next block, reading the system clock; `None`, with nothing
    /// changed, where the clock reads a time before the Unix epoch.
    pub fn next_timestamp(&mut self) -> (r: Option<u64>)
        ensures
            r matches Some(ts) ==> exists|now: u64|
                ts == next_block_timestamp(old(self)@, now).0 && final(self)@ == after_next_block(
                    old(self)@,
                    now,
                ),
            r is None ==> final(self)@ == old(self)@,
    {
        match duration_since_unix_epoch() {
            Some(now) => Some(self.next_timestamp_at(now)),
            None => None,
        }
    }

    /// The timestamp that a block would take at wall-clock second `now`, without using up any
    /// override.
    pub fn current_call_timestamp_at(&self, now: u64) -> (r: u64)
        ensures
            r == next_block_timestamp(self@, now).0,
    {
        let (next_timestamp, _) = self.compute_next_timestamp(now);
        next_timestamp
    }

    /// The timestamp that a block would take now by the system clock, without using up any
    /// override; `None` where the clock reads a time before the Unix epoch.
    pub fn current_call_timestamp(&self) -> (r: Option<u64>)
        ensures
            r matches Some(ts) ==> exists|now: u64| ts == next_block_timestamp(self@, now).0,
    {
        match duration_since_unix_epoch() {
            Some(now) => Some(self.current_call_timestamp_at(now)),
            None => None,
        }
    }

    /// A copy of the timestamp state.
    pub fn snapshot(&self) -> (r: TimeSnapshot)
        ensures
            r.offset == self@.offset,
            r.last_timestamp == self@.last_timestamp,
            r.next_exact_timestamp == self@.next_exact_timestamp,
            r.interval == self@.interval,
    {
        TimeSnapshot {
            offset: self.offset,
            last_timestamp: self.last_timestamp,
            next_exact_timestamp: self.next_exact_timestamp,
            interval: self.interval,
        }
    }

    /// Puts back the timestamp state of a snapshot.
    pub fn restore(&mut self, snapshot: TimeSnapshot)
        ensures
            final(self)@ == (TimeView {
                offset: snapshot.offset,
                last_timestamp: snapshot.last_timestamp,
                next_exact_timestamp: snapshot.next_exact_timestamp,
                interval: snapshot.interval,
            }),
    {
        self.offset = snapshot.offset;
        self.last_timestamp = snapshot.last_timestamp;
        self.next_exact_timestamp = snapshot.next_exact_timestamp;
        self.interval = snapshot.interval;
    }
}

} // verus!

verus! {

/// The next block's timestamp never lies before the last block's; without an exact timestamp
/// it lies strictly after, unless the last timestamp is already the largest one.
pub proof fn law_next_timestamp_never_goes_back(t: TimeView, now: u64)
    ensures
        next_block_timestamp(t, now).0 >= t.last_timestamp,
        t.next_exact_timestamp is None && t.last_timestamp < u64::MAX ==> next_block_timestamp(
            t,
            now,
        ).0 > t.last_timestamp,
        after_next_block(t, now).last_timestamp == next_block_timestamp(t, now).0,
{
}

/// An exact timestamp that is not before the last block becomes the next block's timestamp,
/// whatever the clock reads, and is used up by that block.
pub proof fn law_exact_timestamp_used_once(t: TimeView, timestamp: u64, now: u64)
    requires
        timestamp >= t.last_timestamp,
    ensures
        ({
            let set = TimeView { next_exact_timestamp: Some(timestamp), ..t };
            let mined = after_next_block(set, now);
            &&& next_block_timestamp(set, now).0 == timestamp
            &&& mined.last_timestamp == timestamp
            &&& mined.next_exact_timestamp is None
            &&& mined.interval == t.interval
        }),
{
}

/// With an interval set and no exact timestamp, consecutive blocks lie that interval apart,
/// where that does not pass the largest timestamp.
pub proof fn law_interval_spacing(t: TimeView, now: u64)
    requires
        t.next_exact_timestamp is None,
        t.interval matches Some(i) && i > 0 && t.last_timestamp + i <= u64::MAX,
    ensures
        next_block_timestamp(t, now).0 == t.last_timestamp + t.interval.unwrap(),
{
}

/// After the time is reset to `start` at clock second `now`, and without an interval, a block
/// at clock second `later` takes `start` plus the seconds that passed, or `start + 1` where
/// none passed.
pub proof fn law_reset_sets_baseline(t: TimeView, start: u64, now: u64, later: u64)
    requires
        t.interval is None,
        now <= later,
        start + (later - now) < u64::MAX,
    ensures
        next_block_timestamp(after_reset(t, start, now), later).0 == if later > now {
            start + (later - now)
        } else {
            start + 1
        },
{
    let r = after_reset(t, start, now);
    assert(clamp_i128(later + r.offset) == start + (later - now));
}

/// A block that takes an exact timestamp moves the clock offset with it: afterwards the offset
/// is that timestamp minus the clock, so with no interval a block `d` seconds later on the
/// clock takes the exact timestamp plus `d`.
pub proof fn law_exact_timestamp_sets_offset(t: TimeView, now: u64, later: u64)
    requires
        t.next_exact_timestamp is Some,
    ensures
        after_next_block(t, now).offset == next_block_timestamp(t, now).0 - now,
        ({
            let next = next_block_timestamp(t, now).0;
            t.interval is None && now < later && next + (later - now) <= u64::MAX
                ==> next_block_timestamp(after_next_block(t, now), later).0 == next + (later
                - now)
        }),
{
    let next = next_block_timestamp(t, now).0;
    let m = after_next_block(t, now);
    if t.interval is None && now < later && next + (later - now) <= u64::MAX {
        assert(m.offset == next - now);
        assert(clamp_i128(later + m.offset) == next + (later - now));
        assert(m.last_timestamp == next);
    }
}

} // verus!
