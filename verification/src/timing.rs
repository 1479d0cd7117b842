//! Low-overhead per-stage timestamps.
//!
//! The clock is [`quanta`]'s, which is TSC-backed on Linux/Windows x86 and falls
//! back to the OS monotonic clock elsewhere. On Apple Silicon there is no
//! userspace cycle counter, so the effective resolution is the ~41.67 ns ARM
//! generic timer; [`Timer::resolution_ns`] measures and surfaces that floor so
//! the dashboard can label sub-resolution stages honestly.
use quanta::Clock;
use vstd::prelude::*;

verus! {

/// `quanta::Clock`, a source of raw counter readings.
#[verifier::external_type_specification]
#[verifier::external_body]
pub struct ExClock(Clock);

/// `Clock::new`: a clock on the best source this machine has.
#[verifier::external_body]
fn new_clock() -> Clock {
    Clock::new()
}

/// `Clock::raw`: the counter, now. Nothing is said of the reading, which the
/// machine decides.
#[verifier::external_body]
fn clock_raw(clock: &Clock) -> u64 {
    clock.raw()
}

/// The nanoseconds that `Clock::delta` makes of a positive number of ticks. A
/// clock carries the scale that it was calibrated to, so they are those of this
/// clock, whatever readings the ticks lie between.
pub uninterp spec fn ticks_to_ns(clock: Clock, ticks: u64) -> u64;

/// `Clock::delta`: the nanoseconds between two readings: 0 unless the second is
/// the larger, otherwise what this clock makes of the ticks between them.
#[verifier::external_body]
fn clock_delta(clock: &Clock, start: u64, end: u64) -> (r: u64)
    ensures
        r == if end <= start {
            0
        } else {
            ticks_to_ns(*clock, (end - start) as u64)
        },
{
    clock.delta(start, end).as_nanos() as u64
}

/// `Clock::clone`: another handle on the same source, calibrated to the same
/// scale, so that it makes the same of any number of ticks.
pub assume_specification[ <Clock as Clone>::clone ](clock: &Clock) -> (r: Clock)
    ensures
        forall|ticks: u64| #[trigger] ticks_to_ns(r, ticks) == ticks_to_ns(*clock, ticks),
;

/// The least positive interval of a series; `u64::MAX` if there is none.
pub open spec fn least_positive(deltas: Seq<u64>) -> u64
    decreases deltas.len(),
{
    if deltas.len() == 0 {
        u64::MAX
    } else {
        narrowed(least_positive(deltas.drop_last()), deltas.last())
    }
}

/// The smaller of a bound and a new interval, zero intervals apart.
pub open spec fn narrowed(min: u64, delta: u64) -> u64 {
    if 0 < delta < min {
        delta
    } else {
        min
    }
}

/// The resolution that a series of intervals shows: its least positive one, or
/// 1 if the clock never moved.
pub open spec fn resolution_of(deltas: Seq<u64>) -> u64 {
    if least_positive(deltas) == u64::MAX {
        1
    } else {
        least_positive(deltas)
    }
}

/// The number of intervals that a resolution is measured on.
pub const RESOLUTION_READS: u32 = 200_000;

/// Takes one more interval into a least positive interval.
pub fn narrow(min: u64, delta: u64) -> (r: u64)
    ensures
        r == narrowed(min, delta),
{
    if delta > 0 && delta < min {
        delta
    } else {
        min
    }
}

/// A monotonic clock used to stamp pipeline stage boundaries.
pub struct Timer {
    clock: Clock,
}

impl Clone for Timer {
    /// A timer that measures as this one does.
    fn clone(&self) -> (r: Timer)
        ensures
            forall|start: u64, end: u64| #[trigger]
                r.elapsed(start, end) == self.elapsed(start, end),
    {
        Timer { clock: self.clock.clone() }
    }
}

impl Default for Timer {
    fn default() -> Timer {
        Timer::new()
    }
}

impl Timer {
    /// The nanoseconds that a positive number of this timer's ticks take.
    pub closed spec fn ns(self, ticks: u64) -> u64 {
        ticks_to_ns(self.clock, ticks)
    }

    /// The nanoseconds between two readings of this timer. An empty or inverted
    /// interval is 0 long; otherwise the number of ticks in it decides.
    pub open spec fn elapsed(self, start: u64, end: u64) -> u64 {
        if end <= start {
            0
        } else {
            self.ns((end - start) as u64)
        }
    }

    /// The intervals between successive readings of this timer.
    pub open spec fn steps(self, readings: Seq<u64>) -> Seq<u64> {
        Seq::new(
            (readings.len() - 1) as nat,
            |i: int| self.elapsed(readings[i], readings[i + 1]),
        )
    }

    pub fn new() -> Timer {
        Timer { clock: new_clock() }
    }

    /// Read the raw counter (cheapest read). Stamp stage boundaries with this
    /// and convert deltas to ns off the hot path with [`Timer::delta_ns`].
    #[inline(always)]
    pub fn raw(&self) -> u64 {
        clock_raw(&self.clock)
    }

    /// Convert a raw `[start, end]` interval to nanoseconds. An empty or
    /// inverted interval is 0 long.
    #[inline]
    pub fn delta_ns(&self, start: u64, end: u64) -> (r: u64)
        ensures
            r == self.elapsed(start, end),
    {
        if end <= start {
            return 0;
        }
        clock_delta(&self.clock, start, end)
    }

    /// The resolution that successive readings show: the least positive interval
    /// between two of them, or 1 if the clock never moved.
    pub fn resolution_from(&self, readings: &Vec<u64>) -> (r: u64)
        requires
            readings@.len() >= 1,
        ensures
            r == resolution_of(self.steps(readings@)),
            r >= 1,
    {
        let mut min: u64 = u64::MAX;
        let mut i: usize = 1;
        assert(self.steps(readings@.take(1)) =~= Seq::empty());
        while i < readings.len()
            invariant
                1 <= i <= readings@.len(),
                min == least_positive(self.steps(readings@.take(i as int))),
            decreases readings@.len() - i,
        {
            let d: u64 = self.delta_ns(readings[i - 1], readings[i]);
            proof {
                let longer = self.steps(readings@.take(i + 1));
                assert(longer.last() == d);
                assert(longer.drop_last() =~= self.steps(readings@.take(i as int)));
            }
            min = narrow(min, d);
            i += 1;
        }
        proof {
            assert(readings@.take(i as int) =~= readings@);
            least_positive_is_seen(self.steps(readings@));
        }
        if min == u64::MAX {
            1
        } else {
            min
        }
    }

    /// Measure the effective timer resolution (smallest non-zero delta) in ns.
    /// On Apple Silicon this is ~42 ns; on x86 with a TSC it is a few ns.
    pub fn resolution_ns(&self) -> (r: u64)
        ensures
            exists|readings: Seq<u64>|
                readings.len() == RESOLUTION_READS + 1 && r == resolution_of(
                    #[trigger] self.steps(readings),
                ),
            r >= 1,
    {
        // Span well past the timer period so multiple ticks are observed.
        let count: usize = RESOLUTION_READS as usize + 1;
        let mut readings: Vec<u64> = Vec::with_capacity(count);
        while readings.len() < count
            invariant
                readings@.len() <= count,
            decreases count - readings@.len(),
        {
            readings.push(self.raw());
        }
        self.resolution_from(&readings)
    }
}

/// A measured resolution is positive, is no longer than any interval that was
/// seen to pass, and is one of them unless the clock never moved.
pub proof fn resolution_is_the_least_step(deltas: Seq<u64>, i: int)
    requires
        0 <= i < deltas.len(),
        0 < deltas[i] < u64::MAX,
    ensures
        0 < resolution_of(deltas) <= deltas[i],
        deltas.contains(resolution_of(deltas)),
{
    least_positive_bounds(deltas, i);
    least_positive_is_seen(deltas);
}

proof fn least_positive_bounds(deltas: Seq<u64>, i: int)
    requires
        0 <= i < deltas.len(),
        0 < deltas[i],
    ensures
        least_positive(deltas) <= deltas[i],
    decreases deltas.len(),
{
    if i < deltas.len() - 1 {
        least_positive_bounds(deltas.drop_last(), i);
    }
}

proof fn least_positive_is_seen(deltas: Seq<u64>)
    ensures
        least_positive(deltas) > 0,
        least_positive(deltas) < u64::MAX ==> deltas.contains(least_positive(deltas)),
    decreases deltas.len(),
{
    if deltas.len() > 0 {
        let front = deltas.drop_last();
        least_positive_is_seen(front);
        if least_positive(deltas) == deltas.last() {
            assert(deltas[deltas.len() - 1] == deltas.last());
        } else if least_positive(front) < u64::MAX {
            let j = choose|j: int| 0 <= j < front.len() && front[j] == least_positive(front);
            assert(deltas[j] == least_positive(front));
        }
    }
}

/// A clock that was never seen to move has a resolution of 1.
pub proof fn still_clocks_resolve_to_one(deltas: Seq<u64>)
    requires
        forall|i: int| 0 <= i < deltas.len() ==> #[trigger] deltas[i] == 0,
    ensures
        resolution_of(deltas) == 1,
    decreases deltas.len(),
{
    if deltas.len() > 0 {
        let front = deltas.drop_last();
        assert(deltas[deltas.len() - 1] == 0);
        assert forall|i: int| 0 <= i < front.len() implies #[trigger] front[i] == 0 by {
            assert(front[i] == deltas[i]);
        }
        still_clocks_resolve_to_one(front);
        least_positive_is_seen(front);
        if least_positive(front) < u64::MAX {
            let j = choose|j: int| 0 <= j < front.len() && front[j] == least_positive(front);
            assert(front[j] == 0);
        }
    }
}

/// Intervals are measured by their ticks: equally many take equally long, wherever
/// they start, and no ticks, or fewer, take no time.
pub proof fn equal_intervals_take_equally_long(t: Timer, a: u64, b: u64, c: u64, d: u64)
    requires
        b - a == d - c,
    ensures
        t.elapsed(a, b) == t.elapsed(c, d),
        b <= a ==> t.elapsed(a, b) == 0,
{
}

/// The steps between readings are one fewer than the readings, each from one to
/// the next.
pub proof fn steps_lie_between_readings(t: Timer, readings: Seq<u64>, i: int)
    requires
        0 <= i < readings.len() - 1,
    ensures
        t.steps(readings).len() == readings.len() - 1,
        t.steps(readings)[i] == t.elapsed(readings[i], readings[i + 1]),
{
}

} // verus!
