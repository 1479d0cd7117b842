//! Latency histograms: `hdrhistogram::Histogram` over 1 ns to 60 s.
//!
//! A histogram counts samples by level. Up to 2047 ns every value is a level of
//! its own; above, a level is 2, 4, 8, ... ns wide, so that three significant
//! digits are kept. What a histogram holds is named by `samples_of`, the
//! multiset of the levels recorded.
use hdrhistogram::Histogram;
use vstd::multiset::Multiset;
use vstd::prelude::*;

verus! {

/// The smallest value worth telling apart from 0.
pub const HIST_LOW: u64 = 1;

/// The largest value that is recorded as itself: 60 s.
pub const HIST_HIGH: u64 = 60_000_000_000;

/// The decimal digits that a recorded value keeps.
pub const HIST_SIGFIG: u8 = 3;

/// The number of values that share a value's level.
pub open spec fn level_width(v: int) -> int
    decreases v,
{
    if v < 2048 {
        1
    } else {
        2 * level_width(v / 2)
    }
}

/// A value's level: the lowest value that it is counted together with.
pub open spec fn level(v: int) -> int
    decreases v,
{
    if v < 2048 {
        v
    } else {
        2 * level(v / 2)
    }
}

/// The highest value that a value is counted together with.
pub open spec fn level_top(v: int) -> int {
    level(v) + level_width(v) - 1
}

/// The levels recorded for a value that took longer than the expected interval
/// between samples: its own, and those of the samples that would have been
/// taken meanwhile, one interval apart, down to the interval.
pub open spec fn backfilled(value: int, interval: int) -> Multiset<u64>
    decreases value,
{
    if 0 < interval <= value {
        Multiset::singleton(level(value) as u64).add(
            if value - interval >= interval {
                backfilled(value - interval, interval)
            } else {
                Multiset::empty()
            },
        )
    } else {
        Multiset::singleton(level(value) as u64)
    }
}

/// Whether `l` is the largest level among samples.
pub open spec fn is_peak(samples: Multiset<u64>, l: u64) -> bool {
    samples.contains(l) && forall|m: u64| #[trigger] samples.contains(m) ==> m <= l
}

/// The top of the largest level among samples; 0 if there are none.
pub open spec fn peak(samples: Multiset<u64>) -> u64 {
    if samples.len() == 0 {
        0
    } else {
        level_top((choose|l: u64| is_peak(samples, l)) as int) as u64
    }
}

/// Whether `r` is the top of the largest level among samples; 0 if there are
/// none.
pub open spec fn is_highest(samples: Multiset<u64>, r: u64) -> bool {
    if samples.len() == 0 {
        r == 0
    } else {
        exists|l: u64| is_peak(samples, l) && r == level_top(l as int)
    }
}

/// Whether `r` is the top of the level of some sample; 0 if there are none.
pub open spec fn is_some_sample(samples: Multiset<u64>, r: u64) -> bool {
    if samples.len() == 0 {
        r == 0
    } else {
        exists|l: u64| #[trigger] samples.contains(l) && r == level_top(l as int)
    }
}

/// Whether no lower percentile of samples exceeds `r`.
pub open spec fn bounds_lower_percentiles(samples: Multiset<u64>, percent: u8, r: u64) -> bool {
    forall|lower: u8| 0 < lower <= percent ==> #[trigger] percentile_of(samples, lower) <= r
}

/// `hdrhistogram::Histogram<u64>` with the bounds above, not resizing itself.
#[verifier::external_body]
#[derive(Debug)]
pub struct LatencyHistogram {
    inner: Histogram<u64>,
}

/// The levels of the samples in a histogram.
pub uninterp spec fn samples_of(h: LatencyHistogram) -> Multiset<u64>;

/// The value that `percent` of the samples are at or below, as
/// `Histogram::value_at_percentile` computes it from the samples' levels.
pub uninterp spec fn percentile_of(samples: Multiset<u64>, percent: u8) -> u64;

/// `Histogram::new_with_bounds`: an empty histogram. It succeeds on these
/// bounds: the lower is at least 1, the upper at least twice the lower, and the
/// digits are at most 5.
#[verifier::external_body]
pub(crate) fn new_histogram(low: u64, high: u64, sigfig: u8) -> (r: LatencyHistogram)
    requires
        low == HIST_LOW,
        high == HIST_HIGH,
        sigfig == HIST_SIGFIG,
    ensures
        samples_of(r) == Multiset::<u64>::empty(),
{
    LatencyHistogram { inner: Histogram::new_with_bounds(low, high, sigfig).unwrap() }
}

/// `Histogram::record`: counts a value at its level. It succeeds on every value
/// within the bounds.
#[verifier::external_body]
pub(crate) fn histogram_record(h: &mut LatencyHistogram, value: u64) -> (r: bool)
    requires
        value <= HIST_HIGH,
    ensures
        r,
        samples_of(*final(h)) == samples_of(*old(h)).insert(level(value as int) as u64),
{
    h.inner.record(value).is_ok()
}

/// `Histogram::record_correct`: counts a value and, where it exceeds the
/// expected interval, the values that the wait left out: value less one
/// interval, less two, and so on down to the interval. It succeeds on every
/// value within the bounds.
#[verifier::external_body]
pub(crate) fn histogram_record_correct(
    h: &mut LatencyHistogram,
    value: u64,
    interval: u64,
) -> (r: bool)
    requires
        value <= HIST_HIGH,
        interval > 0,
    ensures
        r,
        samples_of(*final(h)) == samples_of(*old(h)).add(
            backfilled(value as int, interval as int),
        ),
{
    h.inner.record_correct(value, interval).is_ok()
}

/// `Histogram::add`: counts the samples of another histogram with the same
/// bounds. It succeeds on every such histogram.
#[verifier::external_body]
pub(crate) fn histogram_add(h: &mut LatencyHistogram, other: &LatencyHistogram) -> (r: bool)
    ensures
        r,
        samples_of(*final(h)) == samples_of(*old(h)).add(samples_of(*other)),
{
    h.inner.add(&other.inner).is_ok()
}

/// `Histogram::len`: the number of samples; the count stays at `u64::MAX` when
/// it gets there.
#[verifier::external_body]
pub(crate) fn histogram_len(h: &LatencyHistogram) -> (r: u64)
    ensures
        r == if samples_of(*h).len() < u64::MAX {
            samples_of(*h).len() as u64
        } else {
            u64::MAX
        },
{
    h.inner.len()
}

/// `Histogram::max`: the highest value that the largest sample is counted
/// together with; 0 if there is no sample.
#[verifier::external_body]
pub(crate) fn histogram_max(h: &LatencyHistogram) -> (r: u64)
    ensures
        is_highest(samples_of(*h), r),
{
    h.inner.max()
}

/// `Histogram::value_at_percentile`: named by `percentile_of`. It is 0 if there
/// is no sample; otherwise the highest value that some sample is counted
/// together with. It does not fall as the percentage rises. A histogram that has
/// counted more than `u64::MAX` samples has no defined percentiles.
#[verifier::external_body]
pub(crate) fn histogram_percentile(h: &LatencyHistogram, percent: u8) -> (r: u64)
    requires
        samples_of(*h).len() <= u64::MAX,
        0 < percent < 100,
    ensures
        r == percentile_of(samples_of(*h), percent),
        is_some_sample(samples_of(*h), r),
        bounds_lower_percentiles(samples_of(*h), percent, r),
{
    h.inner.value_at_percentile(percent.into())
}

/// A value lies within its level, a level is that of its own lowest value, and
/// no level is wider than a thousandth of its values unless it holds only one:
/// three significant digits are kept.
pub proof fn levels_keep_three_digits(v: int)
    requires
        v >= 0,
    ensures
        level(v) <= v <= level_top(v),
        level_width(v) >= 1,
        level_width(v) == 1 || 1000 * level_width(v) <= v,
        level(level(v)) == level(v),
        level_width(level(v)) == level_width(v),
    decreases v,
{
    levels_are_wide_enough(v);
    level_of_level(v);
}

proof fn levels_are_wide_enough(v: int)
    requires
        v >= 0,
    ensures
        level(v) <= v <= level_top(v),
        level_width(v) >= 1,
        level_width(v) == 1 || 1024 * level_width(v) <= v,
        v >= 2048 ==> level(v) >= 2048,
    decreases v,
{
    if v >= 2048 {
        levels_are_wide_enough(v / 2);
        if v / 2 < 2048 {
            assert(level(v / 2) == v / 2);
        }
    }
}

proof fn level_of_level(v: int)
    requires
        v >= 0,
    ensures
        level(level(v)) == level(v),
        level_width(level(v)) == level_width(v),
    decreases v,
{
    if v >= 2048 {
        levels_are_wide_enough(v);
        level_of_level(v / 2);
        assert(level(v) / 2 == level(v / 2));
    }
}

/// Correcting for a wait records as many samples as there were intervals in it:
/// one for a value below the interval, otherwise value / interval.
pub proof fn backfill_counts_the_intervals(value: int, interval: int)
    requires
        value >= 0,
        interval > 0,
    ensures
        backfilled(value, interval).len() == if value < interval {
            1
        } else {
            value / interval
        },
    decreases value,
{
    if value >= interval {
        let rest = value - interval;
        assert(rest / interval == value / interval - 1) by (nonlinear_arith)
            requires
                rest == value - interval,
                interval > 0,
                value >= interval,
        ;
        if rest >= interval {
            backfill_counts_the_intervals(rest, interval);
        } else {
            assert(rest / interval == 0) by (nonlinear_arith)
                requires
                    0 <= rest < interval,
            ;
        }
    }
}

/// Larger values have tops at least as high.
pub proof fn tops_are_monotone(a: int, b: int)
    requires
        0 <= a <= b,
    ensures
        level_top(a) <= level_top(b),
    decreases b,
{
    levels_are_wide_enough(a);
    levels_are_wide_enough(b);
    if a >= 2048 {
        tops_are_monotone(a / 2, b / 2);
    }
}

/// The largest level is found: samples that are not empty have exactly one, and
/// `peak` is its top.
pub proof fn peak_is_unique(samples: Multiset<u64>, l: u64)
    requires
        is_peak(samples, l),
        level_top(l as int) <= u64::MAX,
    ensures
        samples.len() > 0,
        peak(samples) == level_top(l as int),
{
    let c = choose|c: u64| is_peak(samples, c);
    assert(is_peak(samples, c));
    assert(c == l);
    if samples.len() == 0 {
        vstd::multiset::lemma_multiset_empty_len(samples);
    }
    levels_keep_three_digits(l as int);
}

} // verus!
