//! Per-stage latency measurement.
//!
//! The hot thread records nanosecond stage deltas into HdrHistograms (the
//! end-to-end "total" stages use `record_correct` to defend against coordinated
//! omission under open-loop load). A reporter periodically swaps out the
//! interval histograms, merges them into a cumulative set, computes p50/p95/p99,
//! and hands out an immutable [`MetricsSnapshot`] for the dashboard to serve.
//! Sharing a sink between threads, and rates and drawdowns in floating point,
//! are the caller's.
use vstd::multiset::Multiset;
use vstd::prelude::*;

pub mod dashboard;
pub mod histogram;

use crate::gateway::next_count;
use crate::metrics::histogram::{
    backfill_counts_the_intervals, backfilled, histogram_add, histogram_len, histogram_max,
    histogram_percentile, histogram_record, histogram_record_correct, is_peak, level, level_top,
    levels_keep_three_digits, new_histogram, peak, peak_is_unique, percentile_of, samples_of,
    tops_are_monotone, LatencyHistogram, HIST_HIGH, HIST_LOW, HIST_SIGFIG,
};

verus! {

/// The measured stages, in dashboard display order.
pub const STAGE_NAMES: [&'static str; 7] = [
    "decode",
    "book",
    "signal",
    "risk",
    "gateway",
    "tick_to_signal",
    "tick_to_order",
];

/// A value brought within the histograms' bounds.
pub open spec fn clamped(v: u64) -> u64 {
    if v < HIST_LOW {
        HIST_LOW
    } else if v > HIST_HIGH {
        HIST_HIGH
    } else {
        v
    }
}

/// An expected interval of at least 1 ns.
pub open spec fn spacing(expected_interval_ns: u64) -> u64 {
    if expected_interval_ns < 1 {
        1
    } else {
        expected_interval_ns
    }
}

fn clamp(v: u64) -> (r: u64)
    ensures
        r == clamped(v),
{
    if v < HIST_LOW {
        HIST_LOW
    } else if v > HIST_HIGH {
        HIST_HIGH
    } else {
        v
    }
}

/// One tick's stage timings. The `risk`/`gateway`/`tick_to_order` fields are
/// present only on ticks that produced an order candidate / a sent order.
#[derive(Debug, Clone, Copy, PartialEq, Eq, Structural)]
pub struct StageSample {
    pub decode_ns: u64,
    pub book_ns: u64,
    pub signal_ns: u64,
    pub tick_to_signal_ns: u64,
    pub risk_ns: Option<u64>,
    pub gateway_ns: Option<u64>,
    pub tick_to_order_ns: Option<u64>,
}

impl Default for StageSample {
    fn default() -> (r: StageSample)
        ensures
            r == (StageSample {
                decode_ns: 0,
                book_ns: 0,
                signal_ns: 0,
                tick_to_signal_ns: 0,
                risk_ns: None,
                gateway_ns: None,
                tick_to_order_ns: None,
            }),
    {
        StageSample {
            decode_ns: 0,
            book_ns: 0,
            signal_ns: 0,
            tick_to_signal_ns: 0,
            risk_ns: None,
            gateway_ns: None,
            tick_to_order_ns: None,
        }
    }
}

/// Percentile summary for one stage over a window.
#[derive(Debug, Clone, Copy, PartialEq, Eq, Structural)]
pub struct StageStat {
    pub p50: u64,
    pub p95: u64,
    pub p99: u64,
    pub max: u64,
    pub count: u64,
}

impl Default for StageStat {
    fn default() -> (r: StageStat)
        ensures
            r == no_stat(),
    {
        StageStat { p50: 0, p95: 0, p99: 0, max: 0, count: 0 }
    }
}

/// The summary of no samples.
pub open spec fn no_stat() -> StageStat {
    StageStat { p50: 0, p95: 0, p99: 0, max: 0, count: 0 }
}

impl StageStat {
    /// The percentiles rise to the maximum, and a window without samples shows
    /// zeros.
    pub open spec fn is_ordered(self) -> bool {
        &&& self.p50 <= self.p95 <= self.p99 <= self.max
        &&& self.count == 0 ==> self == no_stat()
    }
}

/// The summary of samples.
pub open spec fn stat_of(samples: Multiset<u64>) -> StageStat {
    StageStat {
        p50: percentile_of(samples, 50),
        p95: percentile_of(samples, 95),
        p99: percentile_of(samples, 99),
        max: peak(samples),
        count: samples.len() as u64,
    }
}

/// Whether the number of samples is below the ceiling of their counter.
pub open spec fn is_countable(samples: Multiset<u64>) -> bool {
    samples.len() < u64::MAX
}

fn stat(h: &LatencyHistogram) -> (r: StageStat)
    requires
        is_countable(samples_of(*h)),
    ensures
        r == stat_of(samples_of(*h)),
        r.is_ordered(),
{
    let p50: u64 = histogram_percentile(h, 50);
    let p95: u64 = histogram_percentile(h, 95);
    let p99: u64 = histogram_percentile(h, 99);
    let max: u64 = histogram_max(h);
    let count: u64 = histogram_len(h);
    proof {
        let samples = samples_of(*h);
        if samples.len() > 0 {
            let m = choose|l: u64| is_peak(samples, l) && max == level_top(l as int);
            peak_is_unique(samples, m);
            let l = choose|l: u64| #[trigger] samples.contains(l) && p99 == level_top(l as int);
            tops_are_monotone(l as int, m as int);
        }
    }
    StageStat { p50, p95, p99, max, count }
}

/// The samples of each stage.
#[verifier::ext_equal]
pub struct StageSamples {
    pub decode: Multiset<u64>,
    pub book: Multiset<u64>,
    pub signal: Multiset<u64>,
    pub risk: Multiset<u64>,
    pub gateway: Multiset<u64>,
    pub tick_to_signal: Multiset<u64>,
    pub tick_to_order: Multiset<u64>,
}

/// The level at which a stage timing is counted.
pub open spec fn recorded_level(v: u64) -> u64 {
    level(clamped(v) as int) as u64
}

/// A stage's samples with one more timing, if there is one.
pub open spec fn with_timing(samples: Multiset<u64>, v: Option<u64>) -> Multiset<u64> {
    match v {
        Some(ns) => samples.insert(recorded_level(ns)),
        None => samples,
    }
}

/// An end-to-end stage's samples with one more timing, if there is one, and the
/// samples that it kept from being taken.
pub open spec fn with_corrected(
    samples: Multiset<u64>,
    v: Option<u64>,
    expected_interval_ns: u64,
) -> Multiset<u64> {
    match v {
        Some(ns) => samples.add(backfilled(clamped(ns) as int, spacing(expected_interval_ns) as int)),
        None => samples,
    }
}

impl StageSamples {
    pub open spec fn none() -> StageSamples {
        StageSamples {
            decode: Multiset::empty(),
            book: Multiset::empty(),
            signal: Multiset::empty(),
            risk: Multiset::empty(),
            gateway: Multiset::empty(),
            tick_to_signal: Multiset::empty(),
            tick_to_order: Multiset::empty(),
        }
    }

    /// The samples after one tick.
    pub open spec fn with(self, s: StageSample, expected_interval_ns: u64) -> StageSamples {
        StageSamples {
            decode: with_timing(self.decode, Some(s.decode_ns)),
            book: with_timing(self.book, Some(s.book_ns)),
            signal: with_timing(self.signal, Some(s.signal_ns)),
            risk: with_timing(self.risk, s.risk_ns),
            gateway: with_timing(self.gateway, s.gateway_ns),
            tick_to_signal: with_corrected(
                self.tick_to_signal,
                Some(s.tick_to_signal_ns),
                expected_interval_ns,
            ),
            tick_to_order: with_corrected(
                self.tick_to_order,
                s.tick_to_order_ns,
                expected_interval_ns,
            ),
        }
    }

    /// The samples of two windows together.
    pub open spec fn plus(self, other: StageSamples) -> StageSamples {
        StageSamples {
            decode: self.decode.add(other.decode),
            book: self.book.add(other.book),
            signal: self.signal.add(other.signal),
            risk: self.risk.add(other.risk),
            gateway: self.gateway.add(other.gateway),
            tick_to_signal: self.tick_to_signal.add(other.tick_to_signal),
            tick_to_order: self.tick_to_order.add(other.tick_to_order),
        }
    }

    /// Every stage's number of samples is below the ceiling of its counter.
    pub open spec fn are_countable(self) -> bool {
        &&& is_countable(self.decode)
        &&& is_countable(self.book)
        &&& is_countable(self.signal)
        &&& is_countable(self.risk)
        &&& is_countable(self.gateway)
        &&& is_countable(self.tick_to_signal)
        &&& is_countable(self.tick_to_order)
    }

    /// The summaries of all stages, in display order.
    pub open spec fn stats(self) -> Seq<StageStat> {
        seq![
            stat_of(self.decode),
            stat_of(self.book),
            stat_of(self.signal),
            stat_of(self.risk),
            stat_of(self.gateway),
            stat_of(self.tick_to_signal),
            stat_of(self.tick_to_order),
        ]
    }
}

/// Whether named summaries are those of the stages, in display order and each
/// under its name.
pub open spec fn are_stats(r: Seq<(&'static str, StageStat)>, samples: StageSamples) -> bool {
    &&& r.len() == 7
    &&& forall|i: int|
        0 <= i < 7 ==> (#[trigger] r[i]).0 == STAGE_NAMES@[i] && r[i].1 == samples.stats()[i]
            && r[i].1.is_ordered()
}

/// One histogram per stage.
#[derive(Debug)]
pub struct Histos {
    decode: LatencyHistogram,
    book: LatencyHistogram,
    signal: LatencyHistogram,
    risk: LatencyHistogram,
    gateway: LatencyHistogram,
    tick_to_signal: LatencyHistogram,
    tick_to_order: LatencyHistogram,
}

impl View for Histos {
    type V = StageSamples;

    closed spec fn view(&self) -> StageSamples {
        StageSamples {
            decode: samples_of(self.decode),
            book: samples_of(self.book),
            signal: samples_of(self.signal),
            risk: samples_of(self.risk),
            gateway: samples_of(self.gateway),
            tick_to_signal: samples_of(self.tick_to_signal),
            tick_to_order: samples_of(self.tick_to_order),
        }
    }
}

fn empty_histogram() -> (r: LatencyHistogram)
    ensures
        samples_of(r) == Multiset::<u64>::empty(),
{
    new_histogram(HIST_LOW, HIST_HIGH, HIST_SIGFIG)
}

/// Whether two counts together stay below the ceiling of a counter.
fn stays_countable(a: &LatencyHistogram, b: &LatencyHistogram) -> (r: bool)
    ensures
        r == is_countable(samples_of(*a).add(samples_of(*b))),
{
    let x: u64 = histogram_len(a);
    let y: u64 = histogram_len(b);
    x < u64::MAX && y < u64::MAX && y < u64::MAX - x
}

impl Histos {
    pub fn new() -> (r: Histos)
        ensures
            r@ == StageSamples::none(),
    {
        Histos {
            decode: empty_histogram(),
            book: empty_histogram(),
            signal: empty_histogram(),
            risk: empty_histogram(),
            gateway: empty_histogram(),
            tick_to_signal: empty_histogram(),
            tick_to_order: empty_histogram(),
        }
    }

    /// Record one tick's stage timings.
    pub fn record(&mut self, s: &StageSample, expected_interval_ns: u64)
        ensures
            final(self)@ == old(self)@.with(*s, expected_interval_ns),
    {
        let ei: u64 = if expected_interval_ns < 1 {
            1
        } else {
            expected_interval_ns
        };
        histogram_record(&mut self.decode, clamp(s.decode_ns));
        histogram_record(&mut self.book, clamp(s.book_ns));
        histogram_record(&mut self.signal, clamp(s.signal_ns));
        // End-to-end stages correct for coordinated omission.
        histogram_record_correct(&mut self.tick_to_signal, clamp(s.tick_to_signal_ns), ei);
        if let Some(v) = s.risk_ns {
            histogram_record(&mut self.risk, clamp(v));
        }
        if let Some(v) = s.gateway_ns {
            histogram_record(&mut self.gateway, clamp(v));
        }
        if let Some(v) = s.tick_to_order_ns {
            histogram_record_correct(&mut self.tick_to_order, clamp(v), ei);
        }
    }

    /// Merge another set of histograms into this one.
    pub fn add(&mut self, other: &Histos)
        ensures
            final(self)@ == old(self)@.plus(other@),
    {
        histogram_add(&mut self.decode, &other.decode);
        histogram_add(&mut self.book, &other.book);
        histogram_add(&mut self.signal, &other.signal);
        histogram_add(&mut self.risk, &other.risk);
        histogram_add(&mut self.gateway, &other.gateway);
        histogram_add(&mut self.tick_to_signal, &other.tick_to_signal);
        histogram_add(&mut self.tick_to_order, &other.tick_to_order);
    }

    /// Whether this set, with another merged into it, can still be summarized.
    pub fn can_merge(&self, other: &Histos) -> (r: bool)
        ensures
            r == self@.plus(other@).are_countable(),
    {
        stays_countable(&self.decode, &other.decode) && stays_countable(&self.book, &other.book)
            && stays_countable(&self.signal, &other.signal) && stays_countable(
            &self.risk,
            &other.risk,
        ) && stays_countable(&self.gateway, &other.gateway) && stays_countable(
            &self.tick_to_signal,
            &other.tick_to_signal,
        ) && stays_countable(&self.tick_to_order, &other.tick_to_order)
    }

    /// The summary of each stage, in display order.
    pub fn stats(&self) -> (r: Vec<(&'static str, StageStat)>)
        requires
            self@.are_countable(),
        ensures
            are_stats(r@, self@),
    {
        let mut r: Vec<(&'static str, StageStat)> = Vec::with_capacity(7);
        r.push((STAGE_NAMES[0], stat(&self.decode)));
        r.push((STAGE_NAMES[1], stat(&self.book)));
        r.push((STAGE_NAMES[2], stat(&self.signal)));
        r.push((STAGE_NAMES[3], stat(&self.risk)));
        r.push((STAGE_NAMES[4], stat(&self.gateway)));
        r.push((STAGE_NAMES[5], stat(&self.tick_to_signal)));
        r.push((STAGE_NAMES[6], stat(&self.tick_to_order)));
        r
    }
}

/// What a metrics sink holds.
#[verifier::ext_equal]
pub struct MetricsState {
    pub samples: StageSamples,
    pub ticks: u64,
    pub orders: u64,
    pub rejects: u64,
    pub drops: u64,
    /// Latest aggregate signed net position (a gauge, last-write-wins).
    pub position: i64,
    pub expected_interval_ns: u64,
}

impl MetricsState {
    /// A sink that has recorded nothing.
    pub open spec fn fresh(expected_interval_ns: u64) -> MetricsState {
        MetricsState {
            samples: StageSamples::none(),
            ticks: 0,
            orders: 0,
            rejects: 0,
            drops: 0,
            position: 0,
            expected_interval_ns,
        }
    }

    /// The sink after a tick: its timings are recorded and the tick is counted.
    pub open spec fn recorded(self, s: StageSample) -> MetricsState {
        MetricsState {
            samples: self.samples.with(s, self.expected_interval_ns),
            ticks: next_count(self.ticks),
            ..self
        }
    }

    /// The sink after a sent order, which left a net position.
    pub open spec fn ordered(self, net: i64) -> MetricsState {
        MetricsState { orders: next_count(self.orders), position: net, ..self }
    }

    /// The sink after a rejected order.
    pub open spec fn rejected(self) -> MetricsState {
        MetricsState { rejects: next_count(self.rejects), ..self }
    }

    /// The sink with its interval taken out.
    pub open spec fn drained(self) -> MetricsState {
        MetricsState { samples: StageSamples::none(), ..self }
    }
}

/// Hot-path recorder of stage timings and counts.
#[derive(Debug)]
pub struct MetricsSink {
    histos: Histos,
    ticks: u64,
    orders: u64,
    rejects: u64,
    drops: u64,
    position: i64,
    expected_interval_ns: u64,
}

impl View for MetricsSink {
    type V = MetricsState;

    closed spec fn view(&self) -> MetricsState {
        MetricsState {
            samples: self.histos@,
            ticks: self.ticks,
            orders: self.orders,
            rejects: self.rejects,
            drops: self.drops,
            position: self.position,
            expected_interval_ns: self.expected_interval_ns,
        }
    }
}

impl MetricsSink {
    /// Record one tick's stage timings.
    pub fn record(&mut self, s: &StageSample)
        ensures
            final(self)@ == old(self)@.recorded(*s),
    {
        self.ticks = self.ticks.wrapping_add(1);
        self.histos.record(s, self.expected_interval_ns);
    }

    /// Take the interval out: hands over what was recorded since the last time,
    /// with the counts as they are, and starts a new interval.
    pub fn take_interval(&mut self) -> (r: MetricsSink)
        ensures
            r@ == old(self)@,
            final(self)@ == old(self)@.drained(),
    {
        let mut histos = Histos::new();
        std::mem::swap(&mut self.histos, &mut histos);
        MetricsSink {
            histos,
            ticks: self.ticks,
            orders: self.orders,
            rejects: self.rejects,
            drops: self.drops,
            position: self.position,
            expected_interval_ns: self.expected_interval_ns,
        }
    }

    pub fn inc_order(&mut self)
        ensures
            final(self)@ == (MetricsState { orders: next_count(old(self)@.orders), ..old(self)@ }),
    {
        self.orders = self.orders.wrapping_add(1);
    }

    /// Publish the latest aggregate signed net position (a gauge).
    pub fn set_position(&mut self, net: i64)
        ensures
            final(self)@ == (MetricsState { position: net, ..old(self)@ }),
    {
        self.position = net;
    }

    pub fn inc_reject(&mut self)
        ensures
            final(self)@ == old(self)@.rejected(),
    {
        self.rejects = self.rejects.wrapping_add(1);
    }

    pub fn inc_drop(&mut self)
        ensures
            final(self)@ == (MetricsState { drops: next_count(old(self)@.drops), ..old(self)@ }),
    {
        self.drops = self.drops.wrapping_add(1);
    }
}

/// An immutable snapshot handed to the dashboard each interval.
#[derive(Debug, Clone)]
pub struct MetricsSnapshot {
    pub interval: Vec<(&'static str, StageStat)>,
    pub cumulative: Vec<(&'static str, StageStat)>,
    /// Ticks since the snapshot before.
    pub new_ticks: u64,
    pub ticks: u64,
    pub orders: u64,
    pub rejects: u64,
    pub drops: u64,
    pub timer_resolution_ns: u64,
    /// Aggregate signed net position across all instruments.
    pub net_position: i64,
}

impl Default for MetricsSnapshot {
    fn default() -> (r: MetricsSnapshot)
        ensures
            r.interval@.len() == 0,
            r.cumulative@.len() == 0,
            r.new_ticks == 0,
            r.ticks == 0,
            r.orders == 0,
            r.rejects == 0,
            r.drops == 0,
            r.timer_resolution_ns == 0,
            r.net_position == 0,
    {
        MetricsSnapshot {
            interval: Vec::new(),
            cumulative: Vec::new(),
            new_ticks: 0,
            ticks: 0,
            orders: 0,
            rejects: 0,
            drops: 0,
            timer_resolution_ns: 0,
            net_position: 0,
        }
    }
}

/// What a reporter holds.
#[verifier::ext_equal]
pub struct ReporterState {
    pub cumulative: StageSamples,
    pub timer_resolution_ns: u64,
    pub last_ticks: u64,
}

impl ReporterState {
    /// A reporter that has merged nothing.
    pub open spec fn fresh(timer_resolution_ns: u64) -> ReporterState {
        ReporterState { cumulative: StageSamples::none(), timer_resolution_ns, last_ticks: 0 }
    }

    /// The reporter after an interval was merged.
    pub open spec fn merged(self, m: MetricsState) -> ReporterState {
        ReporterState {
            cumulative: self.cumulative.plus(m.samples),
            last_ticks: m.ticks,
            ..self
        }
    }
}

/// Whether a snapshot shows an interval and the run up to it: the summaries of
/// the interval and of everything so far, the counts, and the ticks since the
/// snapshot before.
pub open spec fn is_snapshot(r: MetricsSnapshot, before: ReporterState, m: MetricsState) -> bool {
    &&& are_stats(r.interval@, m.samples)
    &&& are_stats(r.cumulative@, before.cumulative.plus(m.samples))
    &&& r.new_ticks == ticks_since(before.last_ticks, m.ticks)
    &&& r.ticks == m.ticks
    &&& r.orders == m.orders
    &&& r.rejects == m.rejects
    &&& r.drops == m.drops
    &&& r.timer_resolution_ns == before.timer_resolution_ns
    &&& r.net_position == m.position
}

/// Off-hot-path aggregator: swaps interval histograms, accumulates a cumulative
/// set, and builds snapshots.
#[derive(Debug)]
pub struct Reporter {
    cumulative: Histos,
    timer_resolution_ns: u64,
    last_ticks: u64,
}

impl View for Reporter {
    type V = ReporterState;

    closed spec fn view(&self) -> ReporterState {
        ReporterState {
            cumulative: self.cumulative@,
            timer_resolution_ns: self.timer_resolution_ns,
            last_ticks: self.last_ticks,
        }
    }
}

/// The ticks since a count; none if the count was the larger.
pub open spec fn ticks_since(last: u64, ticks: u64) -> u64 {
    if ticks < last {
        0
    } else {
        (ticks - last) as u64
    }
}

impl Reporter {
    /// Whether a sink's interval can be merged and still be summarized.
    pub fn can_snapshot(&self, sink: &MetricsSink) -> (r: bool)
        ensures
            r == self@.cumulative.plus(sink@.samples).are_countable(),
    {
        self.cumulative.can_merge(&sink.histos)
    }

    /// Build a snapshot of an interval that was taken out of a sink, and update
    /// cumulative stats.
    pub fn report(&mut self, interval: &MetricsSink) -> (r: MetricsSnapshot)
        requires
            old(self)@.cumulative.plus(interval@.samples).are_countable(),
        ensures
            final(self)@ == old(self)@.merged(interval@),
            is_snapshot(r, old(self)@, interval@),
    {
        self.cumulative.add(&interval.histos);
        let new_ticks: u64 = interval.ticks.saturating_sub(self.last_ticks);
        self.last_ticks = interval.ticks;
        MetricsSnapshot {
            interval: interval.histos.stats(),
            cumulative: self.cumulative.stats(),
            new_ticks,
            ticks: interval.ticks,
            orders: interval.orders,
            rejects: interval.rejects,
            drops: interval.drops,
            timer_resolution_ns: self.timer_resolution_ns,
            net_position: interval.position,
        }
    }

    /// As `report`, where the merged counts stay below their ceiling; otherwise
    /// `None`, with nothing merged.
    pub fn try_report(&mut self, interval: &MetricsSink) -> (r: Option<MetricsSnapshot>)
        ensures
            r is Some <==> old(self)@.cumulative.plus(interval@.samples).are_countable(),
            r is None ==> final(self)@ == old(self)@,
            r is Some ==> final(self)@ == old(self)@.merged(interval@) && is_snapshot(
                r->0,
                old(self)@,
                interval@,
            ),
    {
        if self.can_snapshot(interval) {
            Some(self.report(interval))
        } else {
            None
        }
    }

    /// Build a snapshot of the most recent interval and update cumulative stats.
    pub fn snapshot(&mut self, sink: &mut MetricsSink) -> (r: MetricsSnapshot)
        requires
            old(self)@.cumulative.plus(old(sink)@.samples).are_countable(),
        ensures
            final(sink)@ == old(sink)@.drained(),
            final(self)@ == old(self)@.merged(old(sink)@),
            is_snapshot(r, old(self)@, old(sink)@),
    {
        let interval = sink.take_interval();
        self.report(&interval)
    }

    /// The cumulative per-stage stats over the whole run (for a final report).
    pub fn cumulative_stats(&self) -> (r: Vec<(&'static str, StageStat)>)
        requires
            self@.cumulative.are_countable(),
        ensures
            are_stats(r@, self@.cumulative),
    {
        self.cumulative.stats()
    }
}

/// Create a `(MetricsSink, Reporter)` pair.
///
/// `expected_interval_ns` is the open-loop inter-arrival time (1e9 / rate) used
/// for coordinated-omission correction on the end-to-end stages.
pub fn new_metrics(expected_interval_ns: u64, timer_resolution_ns: u64) -> (r: (
    MetricsSink,
    Reporter,
))
    ensures
        r.0@ == MetricsState::fresh(expected_interval_ns),
        r.1@ == ReporterState::fresh(timer_resolution_ns),
{
    let sink = MetricsSink {
        histos: Histos::new(),
        ticks: 0,
        orders: 0,
        rejects: 0,
        drops: 0,
        position: 0,
        expected_interval_ns,
    };
    let reporter = Reporter { cumulative: Histos::new(), timer_resolution_ns, last_ticks: 0 };
    (sink, reporter)
}

/// A tick is counted once at each of decode, book and signal, once at risk and
/// at gateway if it got there, and at each end-to-end total that it reached at
/// least once; to the signal more than once exactly when it took two expected
/// intervals or longer.
pub proof fn every_tick_is_counted(m: MetricsState, s: StageSample)
    ensures
        m.recorded(s).samples.decode.len() == m.samples.decode.len() + 1,
        m.recorded(s).samples.book.len() == m.samples.book.len() + 1,
        m.recorded(s).samples.signal.len() == m.samples.signal.len() + 1,
        m.recorded(s).samples.risk.len() == m.samples.risk.len() + if s.risk_ns is Some {
            1nat
        } else {
            0nat
        },
        m.recorded(s).samples.gateway.len() == m.samples.gateway.len() + if s.gateway_ns is Some {
            1nat
        } else {
            0nat
        },
        m.recorded(s).samples.tick_to_signal.len() >= m.samples.tick_to_signal.len() + 1,
        m.recorded(s).samples.tick_to_signal.len() > m.samples.tick_to_signal.len() + 1
            <==> clamped(s.tick_to_signal_ns) >= 2 * spacing(m.expected_interval_ns),
        s.tick_to_order_ns is None ==> m.recorded(s).samples.tick_to_order
            == m.samples.tick_to_order,
        s.tick_to_order_ns is Some ==> m.recorded(s).samples.tick_to_order.len()
            >= m.samples.tick_to_order.len() + 1,
{
    let v = clamped(s.tick_to_signal_ns) as int;
    let e = spacing(m.expected_interval_ns) as int;
    backfill_counts_the_intervals(v, e);
    if s.tick_to_order_ns is Some {
        let w = clamped(s.tick_to_order_ns->0) as int;
        backfill_counts_the_intervals(w, e);
        if w >= e {
            assert(w / e >= 1) by (nonlinear_arith)
                requires
                    w >= e,
                    e > 0,
            ;
        }
    }
    if v >= e {
        assert(v / e >= 1 && (v / e >= 2 <==> v >= 2 * e)) by (nonlinear_arith)
            requires
                v >= e,
                e > 0,
        ;
    }
}

/// Whether the per-tick stages have seen every tick, over a reporter's run and
/// the sink's interval together.
pub open spec fn ticks_are_sampled(r: ReporterState, m: MetricsState) -> bool {
    let all = r.cumulative.plus(m.samples);
    all.decode.len() == m.ticks && all.book.len() == m.ticks && all.signal.len() == m.ticks
}

/// The per-tick stages count the ticks of the run: it is so at the start, and
/// recording a tick, an order, a rejection, a drop or a position keeps it so, as
/// does taking a snapshot.
pub proof fn stages_count_the_ticks(
    r: ReporterState,
    m: MetricsState,
    s: StageSample,
    net: i64,
    expected_interval_ns: u64,
    timer_resolution_ns: u64,
)
    requires
        ticks_are_sampled(r, m),
        m.ticks < u64::MAX,
    ensures
        ticks_are_sampled(
            ReporterState::fresh(timer_resolution_ns),
            MetricsState::fresh(expected_interval_ns),
        ),
        ticks_are_sampled(r, m.recorded(s)),
        ticks_are_sampled(r, m.ordered(net)),
        ticks_are_sampled(r, m.rejected()),
        ticks_are_sampled(r, (MetricsState { drops: next_count(m.drops), ..m })),
        ticks_are_sampled(r, (MetricsState { position: net, ..m })),
        ticks_are_sampled(r.merged(m), m.drained()),
{
    every_tick_is_counted(m, s);
}

/// A snapshot of such a run shows it: the cumulative decode, book and signal
/// counts are the ticks.
pub proof fn snapshots_show_every_tick(snap: MetricsSnapshot, before: ReporterState, m: MetricsState)
    requires
        ticks_are_sampled(before, m),
        is_snapshot(snap, before, m),
    ensures
        snap.cumulative@[0].1.count == snap.ticks,
        snap.cumulative@[1].1.count == snap.ticks,
        snap.cumulative@[2].1.count == snap.ticks,
{
    let stats = before.cumulative.plus(m.samples).stats();
    assert(snap.cumulative@[0].1 == stats[0]);
    assert(snap.cumulative@[1].1 == stats[1]);
    assert(snap.cumulative@[2].1 == stats[2]);
}

/// Taking the interval out and merging it loses no sample and counts none twice:
/// what a sink and a reporter hold together stays the same.
pub proof fn snapshots_lose_nothing(m: MetricsState, cumulative: StageSamples)
    ensures
        cumulative.plus(m.samples).plus(m.drained().samples) == cumulative.plus(m.samples),
        m.drained().samples == StageSamples::none(),
{
    assert(cumulative.plus(m.samples).plus(m.drained().samples) =~= cumulative.plus(m.samples));
}

/// Timings beyond the bounds are recorded at the bounds, and every other one
/// within a thousandth of itself.
pub proof fn recorded_timings_are_close(v: u64)
    ensures
        v < HIST_LOW ==> recorded_level(v) == HIST_LOW,
        v > HIST_HIGH ==> recorded_level(v) == recorded_level(HIST_HIGH),
        HIST_LOW <= v <= HIST_HIGH ==> recorded_level(v) <= v && 1000 * (v - recorded_level(v))
            <= v,
{
    levels_keep_three_digits(clamped(v) as int);
}

} // verus!
