//! What holds of every recorded tick and of every snapshot.
use vstd::multiset::Multiset;
use vstd::prelude::*;

use crate::metrics::histogram::{
    backfilled, is_peak, level, level_top, level_width, levels_keep_three_digits,
    peak_is_unique, percentile_of,
};
use crate::metrics::{
    is_snapshot, stat_of, MetricsSnapshot, MetricsState, ReporterState, StageSample, StageSamples,
};

verus! {

/// Levels are as fine as the value needs: below 2048 each value is one of its
/// own, above a level holds a power of two of values, aligned to it, of which
/// between 1024 and 2047 levels make up the value. Doubling a large value doubles
/// its level and the width of it.
pub proof fn levels_double_with_their_values(v: int)
    requires
        v >= 0,
    ensures
        v < 2048 ==> level(v) == v && level_width(v) == 1,
        v >= 2048 ==> 1024 * level_width(v) <= v < 2048 * level_width(v),
        level(v) <= v < level(v) + level_width(v),
        level_top(v) == level(v) + level_width(v) - 1,
        v >= 1024 ==> level(2 * v) == 2 * level(v) && level_width(2 * v) == 2 * level_width(v),
    decreases v,
{
    levels_keep_three_digits(v);
    if v >= 2048 {
        levels_double_with_their_values(v / 2);
        assert(level(v) == 2 * level(v / 2));
        assert(level_width(v) == 2 * level_width(v / 2));
        if v / 2 < 2048 {
            assert(level_width(v / 2) == 1);
        }
    }
}

/// The levels of a wait and of the samples that it kept from being taken, which
/// are one interval apart.
pub open spec fn missed_series(v: int, interval: int, n: nat) -> Seq<u64> {
    Seq::new(n, |k: int| level(v - k * interval) as u64)
}

/// What a wait is counted as: itself and, one interval apart, every sample down
/// to the interval that was missed meanwhile. Those are value / interval samples,
/// and one for a wait within the interval.
pub proof fn waits_count_what_they_missed(v: int, interval: int)
    requires
        v >= 0,
        interval > 0,
    ensures
        v < interval ==> backfilled(v, interval) == missed_series(v, interval, 1).to_multiset(),
        v >= interval ==> backfilled(v, interval) == missed_series(
            v,
            interval,
            (v / interval) as nat,
        ).to_multiset(),
    decreases v,
{
    broadcast use vstd::seq_lib::group_to_multiset_ensures;

    if v < interval {
        let one = missed_series(v, interval, 1);
        assert(one =~= Seq::<u64>::empty().push(level(v) as u64));
        assert(one.to_multiset() =~= Multiset::singleton(level(v) as u64));
    } else {
        let rest = v - interval;
        let n = v / interval;
        assert(n >= 1 && rest / interval == n - 1) by (nonlinear_arith)
            requires
                n == v / interval,
                rest == v - interval,
                interval > 0,
                v >= interval,
        ;
        let all = missed_series(v, interval, n as nat);
        let first = seq![level(v) as u64];
        let tail = missed_series(rest, interval, (n - 1) as nat);
        assert(all =~= first + tail) by {
            assert forall|k: int| 0 <= k < all.len() implies all[k] == (first + tail)[k] by {
                if k > 0 {
                    assert(v - k * interval == rest - (k - 1) * interval) by (nonlinear_arith)
                        requires
                            rest == v - interval,
                    ;
                } else {
                    assert(0 * interval == 0);
                }
            }
        }
        vstd::seq_lib::lemma_multiset_commutative(first, tail);
        assert(first =~= Seq::<u64>::empty().push(level(v) as u64));
        assert(first.to_multiset() =~= Multiset::singleton(level(v) as u64));
        if rest >= interval {
            waits_count_what_they_missed(rest, interval);
        } else {
            assert(n == 1) by (nonlinear_arith)
                requires
                    n == v / interval,
                    rest == v - interval,
                    0 <= rest < interval,
            ;
            assert(tail =~= Seq::empty());
            assert(tail.to_multiset() =~= Multiset::empty());
        }
        assert(backfilled(v, interval) =~= all.to_multiset());
    }
}

/// Whether samples were joined by exactly one value, brought within 1 ns to 60 s
/// and counted at its level.
pub open spec fn joined_by_one(before: Multiset<u64>, after: Multiset<u64>, ns: u64) -> bool {
    let v = if ns < 1 {
        1
    } else if ns > 60_000_000_000 {
        60_000_000_000
    } else {
        ns as int
    };
    forall|l: u64| #[trigger]
        after.count(l) == before.count(l) + if l == level(v) {
            1nat
        } else {
            0nat
        }
}

/// Whether samples were joined by a wait, brought within 1 ns to 60 s, and by all
/// that it missed at an expected interval of at least 1 ns.
pub open spec fn joined_by_series(
    before: Multiset<u64>,
    after: Multiset<u64>,
    ns: u64,
    expected_interval_ns: u64,
) -> bool {
    let v = if ns < 1 {
        1
    } else if ns > 60_000_000_000 {
        60_000_000_000
    } else {
        ns as int
    };
    let interval = if expected_interval_ns == 0 {
        1
    } else {
        expected_interval_ns as int
    };
    let n = if v < interval {
        1
    } else {
        v / interval
    };
    &&& after.len() == before.len() + n
    &&& after == before.add(missed_series(v, interval, n as nat).to_multiset())
}

/// What a tick adds: one sample to each of decode, book and signal, one to risk
/// and one to gateway if it got there, and to both end-to-end totals that it
/// reached its wait with all that the wait missed. What it did not reach stays as
/// it was.
pub proof fn ticks_add_their_timings(m: MetricsState, s: StageSample)
    ensures
        joined_by_one(m.samples.decode, m.recorded(s).samples.decode, s.decode_ns),
        joined_by_one(m.samples.book, m.recorded(s).samples.book, s.book_ns),
        joined_by_one(m.samples.signal, m.recorded(s).samples.signal, s.signal_ns),
        s.risk_ns matches Some(ns) ==> joined_by_one(
            m.samples.risk,
            m.recorded(s).samples.risk,
            ns,
        ),
        s.risk_ns is None ==> m.recorded(s).samples.risk == m.samples.risk,
        s.gateway_ns matches Some(ns) ==> joined_by_one(
            m.samples.gateway,
            m.recorded(s).samples.gateway,
            ns,
        ),
        s.gateway_ns is None ==> m.recorded(s).samples.gateway == m.samples.gateway,
        joined_by_series(
            m.samples.tick_to_signal,
            m.recorded(s).samples.tick_to_signal,
            s.tick_to_signal_ns,
            m.expected_interval_ns,
        ),
        s.tick_to_order_ns matches Some(ns) ==> joined_by_series(
            m.samples.tick_to_order,
            m.recorded(s).samples.tick_to_order,
            ns,
            m.expected_interval_ns,
        ),
        s.tick_to_order_ns is None ==> m.recorded(s).samples.tick_to_order
            == m.samples.tick_to_order,
{
    bounded_level(s.decode_ns);
    bounded_level(s.book_ns);
    bounded_level(s.signal_ns);
    series_joins(m.samples.tick_to_signal, s.tick_to_signal_ns, m.expected_interval_ns);
    if s.risk_ns is Some {
        bounded_level(s.risk_ns->0);
    }
    if s.gateway_ns is Some {
        bounded_level(s.gateway_ns->0);
    }
    if s.tick_to_order_ns is Some {
        series_joins(m.samples.tick_to_order, s.tick_to_order_ns->0, m.expected_interval_ns);
    }
}

proof fn bounded_level(ns: u64)
    ensures
        ({
            let v = if ns < 1 {
                1
            } else if ns > 60_000_000_000 {
                60_000_000_000
            } else {
                ns as int
            };
            0 <= level(v) <= u64::MAX
        }),
{
    let v = if ns < 1 {
        1
    } else if ns > 60_000_000_000 {
        60_000_000_000
    } else {
        ns as int
    };
    level_is_not_negative(v);
    levels_keep_three_digits(v);
}

proof fn level_is_not_negative(v: int)
    requires
        v >= 0,
    ensures
        level(v) >= 0,
    decreases v,
{
    if v >= 2048 {
        level_is_not_negative(v / 2);
    }
}

proof fn series_joins(before: Multiset<u64>, ns: u64, expected_interval_ns: u64)
    ensures
        ({
            let v = if ns < 1 {
                1
            } else if ns > 60_000_000_000 {
                60_000_000_000
            } else {
                ns as int
            };
            let interval = if expected_interval_ns == 0 {
                1
            } else {
                expected_interval_ns as int
            };
            joined_by_series(
                before,
                before.add(backfilled(v, interval)),
                ns,
                expected_interval_ns,
            )
        }),
{
    broadcast use vstd::seq_lib::group_to_multiset_ensures;

    let v = if ns < 1 {
        1
    } else if ns > 60_000_000_000 {
        60_000_000_000
    } else {
        ns as int
    };
    let interval = if expected_interval_ns == 0 {
        1
    } else {
        expected_interval_ns as int
    };
    waits_count_what_they_missed(v, interval);
    if v >= interval {
        assert(v / interval >= 1) by (nonlinear_arith)
            requires
                v >= interval,
                interval > 0,
        ;
    }
}

/// Counting moves one counter: a tick the ticks, an order the orders and the
/// gauge, a rejection the rejections; taking the interval out moves none. The
/// expected interval stays.
pub proof fn counts_move_one_counter(m: MetricsState, s: StageSample, net: i64)
    requires
        m.ticks < u64::MAX,
        m.orders < u64::MAX,
        m.rejects < u64::MAX,
    ensures
        m.recorded(s).ticks == m.ticks + 1,
        m.recorded(s) == (MetricsState {
            ticks: (m.ticks + 1) as u64,
            samples: m.recorded(s).samples,
            ..m
        }),
        m.ordered(net) == (MetricsState { orders: (m.orders + 1) as u64, position: net, ..m }),
        m.rejected() == (MetricsState { rejects: (m.rejects + 1) as u64, ..m }),
        m.drained() == (MetricsState { samples: m.drained().samples, ..m }),
        m.drained().samples.decode.len() == 0,
        m.drained().samples.book.len() == 0,
        m.drained().samples.signal.len() == 0,
        m.drained().samples.risk.len() == 0,
        m.drained().samples.gateway.len() == 0,
        m.drained().samples.tick_to_signal.len() == 0,
        m.drained().samples.tick_to_order.len() == 0,
{
}

/// A new sink has counted nothing and recorded nothing, and keeps the interval it
/// was given; a new reporter has merged nothing.
pub proof fn sinks_start_empty(expected_interval_ns: u64, timer_resolution_ns: u64)
    ensures
        ({
            let m = MetricsState::fresh(expected_interval_ns);
            let r = ReporterState::fresh(timer_resolution_ns);
            &&& m.ticks == 0 && m.orders == 0 && m.rejects == 0 && m.drops == 0 && m.position == 0
            &&& m.expected_interval_ns == expected_interval_ns
            &&& m.samples == m.drained().samples
            &&& r.cumulative == m.samples
            &&& r.timer_resolution_ns == timer_resolution_ns
            &&& r.last_ticks == 0
        }),
{
}

/// Merging adds each stage's samples to the same stage's.
pub proof fn merging_adds_stage_by_stage(a: StageSamples, b: StageSamples, l: u64)
    ensures
        a.plus(b).decode.count(l) == a.decode.count(l) + b.decode.count(l),
        a.plus(b).book.count(l) == a.book.count(l) + b.book.count(l),
        a.plus(b).signal.count(l) == a.signal.count(l) + b.signal.count(l),
        a.plus(b).risk.count(l) == a.risk.count(l) + b.risk.count(l),
        a.plus(b).gateway.count(l) == a.gateway.count(l) + b.gateway.count(l),
        a.plus(b).tick_to_signal.count(l) == a.tick_to_signal.count(l) + b.tick_to_signal.count(l),
        a.plus(b).tick_to_order.count(l) == a.tick_to_order.count(l) + b.tick_to_order.count(l),
{
}

/// A summary is of its samples: the three percentiles, the top of the largest
/// level, and their number.
pub proof fn summaries_are_of_their_samples(samples: Multiset<u64>, largest: u64)
    requires
        samples.len() <= u64::MAX,
    ensures
        stat_of(samples).p50 == percentile_of(samples, 50),
        stat_of(samples).p95 == percentile_of(samples, 95),
        stat_of(samples).p99 == percentile_of(samples, 99),
        stat_of(samples).count == samples.len(),
        samples.len() == 0 ==> stat_of(samples).max == 0,
        samples.contains(largest) && (forall|l: u64| #[trigger]
            samples.contains(l) ==> l <= largest) && level_top(largest as int) <= u64::MAX
            ==> stat_of(samples).max == level_top(largest as int),
{
    if is_peak(samples, largest) && level_top(largest as int) <= u64::MAX {
        peak_is_unique(samples, largest);
    }
}

/// A snapshot summarizes each stage under its own name, in display order: first
/// the interval, then the whole run.
pub proof fn snapshots_name_their_stages(
    snap: MetricsSnapshot,
    before: ReporterState,
    m: MetricsState,
)
    requires
        is_snapshot(snap, before, m),
    ensures
        snap.interval@.len() == 7,
        snap.interval@[0].0@ == "decode"@ && snap.interval@[0].1 == stat_of(m.samples.decode),
        snap.interval@[1].0@ == "book"@ && snap.interval@[1].1 == stat_of(m.samples.book),
        snap.interval@[2].0@ == "signal"@ && snap.interval@[2].1 == stat_of(m.samples.signal),
        snap.interval@[3].0@ == "risk"@ && snap.interval@[3].1 == stat_of(m.samples.risk),
        snap.interval@[4].0@ == "gateway"@ && snap.interval@[4].1 == stat_of(m.samples.gateway),
        snap.interval@[5].0@ == "tick_to_signal"@ && snap.interval@[5].1 == stat_of(
            m.samples.tick_to_signal,
        ),
        snap.interval@[6].0@ == "tick_to_order"@ && snap.interval@[6].1 == stat_of(
            m.samples.tick_to_order,
        ),
        snap.cumulative@.len() == 7,
        forall|i: int|
            0 <= i < 7 ==> (#[trigger] snap.cumulative@[i]).0 == snap.interval@[i].0,
        snap.cumulative@[0].1 == stat_of(before.cumulative.decode.add(m.samples.decode)),
        snap.cumulative@[1].1 == stat_of(before.cumulative.book.add(m.samples.book)),
        snap.cumulative@[2].1 == stat_of(before.cumulative.signal.add(m.samples.signal)),
        snap.cumulative@[3].1 == stat_of(before.cumulative.risk.add(m.samples.risk)),
        snap.cumulative@[4].1 == stat_of(before.cumulative.gateway.add(m.samples.gateway)),
        snap.cumulative@[5].1 == stat_of(
            before.cumulative.tick_to_signal.add(m.samples.tick_to_signal),
        ),
        snap.cumulative@[6].1 == stat_of(
            before.cumulative.tick_to_order.add(m.samples.tick_to_order),
        ),
{
    let i = snap.interval@;
    let c = snap.cumulative@;
    assert(i[0].1 == m.samples.stats()[0] && i[1].1 == m.samples.stats()[1]);
    assert(i[2].1 == m.samples.stats()[2] && i[3].1 == m.samples.stats()[3]);
    assert(i[4].1 == m.samples.stats()[4] && i[5].1 == m.samples.stats()[5]);
    assert(i[6].1 == m.samples.stats()[6]);
    let all = before.cumulative.plus(m.samples);
    assert(c[0].1 == all.stats()[0] && c[1].1 == all.stats()[1]);
    assert(c[2].1 == all.stats()[2] && c[3].1 == all.stats()[3]);
    assert(c[4].1 == all.stats()[4] && c[5].1 == all.stats()[5]);
    assert(c[6].1 == all.stats()[6]);
}

/// A snapshot shows the counters as they are and the ticks since the one before,
/// which later snapshots do not count again; its percentiles rise to the maximum,
/// and a stage without samples shows zeros.
pub proof fn snapshots_show_the_counters(
    snap: MetricsSnapshot,
    before: ReporterState,
    m: MetricsState,
    i: int,
)
    requires
        is_snapshot(snap, before, m),
        0 <= i < 7,
    ensures
        snap.ticks == m.ticks,
        snap.orders == m.orders,
        snap.rejects == m.rejects,
        snap.drops == m.drops,
        snap.net_position == m.position,
        snap.timer_resolution_ns == before.timer_resolution_ns,
        m.ticks >= before.last_ticks ==> snap.new_ticks == m.ticks - before.last_ticks,
        m.ticks < before.last_ticks ==> snap.new_ticks == 0,
        before.merged(m).last_ticks == m.ticks,
        before.merged(m).timer_resolution_ns == before.timer_resolution_ns,
        before.merged(m).cumulative == before.cumulative.plus(m.samples),
        snap.interval@[i].1.p50 <= snap.interval@[i].1.p95 <= snap.interval@[i].1.p99
            <= snap.interval@[i].1.max,
        snap.cumulative@[i].1.p50 <= snap.cumulative@[i].1.p95 <= snap.cumulative@[i].1.p99
            <= snap.cumulative@[i].1.max,
        snap.interval@[i].1.count == 0 ==> snap.interval@[i].1.max == 0,
{
    assert(snap.interval@[i].1.is_ordered());
    assert(snap.cumulative@[i].1.is_ordered());
}

} // verus!
