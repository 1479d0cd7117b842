//! The arithmetic of a load test: ring slots, open-loop pacing, and the final
//! report. Threads, clocks and the ring itself belong to the application.
use vstd::prelude::*;
use vstd::slice::slice_subrange;
use vstd::string::*;

use crate::metrics::{MetricsSnapshot, StageStat};
use crate::text::{
    decimal, holds_part, left_aligned, push_column, push_decimal, push_left_aligned,
    push_right_aligned, right_aligned, strung, strung_holds_neighbours, strung_push,
};

verus! {

/// Max bytes carried per ring slot (packets are ~100 bytes).
pub const MAX_PACKET: usize = 512;

/// Fixed-size packet carried across the ingest ring.
#[derive(Clone, Copy)]
pub struct PacketBuf {
    len: u16,
    data: [u8; 512],
}

impl View for PacketBuf {
    type V = Seq<u8>;

    closed spec fn view(&self) -> Seq<u8> {
        self.data@.take(self.len as int)
    }
}

/// The first bytes of a packet, as many as a slot holds.
pub open spec fn slot_bytes(s: Seq<u8>) -> Seq<u8> {
    if s.len() > MAX_PACKET {
        s.take(MAX_PACKET as int)
    } else {
        s
    }
}

impl PacketBuf {
    #[verifier::type_invariant]
    closed spec fn inv(self) -> bool {
        self.len <= MAX_PACKET
    }

    /// Copy a packet into a slot; bytes beyond the slot's size are cut off.
    pub fn from_slice(s: &[u8]) -> (r: PacketBuf)
        ensures
            r@ == slot_bytes(s@),
    {
        let mut data = [0u8; 512];
        let len: usize = if s.len() < MAX_PACKET {
            s.len()
        } else {
            MAX_PACKET
        };
        let mut i: usize = 0;
        while i < len
            invariant
                i <= len <= s@.len(),
                len <= MAX_PACKET,
                data@.len() == MAX_PACKET,
                forall|j: int| 0 <= j < i ==> #[trigger] data@[j] == s@[j],
            decreases len - i,
        {
            data[i] = s[i];
            i += 1;
        }
        let r = PacketBuf { len: len as u16, data };
        assert(r@ =~= slot_bytes(s@));
        r
    }

    /// The packet in the slot.
    pub fn as_slice(&self) -> (r: &[u8])
        ensures
            r@ == self@,
    {
        proof {
            use_type_invariant(self);
        }
        slice_subrange(self.data.as_slice(), 0, self.len as usize)
    }
}

/// The nanoseconds between packets at a rate in packets per second; 0 for an
/// unthrottled run and for rates above 1e9.
pub open spec fn interval_of(rate: u64) -> u64 {
    if rate > 0 {
        (1_000_000_000int / rate as int) as u64
    } else {
        0
    }
}

/// The open-loop inter-arrival time at a rate in packets per second.
pub fn interval_ns(rate: u64) -> (r: u64)
    ensures
        r == interval_of(rate),
{
    if rate > 0 {
        1_000_000_000 / rate
    } else {
        0
    }
}

/// When the `i`-th packet is due, in nanoseconds from the start; it stays at the
/// largest time when it gets there.
pub fn due_ns(i: u64, interval_ns: u64) -> (r: u64)
    ensures
        r == if i * interval_ns > u64::MAX {
            u64::MAX as int
        } else {
            i * interval_ns
        },
{
    match i.checked_mul(interval_ns) {
        Some(t) => t,
        None => u64::MAX,
    }
}

/// What to do while waiting for a point in time.
#[derive(Debug, Clone, Copy, PartialEq, Eq, Structural)]
pub enum Pace {
    /// The time has come, or the run is over.
    Go,
    /// Sleep so many nanoseconds, then look again.
    Sleep(u64),
    /// Busy-spin, then look again.
    Spin,
}

/// Waits longer than this, in nanoseconds, are slept.
pub const SLEEP_ABOVE_NS: u64 = 100_000;

/// A sleep ends this many nanoseconds early.
pub const WAKE_EARLY_NS: u64 = 50_000;

/// The longest uninterrupted nap, in nanoseconds.
pub const NAP_NS: u64 = 20_000_000;

/// Mixes coarse sleeps and a final busy-spin for accuracy. `remaining_ns` is the
/// time left.
pub fn pace(remaining_ns: u64, shutdown: bool) -> (r: Pace)
    ensures
        r == if remaining_ns == 0 || shutdown {
            Pace::Go
        } else if remaining_ns > SLEEP_ABOVE_NS {
            Pace::Sleep((remaining_ns - WAKE_EARLY_NS) as u64)
        } else {
            Pace::Spin
        },
{
    if remaining_ns == 0 || shutdown {
        Pace::Go
    } else if remaining_ns > SLEEP_ABOVE_NS {
        Pace::Sleep(remaining_ns - WAKE_EARLY_NS)
    } else {
        Pace::Spin
    }
}

/// The next nap of an interruptible sleep: what is left of it, 20 ms at most;
/// `None` when nothing is left or the run is over.
pub fn nap(remaining_ns: u64, shutdown: bool) -> (r: Option<u64>)
    ensures
        r == if remaining_ns == 0 || shutdown {
            None
        } else if remaining_ns < NAP_NS {
            Some(remaining_ns)
        } else {
            Some(NAP_NS)
        },
{
    if remaining_ns == 0 || shutdown {
        None
    } else if remaining_ns < NAP_NS {
        Some(remaining_ns)
    } else {
        Some(NAP_NS)
    }
}

/// The heading and the counts of a report.
pub open spec fn report_head(
    s: MetricsSnapshot,
    throughput_pps: Seq<char>,
    total_pnl: Seq<char>,
) -> Seq<char> {
    "\n=== CME MD Connector — load test complete ===\ntimer resolution : "@ + decimal(
        s.timer_resolution_ns as int,
    ) + " ns (per-stage values below this are resolution-limited)\npackets processed: "@ + decimal(
        s.ticks as int,
    ) + "\nthroughput (avg) : "@ + throughput_pps + " pkt/s\norders sent      : "@ + decimal(
        s.orders as int,
    ) + "\norders rejected  : "@ + decimal(s.rejects as int) + "\nring drops       : "@ + decimal(
        s.drops as int,
    ) + "\ntotal PnL        : "@ + total_pnl
        + "\n\nper-stage latency (cumulative, nanoseconds):\n"@
}

/// The line of column titles.
pub open spec fn title_line() -> Seq<char> {
    "  "@ + left_aligned("stage"@, 16) + " "@ + right_aligned("p50"@, 10) + " "@ + right_aligned(
        "p95"@,
        10,
    ) + " "@ + right_aligned("p99"@, 10) + " "@ + right_aligned("max"@, 12) + " "@ + right_aligned(
        "count"@,
        12,
    ) + "\n"@
}

/// The line of one stage.
pub open spec fn stage_line(name: Seq<char>, st: StageStat) -> Seq<char> {
    "  "@ + left_aligned(name, 16) + " "@ + right_aligned(decimal(st.p50 as int), 10) + " "@
        + right_aligned(decimal(st.p95 as int), 10) + " "@ + right_aligned(
        decimal(st.p99 as int),
        10,
    ) + " "@ + right_aligned(decimal(st.max as int), 12) + " "@ + right_aligned(
        decimal(st.count as int),
        12,
    ) + "\n"@
}

/// The lines of stages, one after the other.
pub open spec fn stage_lines(stages: Seq<(&'static str, StageStat)>) -> Seq<char>
    decreases stages.len(),
{
    if stages.len() == 0 {
        Seq::empty()
    } else {
        stage_lines(stages.drop_last()) + stage_line(stages.last().0@, stages.last().1)
    }
}

fn titles() -> (r: String)
    ensures
        r@ == title_line(),
{
    let mut out = "  ".to_owned();
    push_left_aligned(&mut out, "stage", 16);
    out.append(" ");
    push_right_aligned(&mut out, "p50", 10);
    out.append(" ");
    push_right_aligned(&mut out, "p95", 10);
    out.append(" ");
    push_right_aligned(&mut out, "p99", 10);
    out.append(" ");
    push_right_aligned(&mut out, "max", 12);
    out.append(" ");
    push_right_aligned(&mut out, "count", 12);
    out.append("\n");
    out
}

fn stage_row(name: &str, st: &StageStat) -> (r: String)
    ensures
        r@ == stage_line(name@, *st),
{
    let mut out = "  ".to_owned();
    push_left_aligned(&mut out, name, 16);
    out.append(" ");
    push_column(&mut out, st.p50, 10);
    out.append(" ");
    push_column(&mut out, st.p95, 10);
    out.append(" ");
    push_column(&mut out, st.p99, 10);
    out.append(" ");
    push_column(&mut out, st.max, 12);
    out.append(" ");
    push_column(&mut out, st.count, 12);
    out.append("\n");
    out
}

/// Render a final per-stage percentile report (cumulative over the run).
/// `throughput_pps` and `total_pnl` are the two numbers that are not integers,
/// already rendered.
pub fn format_report(
    s: &MetricsSnapshot,
    cumulative: &Vec<(&'static str, StageStat)>,
    throughput_pps: &str,
    total_pnl: &str,
) -> (r: String)
    ensures
        r@ == report_head(*s, throughput_pps@, total_pnl@) + title_line() + stage_lines(
            cumulative@,
        ),
{
    let mut out = "\n=== CME MD Connector — load test complete ===\ntimer resolution : ".to_owned();
    push_decimal(&mut out, s.timer_resolution_ns);
    out.append(" ns (per-stage values below this are resolution-limited)\npackets processed: ");
    push_decimal(&mut out, s.ticks);
    out.append("\nthroughput (avg) : ");
    out.append(throughput_pps);
    out.append(" pkt/s\norders sent      : ");
    push_decimal(&mut out, s.orders);
    out.append("\norders rejected  : ");
    push_decimal(&mut out, s.rejects);
    out.append("\nring drops       : ");
    push_decimal(&mut out, s.drops);
    out.append("\ntotal PnL        : ");
    out.append(total_pnl);
    out.append("\n\nper-stage latency (cumulative, nanoseconds):\n");
    let ghost head = report_head(*s, throughput_pps@, total_pnl@);
    assert(out@ == head);
    let heading = titles();
    out.append(heading.as_str());
    assert(stage_lines(cumulative@.take(0)) =~= Seq::<char>::empty());
    assert(out@ =~= head + title_line() + stage_lines(cumulative@.take(0)));
    let mut i: usize = 0;
    while i < cumulative.len()
        invariant
            i <= cumulative@.len(),
            out@ == head + title_line() + stage_lines(cumulative@.take(i as int)),
        decreases cumulative@.len() - i,
    {
        let line = stage_row(cumulative[i].0, &cumulative[i].1);
        out.append(line.as_str());
        proof {
            let longer = cumulative@.take(i + 1);
            assert(longer.drop_last() =~= cumulative@.take(i as int));
            assert(longer.last() == cumulative@[i as int]);
            assert(out@ =~= head + title_line() + stage_lines(longer));
        }
        i += 1;
    }
    assert(cumulative@.take(i as int) =~= cumulative@);
    out
}

/// Packets that fit a slot cross the ring unchanged.
pub proof fn slots_keep_packets(s: Seq<u8>)
    requires
        s.len() <= MAX_PACKET,
    ensures
        slot_bytes(s) == s,
{
}

/// An interval is the whole nanoseconds between packets: as many packets as the
/// rate asks for fit a second, and would not if they were 1 ns further apart.
pub proof fn pacing_is_open_loop(rate: u64)
    requires
        rate > 0,
    ensures
        rate * interval_of(rate) <= 1_000_000_000 < rate * (interval_of(rate) + 1),
{
    assert(rate * (1_000_000_000int / rate as int) <= 1_000_000_000 < rate * (1_000_000_000int
        / rate as int + 1)) by (nonlinear_arith)
        requires
            rate > 0,
    ;
}

/// A slot carries the front of a packet: its bytes in order, 512 of them at most
/// and all of them if there are no more.
pub proof fn slots_carry_the_front(s: Seq<u8>)
    ensures
        slot_bytes(s).len() == if s.len() > 512 {
            512
        } else {
            s.len() as int
        },
        forall|i: int| 0 <= i < slot_bytes(s).len() ==> #[trigger] slot_bytes(s)[i] == s[i],
{
}

/// An unthrottled run has no interval; a faster rate never has a longer one.
pub proof fn faster_rates_are_no_further_apart(slow: u64, fast: u64)
    requires
        0 < slow <= fast,
    ensures
        interval_of(0) == 0,
        interval_of(fast) <= interval_of(slow),
{
    assert(1_000_000_000int / fast as int <= 1_000_000_000int / slow as int) by (nonlinear_arith)
        requires
            0 < slow <= fast,
    ;
}

/// The lines of a report stand one after the other, in the order of the stages.
pub proof fn report_lines_join(
    x: Seq<(&'static str, StageStat)>,
    y: Seq<(&'static str, StageStat)>,
)
    ensures
        stage_lines(x + y) == stage_lines(x) + stage_lines(y),
    decreases y.len(),
{
    if y.len() == 0 {
        assert(x + y =~= x);
        assert(stage_lines(x) + stage_lines(y) =~= stage_lines(x));
    } else {
        assert((x + y).drop_last() =~= x + y.drop_last());
        assert((x + y).last() == y.last());
        report_lines_join(x, y.drop_last());
        assert(stage_lines(x + y) =~= stage_lines(x) + stage_lines(y));
    }
}

/// A line of the report holds the name in 16 columns, the percentiles in 10 each
/// and the maximum and the count in 12, each behind a space, so that the lines of
/// names and numbers that fit align.
pub proof fn report_lines_align(name: Seq<char>, st: StageStat)
    requires
        name.len() <= 16,
        decimal(st.p50 as int).len() <= 10,
        decimal(st.p95 as int).len() <= 10,
        decimal(st.p99 as int).len() <= 10,
        decimal(st.max as int).len() <= 12,
        decimal(st.count as int).len() <= 12,
    ensures
        stage_line(name, st).len() == 78,
        stage_line(name, st).subrange(2, 18) == left_aligned(name, 16),
        stage_line(name, st).subrange(19, 29) == right_aligned(decimal(st.p50 as int), 10),
        stage_line(name, st).subrange(30, 40) == right_aligned(decimal(st.p95 as int), 10),
        stage_line(name, st).subrange(41, 51) == right_aligned(decimal(st.p99 as int), 10),
        stage_line(name, st).subrange(52, 64) == right_aligned(decimal(st.max as int), 12),
        stage_line(name, st).subrange(65, 77) == right_aligned(decimal(st.count as int), 12),
        stage_line(name, st)[77] == '\n',
{
    reveal_strlit("  ");
    reveal_strlit(" ");
    reveal_strlit("\n");
    let l = stage_line(name, st);
    assert(l.subrange(2, 18) =~= left_aligned(name, 16));
    assert(l.subrange(19, 29) =~= right_aligned(decimal(st.p50 as int), 10));
    assert(l.subrange(30, 40) =~= right_aligned(decimal(st.p95 as int), 10));
    assert(l.subrange(41, 51) =~= right_aligned(decimal(st.p99 as int), 10));
    assert(l.subrange(52, 64) =~= right_aligned(decimal(st.max as int), 12));
    assert(l.subrange(65, 77) =~= right_aligned(decimal(st.count as int), 12));
}

/// Each count of a run stands in the report behind its own words and before the
/// next ones.
pub proof fn reports_show_each_count(
    s: MetricsSnapshot,
    throughput_pps: Seq<char>,
    total_pnl: Seq<char>,
)
    ensures
        holds_part(
            report_head(s, throughput_pps, total_pnl),
            "\n=== CME MD Connector — load test complete ===\ntimer resolution : "@ + decimal(s.timer_resolution_ns as int)
                + " ns (per-stage values below this are resolution-limited)\npackets processed: "@,
        ),
        holds_part(
            report_head(s, throughput_pps, total_pnl),
            " ns (per-stage values below this are resolution-limited)\npackets processed: "@ + decimal(s.ticks as int)
                + "\nthroughput (avg) : "@,
        ),
        holds_part(
            report_head(s, throughput_pps, total_pnl),
            "\nthroughput (avg) : "@ + throughput_pps
                + " pkt/s\norders sent      : "@,
        ),
        holds_part(
            report_head(s, throughput_pps, total_pnl),
            " pkt/s\norders sent      : "@ + decimal(s.orders as int)
                + "\norders rejected  : "@,
        ),
        holds_part(
            report_head(s, throughput_pps, total_pnl),
            "\norders rejected  : "@ + decimal(s.rejects as int)
                + "\nring drops       : "@,
        ),
        holds_part(
            report_head(s, throughput_pps, total_pnl),
            "\nring drops       : "@ + decimal(s.drops as int)
                + "\ntotal PnL        : "@,
        ),
        holds_part(
            report_head(s, throughput_pps, total_pnl),
            "\ntotal PnL        : "@ + total_pnl
                + "\n\nper-stage latency (cumulative, nanoseconds):\n"@,
        ),
{
    let p0: Seq<Seq<char>> = Seq::empty();
    let p1 = p0.push("\n=== CME MD Connector — load test complete ===\ntimer resolution : "@);
    strung_push(p0, "\n=== CME MD Connector — load test complete ===\ntimer resolution : "@);
    let p2 = p1.push(decimal(s.timer_resolution_ns as int));
    strung_push(p1, decimal(s.timer_resolution_ns as int));
    let p3 = p2.push(" ns (per-stage values below this are resolution-limited)\npackets processed: "@);
    strung_push(p2, " ns (per-stage values below this are resolution-limited)\npackets processed: "@);
    let p4 = p3.push(decimal(s.ticks as int));
    strung_push(p3, decimal(s.ticks as int));
    let p5 = p4.push("\nthroughput (avg) : "@);
    strung_push(p4, "\nthroughput (avg) : "@);
    let p6 = p5.push(throughput_pps);
    strung_push(p5, throughput_pps);
    let p7 = p6.push(" pkt/s\norders sent      : "@);
    strung_push(p6, " pkt/s\norders sent      : "@);
    let p8 = p7.push(decimal(s.orders as int));
    strung_push(p7, decimal(s.orders as int));
    let p9 = p8.push("\norders rejected  : "@);
    strung_push(p8, "\norders rejected  : "@);
    let p10 = p9.push(decimal(s.rejects as int));
    strung_push(p9, decimal(s.rejects as int));
    let p11 = p10.push("\nring drops       : "@);
    strung_push(p10, "\nring drops       : "@);
    let p12 = p11.push(decimal(s.drops as int));
    strung_push(p11, decimal(s.drops as int));
    let p13 = p12.push("\ntotal PnL        : "@);
    strung_push(p12, "\ntotal PnL        : "@);
    let p14 = p13.push(total_pnl);
    strung_push(p13, total_pnl);
    let p15 = p14.push("\n\nper-stage latency (cumulative, nanoseconds):\n"@);
    strung_push(p14, "\n\nper-stage latency (cumulative, nanoseconds):\n"@);
    assert(strung(p1) =~= "\n=== CME MD Connector — load test complete ===\ntimer resolution : "@);
    assert(strung(p15) == report_head(s, throughput_pps, total_pnl));
    strung_holds_neighbours(p15, 0);
    strung_holds_neighbours(p15, 2);
    strung_holds_neighbours(p15, 4);
    strung_holds_neighbours(p15, 6);
    strung_holds_neighbours(p15, 8);
    strung_holds_neighbours(p15, 10);
    strung_holds_neighbours(p15, 12);
}

} // verus!
