use cme_md_connector::metrics::{MetricsSnapshot, StageStat};
use cme_md_connector::runner::{
    due_ns, format_report, interval_ns, nap, pace, Pace, PacketBuf, MAX_PACKET,
};
use cme_md_connector::text::{push_column, push_left_aligned, push_right_aligned, push_signed};

#[test]
fn slots_carry_packets_and_cut_off_what_does_not_fit() {
    let small: Vec<u8> = (0..100).collect();
    assert_eq!(PacketBuf::from_slice(&small).as_slice(), &small[..]);
    assert!(PacketBuf::from_slice(&[]).as_slice().is_empty());
    let exact = vec![7u8; MAX_PACKET];
    assert_eq!(PacketBuf::from_slice(&exact).as_slice(), &exact[..]);
    let large: Vec<u8> = (0..600u32).map(|i| i as u8).collect();
    assert_eq!(PacketBuf::from_slice(&large).as_slice(), &large[..MAX_PACKET]);
}

#[test]
fn intervals_follow_the_rate() {
    assert_eq!(interval_ns(200_000), 5_000);
    assert_eq!(interval_ns(3), 333_333_333);
    assert_eq!(interval_ns(0), 0);
    assert_eq!(interval_ns(2_000_000_000), 0);
    assert_eq!(due_ns(3, 5_000), 15_000);
    assert_eq!(due_ns(u64::MAX, 2), u64::MAX);
}

#[test]
fn long_waits_are_slept_and_short_ones_spun() {
    assert_eq!(pace(0, false), Pace::Go);
    assert_eq!(pace(1_000_000, true), Pace::Go);
    assert_eq!(pace(100_000, false), Pace::Spin);
    assert_eq!(pace(100_001, false), Pace::Sleep(50_001));
    assert_eq!(nap(0, false), None);
    assert_eq!(nap(5, true), None);
    assert_eq!(nap(5, false), Some(5));
    assert_eq!(nap(1_000_000_000, false), Some(20_000_000));
}

#[test]
fn the_report_lists_counts_and_stages() {
    let snap = MetricsSnapshot {
        ticks: 1234,
        orders: 5,
        rejects: 2,
        drops: 1,
        timer_resolution_ns: 42,
        ..Default::default()
    };
    let cumulative = vec![(
        "decode",
        StageStat {
            p50: 100,
            p95: 200,
            p99: 300,
            max: 400,
            count: 1234,
        },
    )];
    let report = format_report(
        &snap,
        &cumulative,
        &format!("{:.0}", 987.6),
        &format!("{:.2}", -1.5),
    );
    let want = format!(
        "\n=== CME MD Connector — load test complete ===\n\
         timer resolution : {} ns (per-stage values below this are resolution-limited)\n\
         packets processed: {}\n\
         throughput (avg) : {:.0} pkt/s\n\
         orders sent      : {}\n\
         orders rejected  : {}\n\
         ring drops       : {}\n\
         total PnL        : {:.2}\n\n\
         per-stage latency (cumulative, nanoseconds):\n\
         \x20 {:<16} {:>10} {:>10} {:>10} {:>12} {:>12}\n\
         \x20 {:<16} {:>10} {:>10} {:>10} {:>12} {:>12}\n",
        42, 1234, 987.6, 5, 2, 1, -1.5, "stage", "p50", "p95", "p99", "max", "count", "decode", 100,
        200, 300, 400, 1234,
    );
    assert_eq!(report, want);
}

#[test]
fn text_is_rendered_as_by_format() {
    for v in [0u64, 9, 10, 12_345_678_901, u64::MAX] {
        let mut s = String::from("x");
        push_column(&mut s, v, 12);
        assert_eq!(s, format!("x{v:>12}"));
    }
    for v in [0i64, -1, 42, i64::MIN, i64::MAX] {
        let mut s = String::new();
        push_signed(&mut s, v);
        assert_eq!(s, v.to_string());
    }
    let mut s = String::new();
    push_left_aligned(&mut s, "décode", 9);
    push_right_aligned(&mut s, "book", 3);
    assert_eq!(s, format!("{:<9}{:>3}", "décode", "book"));
}
