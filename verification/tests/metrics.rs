use cme_md_connector::metrics::{
    new_metrics, Histos, MetricsSnapshot, StageSample, StageStat, STAGE_NAMES,
};

fn stage(stats: &[(&'static str, StageStat)], name: &str) -> StageStat {
    stats.iter().find(|(n, _)| *n == name).unwrap().1
}

#[test]
fn computes_percentiles_for_a_stage() {
    let (mut sink, mut rep) = new_metrics(1000, 42);
    for _ in 0..1000 {
        sink.record(&StageSample {
            decode_ns: 100,
            ..Default::default()
        });
    }
    let snap = rep.snapshot(&mut sink);
    let decode = snap.interval.iter().find(|(n, _)| *n == "decode").unwrap().1;
    assert_eq!(decode.count, 1000);
    assert!((99..=101).contains(&decode.p50), "p50 was {}", decode.p50);
    assert!((99..=101).contains(&decode.p99), "p99 was {}", decode.p99);
    assert_eq!((decode.p50, decode.p95, decode.p99, decode.max), (100, 100, 100, 100));
}

#[test]
fn interval_resets_but_cumulative_accumulates() {
    let (mut sink, mut rep) = new_metrics(1000, 42);
    for _ in 0..10 {
        sink.record(&StageSample {
            decode_ns: 50,
            ..Default::default()
        });
    }
    let first = rep.snapshot(&mut sink);
    assert_eq!(first.interval[0].1.count, 10);

    // No new records -> interval empty, cumulative retains the 10.
    let second = rep.snapshot(&mut sink);
    assert_eq!(second.interval[0].1.count, 0);
    assert_eq!(second.cumulative[0].1.count, 10);
    assert_eq!(second.interval[0].1, StageStat::default());
    assert_eq!(rep.cumulative_stats()[0].1.count, 10);
}

#[test]
fn counters_track_orders_rejects_and_drops() {
    let (mut sink, mut rep) = new_metrics(1000, 42);
    sink.inc_order();
    sink.inc_order();
    sink.inc_reject();
    sink.inc_drop();
    sink.set_position(-3);
    sink.record(&StageSample::default());
    let snap = rep.snapshot(&mut sink);
    assert_eq!(snap.orders, 2);
    assert_eq!(snap.rejects, 1);
    assert_eq!(snap.drops, 1);
    assert_eq!(snap.ticks, 1);
    assert_eq!(snap.net_position, -3);
    assert_eq!(snap.timer_resolution_ns, 42);
}

#[test]
fn coordinated_omission_correction_backfills_the_tail() {
    // Expected interval 100ns, but one sample stalls for 10_000ns: record_correct
    // synthesizes the omitted samples, so the recorded count exceeds 1.
    let (mut sink, mut rep) = new_metrics(100, 42);
    sink.record(&StageSample {
        tick_to_signal_ns: 10_000,
        ..Default::default()
    });
    let snap = rep.snapshot(&mut sink);
    let t2s = snap
        .interval
        .iter()
        .find(|(n, _)| *n == "tick_to_signal")
        .unwrap()
        .1;
    assert!(t2s.count > 1, "expected backfilled samples, got {}", t2s.count);
    assert_eq!(t2s.count, 100);
}

#[test]
fn snapshots_count_the_ticks_between_them() {
    let (mut sink, mut rep) = new_metrics(1000, 42);
    sink.record(&StageSample::default());
    sink.record(&StageSample::default());
    assert_eq!(rep.snapshot(&mut sink).new_ticks, 2);
    sink.record(&StageSample::default());
    let snap = rep.snapshot(&mut sink);
    assert_eq!((snap.new_ticks, snap.ticks), (1, 3));
}

#[test]
fn stages_come_in_display_order_and_rise_to_the_maximum() {
    let (mut sink, mut rep) = new_metrics(0, 42);
    for i in 1..=100u64 {
        sink.record(&StageSample {
            decode_ns: i,
            book_ns: 2 * i,
            risk_ns: if i > 90 { Some(i) } else { None },
            ..Default::default()
        });
    }
    let snap = rep.snapshot(&mut sink);
    let names: Vec<&str> = snap.interval.iter().map(|(n, _)| *n).collect();
    assert_eq!(names, STAGE_NAMES.to_vec());
    let decode = stage(&snap.interval, "decode");
    let want = StageStat {
        p50: 50,
        p95: 95,
        p99: 99,
        max: 100,
        count: 100,
    };
    assert_eq!(decode, want);
    assert_eq!(stage(&snap.interval, "risk").count, 10);
    assert_eq!(stage(&snap.interval, "gateway"), StageStat::default());
    assert_eq!(stage(&snap.interval, "tick_to_order").count, 0);
    // A 0 ns stage counts as 1 ns.
    assert_eq!(stage(&snap.interval, "signal").max, 1);
}

#[test]
fn long_timings_keep_three_digits_and_are_capped() {
    let mut h = Histos::new();
    h.record(
        &StageSample {
            decode_ns: 2047,
            book_ns: 2049,
            signal_ns: 1_000_001,
            tick_to_signal_ns: u64::MAX,
            risk_ns: Some(u64::MAX),
            gateway_ns: Some(4097),
            tick_to_order_ns: Some(7),
        },
        60_000_000_000,
    );
    let s = h.stats();
    assert_eq!(stage(&s, "decode").max, 2047);
    assert_eq!(stage(&s, "book").max, 2049);
    assert_eq!(stage(&s, "gateway").max, 4099);
    assert_eq!(stage(&s, "signal").max, 1_000_447);
    assert_eq!(stage(&s, "tick_to_order").p50, 7);
    assert_eq!(stage(&s, "tick_to_signal").count, 1);
    let capped = stage(&s, "risk").max;
    assert!((60_000_000_000..60_060_000_000).contains(&capped));
}

#[test]
fn merging_adds_up_the_samples() {
    let sample = |ns| StageSample {
        decode_ns: ns,
        gateway_ns: Some(ns),
        ..Default::default()
    };
    let mut a = Histos::new();
    a.record(&sample(10), 0);
    let mut b = Histos::new();
    b.record(&sample(30), 0);
    b.record(&sample(20), 0);
    assert!(a.can_merge(&b));
    a.add(&b);
    let s = stage(&a.stats(), "decode");
    assert_eq!((s.p50, s.max, s.count), (20, 30, 3));
    assert_eq!(stage(&a.stats(), "gateway").count, 3);
    assert_eq!(stage(&b.stats(), "decode").count, 2);
}

#[test]
fn reporters_say_whether_they_can_summarize() {
    let (sink, rep) = new_metrics(1, 1);
    assert!(rep.can_snapshot(&sink));
    let (mut sink, mut rep) = new_metrics(1, 1);
    sink.record(&StageSample::default());
    let taken = sink.take_interval();
    let snap = rep.try_report(&taken).unwrap();
    assert_eq!((snap.ticks, snap.interval[1].1.count), (1, 1));
    let again = rep.try_report(&sink.take_interval()).unwrap();
    assert_eq!((again.new_ticks, again.interval[1].1.count, again.cumulative[1].1.count), (0, 0, 1));
    assert_eq!(MetricsSnapshot::default().interval.len(), 0);
}
