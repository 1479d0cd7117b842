use cme_md_connector::timing::{narrow, Timer};

#[test]
fn raw_is_monotonic_non_decreasing() {
    let t = Timer::new();
    let a = t.raw();
    let b = t.raw();
    assert!(b >= a);
}

#[test]
fn delta_of_equal_raw_is_zero() {
    let t = Timer::new();
    let r = t.raw();
    assert_eq!(t.delta_ns(r, r), 0);
    // An inverted interval is clamped to zero rather than underflowing.
    assert_eq!(t.delta_ns(r + 5, r), 0);
}

#[test]
fn delta_of_a_real_interval_is_positive() {
    let t = Timer::new();
    let start = t.raw();
    // Spin until the monotonic clock advances past its own resolution.
    let mut end = t.raw();
    while t.delta_ns(start, end) == 0 {
        end = t.raw();
    }
    assert!(t.delta_ns(start, end) > 0);
}

#[test]
fn resolution_is_positive_and_plausible() {
    let t = Timer::new();
    let res = t.resolution_ns();
    assert!(res >= 1, "resolution must be positive");
    // Sanity bound: any reasonable monotonic clock resolves below 1ms.
    assert!(res < 1_000_000, "resolution {res}ns is implausibly coarse");
}

#[test]
fn narrowing_keeps_the_least_positive_interval() {
    let mut min = u64::MAX;
    for d in [0, 90, 42, 0, 84] {
        min = narrow(min, d);
    }
    assert_eq!(min, 42);
    assert_eq!(narrow(u64::MAX, 0), u64::MAX);
}

#[test]
fn clones_and_defaults_read_a_clock() {
    let t = Timer::default();
    let c = t.clone();
    let a = t.raw();
    let b = c.raw();
    assert_eq!(c.delta_ns(b, a.min(b)), 0);
}

#[test]
fn equal_intervals_are_equally_long_on_a_timer_and_its_clone() {
    let t = Timer::new();
    let c = t.clone();
    let ns = t.delta_ns(1_000, 4_000_001_000);
    assert!(ns > 0);
    assert_eq!(t.delta_ns(5_000, 4_000_005_000), ns);
    assert_eq!(c.delta_ns(0, 4_000_000_000), ns);
}

#[test]
fn readings_show_their_least_step() {
    let t = Timer::new();
    assert_eq!(t.resolution_from(&vec![7]), 1);
    assert_eq!(t.resolution_from(&vec![7, 7, 3]), 1);
    let long = t.delta_ns(0, 9_000_000_000);
    let short = t.delta_ns(0, 4_000_000_000);
    assert!(0 < short && short < long);
    let readings = vec![0, 9_000_000_000, 9_000_000_000, 13_000_000_000, 1];
    assert_eq!(t.resolution_from(&readings), short);
}
