use std::collections::HashMap;

use cme_md_connector::signal::{Deviation, Signal, SignalConfig, SignalEngine, SignalKind};
use cme_md_connector::OrderSide;

const ALPHA: f64 = 0.1;
const Z_ENTRY: f64 = 2.0;
const Z_EXIT: f64 = 0.5;
const Z_STOP: f64 = 3.0;

/// An engine with the exponentially weighted model that feeds it.
struct Model {
    engine: SignalEngine,
    moments: HashMap<i32, (f64, f64)>,
}

impl Model {
    fn update(&mut self, id: i32, mid: f64) -> Option<Signal> {
        let (mean, var) = self.moments.get(&id).copied().unwrap_or((0.0, 0.0));
        let delta = mid - mean;
        let next = if self.engine.observed(id).unwrap_or(0) == 0 {
            (mid, 0.0)
        } else {
            (
                mean + ALPHA * delta,
                (1.0 - ALPHA) * (var + ALPHA * delta * delta),
            )
        };
        self.moments.insert(id, next);
        let std = var.sqrt();
        let z = (mid - mean) / std;
        self.engine.update(
            id,
            &Deviation {
                dispersed: !(std < 1e-9),
                above_entry: z >= Z_ENTRY,
                below_entry: z <= -Z_ENTRY,
                within_exit: z.abs() <= Z_EXIT,
                beyond_stop: z.abs() >= Z_STOP,
                z_bits: z.to_bits(),
            },
        )
    }
}

fn engine() -> Model {
    Model {
        engine: SignalEngine::new(SignalConfig::default(), &[1]),
        moments: HashMap::new(),
    }
}

/// Feed `n` samples alternating around 100 to establish a non-zero variance.
fn warmup(e: &mut Model, n: u32) {
    for i in 0..n {
        let mid = if i % 2 == 0 { 99.5 } else { 100.5 };
        assert!(e.update(1, mid).is_none(), "no signal during warmup");
    }
}

#[test]
fn no_signal_before_warmup_completes() {
    let mut e = engine();
    for i in 0..SignalConfig::default().warmup {
        let mid = if i % 2 == 0 { 99.5 } else { 100.5 };
        assert_eq!(e.update(1, mid), None);
    }
}

#[test]
fn enters_short_when_mid_spikes_high() {
    let mut e = engine();
    warmup(&mut e, 40);
    let sig = e.update(1, 110.0).expect("a large positive deviation fires");
    assert_eq!(sig.kind, SignalKind::Enter);
    assert_eq!(sig.side, OrderSide::Sell);
    assert!(f64::from_bits(sig.z_bits) >= Z_ENTRY);
}

#[test]
fn enters_long_when_mid_drops_low() {
    let mut e = engine();
    warmup(&mut e, 40);
    let sig = e.update(1, 90.0).expect("a large negative deviation fires");
    assert_eq!(sig.kind, SignalKind::Enter);
    assert_eq!(sig.side, OrderSide::Buy);
    assert!(f64::from_bits(sig.z_bits) <= -Z_ENTRY);
}

#[test]
fn does_not_reenter_while_in_position() {
    let mut e = engine();
    warmup(&mut e, 40);
    e.update(1, 110.0).expect("enter short");
    // Another high sample must not enter again.
    let again = e.update(1, 111.0);
    assert!(again.is_none() || again.unwrap().kind == SignalKind::Exit);
}

#[test]
fn exits_when_z_reverts_toward_mean() {
    let mut e = engine();
    warmup(&mut e, 40);
    e.update(1, 110.0).expect("enter short");
    // Pull the mid back near the mean -> exit.
    let exit = e.update(1, 100.0).expect("reversion flattens");
    assert_eq!(exit.kind, SignalKind::Exit);
    assert_eq!(exit.side, OrderSide::Buy); // flatten a short by buying
}

#[test]
fn unregistered_instrument_yields_no_signal() {
    let mut e = engine();
    assert_eq!(e.update(999, 100.0), None);
    assert_eq!(e.engine.observed(999), None);
    assert_eq!(e.engine.observed(1), Some(0));
}

fn reading(above: bool, below: bool, exit: bool, stop: bool) -> Deviation {
    Deviation {
        dispersed: true,
        above_entry: above,
        below_entry: below,
        within_exit: exit,
        beyond_stop: stop,
        z_bits: 7,
    }
}

#[test]
fn stops_out_of_a_long_and_can_enter_again() {
    let mut e = SignalEngine::new(SignalConfig { warmup: 0 }, &[1]);
    let buy = e.update(1, &reading(false, true, false, true)).unwrap();
    assert_eq!((buy.kind, buy.side, buy.z_bits), (SignalKind::Enter, OrderSide::Buy, 7));
    assert_eq!(e.update(1, &reading(false, true, false, false)), None);
    let stop = e.update(1, &reading(false, true, false, true)).unwrap();
    assert_eq!((stop.kind, stop.side), (SignalKind::Exit, OrderSide::Sell));
    let again = e.update(1, &reading(true, false, false, false)).unwrap();
    assert_eq!((again.kind, again.side), (SignalKind::Enter, OrderSide::Sell));
    assert_eq!(e.observed(1), Some(4));
}

#[test]
fn a_model_without_spread_never_fires() {
    let mut e = SignalEngine::new(SignalConfig { warmup: 0 }, &[1]);
    let mut d = reading(true, false, false, false);
    d.dispersed = false;
    assert_eq!(e.update(1, &d), None);
    assert!(e.update(1, &reading(true, false, false, false)).is_some());
}

#[test]
fn warmup_counts_samples_of_one_instrument() {
    let mut e = SignalEngine::new(SignalConfig { warmup: 2 }, &[1, 2]);
    let d = reading(true, false, false, false);
    assert!(e.update(1, &d).is_none());
    assert!(e.update(2, &d).is_none());
    assert!(e.update(1, &d).is_none());
    assert!(e.update(1, &d).is_some());
    assert!(e.update(2, &d).is_none());
}
