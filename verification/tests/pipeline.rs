use std::collections::HashMap;

use cme_md_connector::mdp3::book_refresh::MdEntry;
use cme_md_connector::mdp3::encode::PacketBuilder;
use cme_md_connector::mdp3::enums::{MdEntryType, MdUpdateAction};
use cme_md_connector::metrics::{new_metrics, MetricsSink, Reporter, StageStat};
use cme_md_connector::orderbook::Bbo;
use cme_md_connector::pipeline::{
    decode, stage_sample, Pipeline, PipelineConfig, Stamps, Step, Tick, TickOutcome, Valuation,
};
use cme_md_connector::risk::{Accounting, AverageAfter, RiskConfig};
use cme_md_connector::signal::Deviation;
use cme_md_connector::timing::Timer;
use cme_md_connector::{Side, PRICE9_SCALE};

fn price9_to_f64(raw: i64) -> f64 {
    raw as f64 / PRICE9_SCALE as f64
}

fn f64_to_price9(px: f64) -> i64 {
    (px * PRICE9_SCALE as f64).round() as i64
}

#[derive(Clone, Copy, Default)]
struct Account {
    mean: f64,
    var: f64,
    avg_px: f64,
    realized: f64,
    mark: f64,
}

/// A pipeline with its sink and the floating-point side of it.
struct Desk {
    p: Pipeline,
    sink: MetricsSink,
    rep: Reporter,
    accounts: HashMap<i32, Account>,
    loss_limit: f64,
    multiplier: f64,
}

impl Desk {
    fn new(cfg: PipelineConfig) -> Desk {
        let (sink, rep) = new_metrics(1000, 42);
        Desk {
            p: Pipeline::new(&cfg, Timer::new()),
            sink,
            rep,
            accounts: cfg.instruments.iter().map(|&id| (id, Account::default())).collect(),
            loss_limit: 10_000.0,
            multiplier: 50.0,
        }
    }

    fn total_pnl(&self) -> f64 {
        self.accounts
            .iter()
            .map(|(&id, a)| {
                let net = self.p.risk().net_position(id) as f64;
                a.realized + (a.mark - a.avg_px) * net * self.multiplier
            })
            .sum()
    }

    fn value(&mut self, id: i32, bbo: Bbo) -> Valuation {
        let (bid, offer) = bbo.touch().unwrap();
        let mid = (price9_to_f64(bid) + price9_to_f64(offer)) / 2.0;
        let first = self.p.observed(id) == Some(0);
        let a = self.accounts.get_mut(&id).unwrap();
        a.mark = mid;
        let (mean, std) = (a.mean, a.var.sqrt());
        let delta = mid - mean;
        if first {
            a.mean = mid;
            a.var = 0.0;
        } else {
            a.mean += 0.1 * delta;
            a.var = 0.9 * (a.var + 0.1 * delta * delta);
        }
        let z = delta / std;
        let pnl = self.total_pnl();
        let px_raw = f64_to_price9(mid);
        Valuation {
            breached: pnl <= -self.loss_limit,
            deviation: Deviation {
                dispersed: !(std < 1e-9),
                above_entry: z >= 2.0,
                below_entry: z <= -2.0,
                within_exit: z.abs() <= 0.5,
                beyond_stop: z.abs() >= 3.0,
                z_bits: z.to_bits(),
            },
            px_raw,
            in_band: !((price9_to_f64(px_raw) - mid).abs() > 20.0 * 0.25),
            pnl_bits: pnl.to_bits(),
        }
    }

    fn book_fill(&mut self, id: i32, qty: i64, px_raw: i64, effect: Accounting) {
        let px = price9_to_f64(px_raw);
        let multiplier = self.multiplier;
        let a = self.accounts.get_mut(&id).unwrap();
        match effect {
            Accounting::Weigh { held, size } => {
                let cost = a.avg_px * held as f64 + px * qty as f64;
                a.avg_px = if size > 0 { cost / size as f64 } else { 0.0 };
            }
            Accounting::Realize { closed, long, average } => {
                let dir = if long { 1.0 } else { -1.0 };
                a.realized += (px - a.avg_px) * closed as f64 * dir * multiplier;
                match average {
                    AverageAfter::AtFill => a.avg_px = px,
                    AverageAfter::Flat => a.avg_px = 0.0,
                    AverageAfter::Kept => {}
                }
            }
        }
    }

    fn process(&mut self, packet: &[u8]) -> TickOutcome {
        let t0 = self.p.raw();
        let quote = match self.p.process(packet, t0, &mut self.sink) {
            Tick::Done(outcome) => return outcome,
            Tick::Quoted(q) => q,
        };
        let id = quote.instrument();
        let v = self.value(id, quote.bbo());
        assert!(self.p.has_headroom(id));
        let pending = match self.p.on_quote(quote, &v, &mut self.sink) {
            Step::Done(outcome) => return outcome,
            Step::Filled(p) => p,
        };
        let fill = pending.fill();
        self.book_fill(id, fill.qty, fill.fill_px_raw, pending.effect().unwrap());
        let breached = self.total_pnl() <= -self.loss_limit;
        self.p.settle(pending, breached, &mut self.sink)
    }
}

/// A mean-reverting price walk per instrument, quoted one tick around the mid.
struct Walk {
    instruments: Vec<i32>,
    prices: Vec<f64>,
    seqs: Vec<u32>,
    state: u64,
    n: usize,
}

impl Walk {
    fn new(instruments: Vec<i32>) -> Walk {
        Walk {
            prices: vec![5000.0; instruments.len()],
            seqs: vec![0; instruments.len()],
            instruments,
            state: 0xC0FF_EE12_3456_789A,
            n: 0,
        }
    }

    fn uniform(&mut self) -> f64 {
        self.state ^= self.state << 13;
        self.state ^= self.state >> 7;
        self.state ^= self.state << 17;
        (self.state >> 11) as f64 / (1u64 << 53) as f64
    }

    fn gauss(&mut self) -> f64 {
        (0..12).map(|_| self.uniform()).sum::<f64>() - 6.0
    }

    fn next_packet(&mut self) -> Vec<u8> {
        let i = self.n % self.instruments.len();
        self.n += 1;
        let shock = self.gauss();
        self.prices[i] += 0.05 * (5000.0 - self.prices[i]) + 0.5 * shock;
        let mid = (self.prices[i] / 0.25).round() * 0.25;
        let mut side = |entry_type, px: f64| {
            self.seqs[i] += 1;
            MdEntry {
                security_id: self.instruments[i],
                rpt_seq: self.seqs[i],
                px_raw: f64_to_price9(px),
                size: 10,
                num_orders: 1,
                price_level: 1,
                update_action: MdUpdateAction::Overlay,
                entry_type,
            }
        };
        let entries = [
            side(MdEntryType::Bid, mid - 0.25),
            side(MdEntryType::Offer, mid + 0.25),
        ];
        let mut b = PacketBuilder::new(self.n as u32, self.n as u64);
        b.add_incremental_refresh(self.n as u64, 0x80, &entries);
        b.finish()
    }
}

fn stage(stats: &[(&'static str, StageStat)], name: &str) -> StageStat {
    stats.iter().find(|(n, _)| *n == name).unwrap().1
}

#[test]
fn processes_a_generated_stream_and_emits_orders() {
    let cfg = PipelineConfig {
        instruments: vec![1],
        ..Default::default()
    };
    let mut d = Desk::new(cfg);
    let mut g = Walk::new(vec![1]);
    let mut signals = 0;
    let mut orders = 0;
    for _ in 0..8000 {
        let packet = g.next_packet();
        let out = d.process(&packet);
        signals += out.signal as u32;
        orders += out.order as u32;
    }
    assert!(signals > 0, "the strategy should fire signals");
    assert!(orders > 0, "passing signals should reach the gateway");
    assert_eq!(d.p.orders_sent(), orders as u64);
    assert_eq!(d.p.book().total_gaps(), 0);

    // Every tick and every order was recorded.
    let snap = d.rep.snapshot(&mut d.sink);
    assert_eq!(snap.ticks, 8000);
    assert_eq!(snap.orders, orders as u64);
    assert_eq!(snap.orders + snap.rejects, signals as u64);
    assert_eq!(stage(&snap.cumulative, "decode").count, 8000);
    assert_eq!(stage(&snap.cumulative, "risk").count, signals as u64);
    assert_eq!(stage(&snap.cumulative, "gateway").count, orders as u64);
    assert_eq!(snap.net_position, d.p.risk().net_position_total());
    assert!(snap.net_position.abs() <= 100);
}

#[test]
fn risk_rejections_block_orders() {
    // A zero position limit rejects every order (projected |1| > 0).
    let cfg = PipelineConfig {
        instruments: vec![1],
        risk: RiskConfig { position_limit: 0 },
        ..Default::default()
    };
    assert!(cfg.bounds_positions());
    let mut d = Desk::new(cfg);
    let mut g = Walk::new(vec![1]);
    let mut rejects = 0;
    for _ in 0..8000 {
        let packet = g.next_packet();
        let out = d.process(&packet);
        rejects += out.reject as u32;
        assert!(!out.order, "no order should pass a zero-width band");
    }
    assert!(rejects > 0, "expected risk rejections");
    assert_eq!(d.p.orders_sent(), 0);
    assert_eq!(d.rep.snapshot(&mut d.sink).rejects, rejects as u64);
}

#[test]
fn garbage_input_is_handled_without_panic() {
    let mut d = Desk::new(PipelineConfig::default());
    assert_eq!(d.process(&[0xFF, 0x00, 0x01]), TickOutcome::default());
    assert_eq!(d.process(&[]), TickOutcome::default());
    let snap = d.rep.snapshot(&mut d.sink);
    assert_eq!(snap.ticks, 2);
    assert_eq!(stage(&snap.interval, "book").count, 2);
}

#[test]
fn several_instruments_trade_side_by_side() {
    let cfg = PipelineConfig {
        instruments: vec![1, 2, 3, 4],
        ..Default::default()
    };
    let mut d = Desk::new(cfg);
    let mut g = Walk::new(vec![1, 2, 3, 4]);
    let mut orders = 0;
    for _ in 0..8000 {
        let packet = g.next_packet();
        orders += d.process(&packet).order as u64;
    }
    assert!(orders > 0);
    for id in 1..=4 {
        let book = d.p.book().book(id).unwrap();
        assert_eq!((book.depth(Side::Bid), book.depth(Side::Offer)), (1, 1));
        assert!(d.p.risk().net_position(id).abs() <= 100);
    }
    let total: i64 = (1..=4).map(|id| d.p.risk().net_position(id)).sum();
    assert_eq!(d.p.risk().net_position_total(), total);
}

fn entry(id: i32, rpt_seq: u32, entry_type: MdEntryType, px_raw: i64) -> MdEntry {
    MdEntry {
        security_id: id,
        rpt_seq,
        px_raw,
        size: 1,
        num_orders: 1,
        price_level: 1,
        update_action: MdUpdateAction::Overlay,
        entry_type,
    }
}

fn packet(entries: &[MdEntry]) -> Vec<u8> {
    let mut b = PacketBuilder::new(1, 1);
    b.add_incremental_refresh(1, 0x80, entries);
    b.finish()
}

/// A valuation that fires an entry on the sell side.
fn rich(px_raw: i64) -> Valuation {
    Valuation {
        breached: false,
        deviation: Deviation {
            dispersed: true,
            above_entry: true,
            below_entry: false,
            within_exit: false,
            beyond_stop: true,
            z_bits: 0,
        },
        px_raw,
        in_band: true,
        pnl_bits: 0,
    }
}

fn go(p: &mut Pipeline, packet: &[u8], sink: &mut MetricsSink) -> Tick {
    let t0 = p.raw();
    p.process(packet, t0, sink)
}

fn eager(position_limit: i64) -> PipelineConfig {
    let mut cfg = PipelineConfig::default();
    cfg.signal.warmup = 0;
    cfg.risk.position_limit = position_limit;
    cfg
}

#[test]
fn the_last_registered_update_is_quoted() {
    let (mut sink, _) = new_metrics(1_000_000_000, 1);
    let mut p = Pipeline::new(&PipelineConfig::default(), Timer::new());
    let one_sided = packet(&[entry(1, 1, MdEntryType::Bid, 100)]);
    assert!(matches!(go(&mut p, &one_sided, &mut sink), Tick::Done(_)));
    let unknown = packet(&[entry(9, 1, MdEntryType::Bid, 100)]);
    assert!(matches!(go(&mut p, &unknown, &mut sink), Tick::Done(_)));
    let both = packet(&[
        entry(1, 2, MdEntryType::Offer, 104),
        entry(9, 2, MdEntryType::Offer, 7),
    ]);
    match go(&mut p, &both, &mut sink) {
        Tick::Quoted(q) => {
            assert_eq!(q.instrument(), 1);
            assert_eq!(q.bbo().touch(), Some((100, 104)));
        }
        other => panic!("expected a quote, got {other:?}"),
    }
}

#[test]
fn entries_beyond_the_batch_are_dropped() {
    let (mut sink, _) = new_metrics(1_000_000_000, 1);
    let mut p = Pipeline::new(&PipelineConfig::default(), Timer::new());
    let mut entries: Vec<MdEntry> = (0..70)
        .map(|i| entry(1, i + 1, MdEntryType::Bid, i64::from(i)))
        .collect();
    go(&mut p, &packet(&entries), &mut sink);
    assert_eq!(p.book().book(1).unwrap().bbo().bid_px_raw, Some(63));
    entries.truncate(3);
    go(&mut p, &packet(&entries), &mut sink);
    assert_eq!(p.book().book(1).unwrap().bbo().bid_px_raw, Some(2));
}

#[test]
fn a_signal_becomes_an_order_at_the_mid() {
    let (mut sink, mut rep) = new_metrics(1_000_000_000, 1);
    let mut p = Pipeline::new(&eager(5), Timer::new());
    let quote = packet(&[
        entry(1, 1, MdEntryType::Bid, 100),
        entry(1, 2, MdEntryType::Offer, 104),
    ]);
    let q = match go(&mut p, &quote, &mut sink) {
        Tick::Quoted(q) => q,
        other => panic!("expected a quote, got {other:?}"),
    };
    let pending = match p.on_quote(q, &rich(102), &mut sink) {
        Step::Filled(f) => f,
        other => panic!("expected a fill, got {other:?}"),
    };
    let fill = pending.fill();
    assert_eq!((fill.order_id, fill.qty, fill.fill_px_raw), (1, 1, 102));
    assert_eq!(pending.effect(), Some(Accounting::Weigh { held: 0, size: 1 }));
    assert_eq!(p.risk().net_position(1), -1);
    let out = p.settle(pending, true, &mut sink);
    assert_eq!(
        out,
        TickOutcome {
            signal: true,
            order: true,
            reject: false
        }
    );
    assert!(p.risk().is_killed());
    let snap = rep.snapshot(&mut sink);
    assert_eq!((snap.orders, snap.net_position, snap.ticks), (1, -1, 1));
    assert_eq!(stage(&snap.interval, "tick_to_order").count, 1);

    // Short and killed: the exit buys the position back all the same.
    let q = match go(&mut p, &quote, &mut sink) {
        Tick::Quoted(q) => q,
        other => panic!("expected a quote, got {other:?}"),
    };
    match p.on_quote(q, &rich(102), &mut sink) {
        Step::Filled(f) => assert_eq!(
            f.effect(),
            Some(Accounting::Realize {
                closed: 1,
                long: false,
                average: AverageAfter::Flat
            })
        ),
        other => panic!("expected a fill, got {other:?}"),
    }
    assert_eq!(p.orders_sent(), 2);
}

#[test]
fn a_killed_pipeline_opens_nothing() {
    let (mut sink, _) = new_metrics(1_000_000_000, 1);
    let mut p = Pipeline::new(&eager(5), Timer::new());
    let quote = packet(&[
        entry(1, 1, MdEntryType::Bid, 100),
        entry(1, 2, MdEntryType::Offer, 104),
    ]);
    let mut v = rich(102);
    v.breached = true;
    let q = match go(&mut p, &quote, &mut sink) {
        Tick::Quoted(q) => q,
        other => panic!("expected a quote, got {other:?}"),
    };
    match p.on_quote(q, &v, &mut sink) {
        Step::Done(out) => assert!(out.signal && out.reject && !out.order),
        other => panic!("expected a reject, got {other:?}"),
    }
    assert_eq!(p.risk().net_position(1), 0);
    assert_eq!(p.observed(1), Some(1));
    assert_eq!(p.observed(2), None);
}

#[test]
fn wide_limits_leave_positions_unbounded() {
    assert!(PipelineConfig::default().bounds_positions());
    assert!(!eager(i64::MAX).bounds_positions());
    assert!(eager(i64::MIN).bounds_positions());
    let p = Pipeline::new(&eager(i64::MAX), Timer::new());
    assert!(p.has_headroom(1));
    let mut cfg = eager(5);
    cfg.order_qty = i64::MIN;
    assert!(!Pipeline::new(&cfg, Timer::new()).has_headroom(1));
}

#[test]
fn samples_are_measured_between_their_stamps() {
    let timer = Timer::new();
    let at = Stamps {
        t0: 1_000,
        t1: 2_001_000,
        t2: 5_001_000,
        t3: 9_001_000,
        t4: 14_001_000,
        t5: 20_001_000,
    };
    let ns = |ticks| timer.delta_ns(0, ticks);
    let order = TickOutcome {
        signal: true,
        order: true,
        reject: false,
    };
    let s = stage_sample(&timer, &at, true, order);
    assert_eq!(s.decode_ns, ns(2_000_000));
    assert_eq!(s.book_ns, ns(3_000_000));
    assert_eq!(s.signal_ns, ns(4_000_000));
    assert_eq!(s.tick_to_signal_ns, ns(9_000_000));
    assert_eq!(s.risk_ns, Some(ns(5_000_000)));
    assert_eq!(s.gateway_ns, Some(ns(6_000_000)));
    assert_eq!(s.tick_to_order_ns, Some(ns(20_000_000)));
    let quiet = stage_sample(&timer, &at, false, TickOutcome::default());
    assert_eq!((quiet.signal_ns, quiet.risk_ns), (0, None));
    assert_eq!((quiet.gateway_ns, quiet.tick_to_order_ns), (None, None));
}

#[test]
fn counts_hold_over_several_snapshots() {
    let cfg = PipelineConfig {
        instruments: vec![1],
        risk: RiskConfig { position_limit: 1 },
        ..Default::default()
    };
    let mut d = Desk::new(cfg);
    let mut g = Walk::new(vec![1]);
    for i in 0..6000u64 {
        let packet = g.next_packet();
        d.process(&packet);
        if i % 1000 == 999 {
            let snap = d.rep.snapshot(&mut d.sink);
            for name in ["decode", "book", "signal"] {
                assert_eq!(stage(&snap.cumulative, name).count, snap.ticks);
            }
            assert_eq!(stage(&snap.cumulative, "gateway").count, snap.orders);
            assert_eq!(stage(&snap.cumulative, "risk").count, snap.orders + snap.rejects);
            assert!(stage(&snap.cumulative, "tick_to_order").count >= snap.orders);
        }
    }
}

#[test]
fn decoding_keeps_the_first_entries_of_a_packet() {
    let entries: Vec<MdEntry> = (0..70)
        .map(|i| entry(1, i + 1, MdEntryType::Bid, i64::from(i)))
        .collect();
    assert_eq!(decode(&packet(&entries)).as_slice(), &entries[..64]);
    assert_eq!(decode(&packet(&entries[..2])).as_slice(), &entries[..2]);
    assert!(decode(&[1, 2, 3]).is_empty());
}
