use cme_md_connector::risk::{
    Accounting, AverageAfter, OrderRequest, RejectReason, RiskConfig, RiskManager,
};
use cme_md_connector::{OrderSide, PRICE9_SCALE};

fn price9_to_f64(raw: i64) -> f64 {
    raw as f64 / PRICE9_SCALE as f64
}

fn f64_to_price9(px: f64) -> i64 {
    (px * PRICE9_SCALE as f64).round() as i64
}

/// A risk manager of instrument 1 with the ledger that values it.
struct Desk {
    risk: RiskManager,
    loss_limit: f64,
    band: f64,
    multiplier: f64,
    avg_px: f64,
    realized: f64,
    mark: f64,
}

impl Desk {
    fn new(position_limit: i64, loss_limit: f64, multiplier: f64) -> Desk {
        Desk {
            risk: RiskManager::new(RiskConfig { position_limit }, &[1]),
            loss_limit,
            band: 20.0 * 0.25,
            multiplier,
            avg_px: 0.0,
            realized: 0.0,
            mark: 0.0,
        }
    }

    fn total_pnl(&self) -> f64 {
        let net = self.risk.net_position(1) as f64;
        self.realized + (self.mark - self.avg_px) * net * self.multiplier
    }

    fn check(&self, req: &OrderRequest, mid: f64) -> Result<(), RejectReason> {
        let in_band = !((price9_to_f64(req.px_raw) - mid).abs() > self.band);
        self.risk.check(req, in_band, self.total_pnl().to_bits())
    }

    fn mark(&mut self, mid: f64) {
        self.mark = mid;
        let breached = self.total_pnl() <= -self.loss_limit;
        self.risk.mark(breached);
    }

    fn on_fill(&mut self, side: OrderSide, qty: i64, fill_px_raw: i64) {
        let px = price9_to_f64(fill_px_raw);
        match self.risk.on_fill(1, side, qty).expect("instrument 1 is known") {
            Accounting::Weigh { held, size } => {
                let cost = self.avg_px * held as f64 + px * qty as f64;
                self.avg_px = if size > 0 { cost / size as f64 } else { 0.0 };
            }
            Accounting::Realize { closed, long, average } => {
                let dir = if long { 1.0 } else { -1.0 };
                self.realized += (px - self.avg_px) * closed as f64 * dir * self.multiplier;
                match average {
                    AverageAfter::AtFill => self.avg_px = px,
                    AverageAfter::Flat => self.avg_px = 0.0,
                    AverageAfter::Kept => {}
                }
            }
        }
        let breached = self.total_pnl() <= -self.loss_limit;
        self.risk.refresh_kill(breached);
    }
}

fn mgr() -> Desk {
    Desk::new(RiskConfig::default().position_limit, 10_000.0, 1.0)
}

fn order(side: OrderSide, qty: i64, px: f64) -> OrderRequest {
    OrderRequest {
        instrument: 1,
        side,
        qty,
        px_raw: f64_to_price9(px),
    }
}

#[test]
fn passes_a_reasonable_in_limit_order() {
    let m = mgr();
    assert_eq!(m.check(&order(OrderSide::Buy, 1, 100.0), 100.0), Ok(()));
}

#[test]
fn rejects_price_far_from_mid() {
    let m = mgr();
    // 20 ticks * 0.25 = 5.0 band; 100 vs mid 80 is 20 away.
    let req = order(OrderSide::Buy, 1, 100.0);
    assert_eq!(
        m.check(&req, 80.0),
        Err(RejectReason::PriceUnreasonable { px: req.px_raw })
    );
}

#[test]
fn rejects_order_breaching_position_limit() {
    let m = Desk::new(5, 10_000.0, 1.0);
    let req = order(OrderSide::Buy, 6, 100.0);
    assert_eq!(
        m.check(&req, 100.0),
        Err(RejectReason::PositionLimit {
            projected: 6,
            limit: 5
        })
    );
}

#[test]
fn position_limit_allows_risk_reducing_order() {
    let mut m = Desk::new(5, 10_000.0, 1.0);
    // Go long 5 (at the limit), then a sell that reduces is allowed.
    m.on_fill(OrderSide::Buy, 5, f64_to_price9(100.0));
    assert_eq!(m.risk.net_position(1), 5);
    assert_eq!(m.check(&order(OrderSide::Sell, 2, 100.0), 100.0), Ok(()));
}

#[test]
fn realizes_pnl_on_a_round_trip() {
    let mut m = mgr();
    m.on_fill(OrderSide::Buy, 10, f64_to_price9(100.0));
    m.on_fill(OrderSide::Sell, 10, f64_to_price9(102.0));
    assert_eq!(m.risk.net_position(1), 0);
    // (102 - 100) * 10 * 1.0 = 20
    assert!((m.total_pnl() - 20.0).abs() < 1e-6);
}

#[test]
fn marks_unrealized_pnl_to_current_mid() {
    let mut m = mgr();
    m.on_fill(OrderSide::Buy, 10, f64_to_price9(100.0));
    m.mark(101.0);
    // (101 - 100) * 10 = 10 unrealized
    assert!((m.total_pnl() - 10.0).abs() < 1e-6);
}

#[test]
fn applies_contract_multiplier_to_pnl() {
    let mut m = Desk::new(100, 10_000.0, 50.0);
    m.on_fill(OrderSide::Buy, 2, f64_to_price9(5000.0));
    m.on_fill(OrderSide::Sell, 2, f64_to_price9(5001.0));
    // (5001 - 5000) * 2 * 50 = 100
    assert!((m.total_pnl() - 100.0).abs() < 1e-6);
}

#[test]
fn daily_loss_kill_switch_latches_blocks_increasing_allows_flatten() {
    // A position limit of 1000 keeps the position check out of the way.
    let mut m = Desk::new(1000, 50.0, 1.0);
    // Long 100 @ 100, then mark down to 99 -> -100 unrealized < -50.
    m.on_fill(OrderSide::Buy, 100, f64_to_price9(100.0));
    m.mark(99.0);
    assert!(m.risk.is_killed());

    // A risk-increasing order is blocked by the loss limit...
    match m.check(&order(OrderSide::Buy, 1, 99.0), 99.0) {
        Err(RejectReason::DailyLossLimit { pnl_bits }) => {
            assert_eq!(f64::from_bits(pnl_bits), -100.0)
        }
        other => panic!("expected loss-limit reject, got {other:?}"),
    }
    // ...but flattening is still permitted.
    assert_eq!(m.check(&order(OrderSide::Sell, 10, 99.0), 99.0), Ok(()));

    // Latched: recovering the mark does not un-kill.
    m.mark(100.0);
    assert!(m.risk.is_killed());
}

#[test]
fn fills_are_accounted_by_what_they_do_to_the_position() {
    let mut m = RiskManager::new(RiskConfig::default(), &[1]);
    assert_eq!(
        m.on_fill(1, OrderSide::Buy, 3),
        Some(Accounting::Weigh { held: 0, size: 3 })
    );
    assert_eq!(
        m.on_fill(1, OrderSide::Buy, 2),
        Some(Accounting::Weigh { held: 3, size: 5 })
    );
    let realize = |closed, long, average| Some(Accounting::Realize { closed, long, average });
    assert_eq!(m.on_fill(1, OrderSide::Sell, 1), realize(1, true, AverageAfter::Kept));
    assert_eq!(m.on_fill(1, OrderSide::Sell, 6), realize(4, true, AverageAfter::AtFill));
    assert_eq!(m.net_position(1), -2);
    assert_eq!(m.on_fill(1, OrderSide::Buy, 2), realize(2, false, AverageAfter::Flat));
    assert_eq!(m.net_position(1), 0);
    // Nothing changes sides on an empty fill, and a negative one closes nothing.
    m.on_fill(1, OrderSide::Buy, 4);
    assert_eq!(m.on_fill(1, OrderSide::Buy, 0), realize(0, true, AverageAfter::Kept));
    assert_eq!(m.on_fill(1, OrderSide::Buy, -1), realize(-1, true, AverageAfter::Kept));
    assert_eq!(m.net_position(1), 3);
}

#[test]
fn unknown_instruments_have_no_position() {
    let mut m = RiskManager::new(RiskConfig { position_limit: 2 }, &[1]);
    assert_eq!(m.on_fill(9, OrderSide::Buy, 5), None);
    assert_eq!(m.net_position(9), 0);
    assert_eq!(m.net_position_total(), 0);
    let req = OrderRequest {
        instrument: 9,
        side: OrderSide::Sell,
        qty: 3,
        px_raw: 1,
    };
    assert_eq!(
        m.check(&req, true, 0),
        Err(RejectReason::PositionLimit {
            projected: -3,
            limit: 2
        })
    );
}

#[test]
fn the_total_adds_up_signed_positions() {
    let mut m = RiskManager::new(RiskConfig::default(), &[1, 2, 3]);
    m.on_fill(1, OrderSide::Buy, 10);
    m.on_fill(2, OrderSide::Sell, 25);
    m.on_fill(3, OrderSide::Buy, 2);
    assert_eq!(m.net_position_total(), -13);
    assert_eq!(m.net_sum(), -13);
}

#[test]
fn the_switch_needs_a_breach() {
    let mut m = RiskManager::new(RiskConfig::default(), &[1]);
    m.mark(false);
    m.refresh_kill(false);
    assert!(!m.is_killed());
    m.refresh_kill(true);
    m.mark(false);
    assert!(m.is_killed());
}

#[test]
fn opposite_fills_give_the_position_back() {
    let mut m = RiskManager::new(RiskConfig::default(), &[1]);
    m.on_fill(1, OrderSide::Sell, 7);
    m.on_fill(1, OrderSide::Buy, 3);
    m.on_fill(1, OrderSide::Sell, 3);
    assert_eq!(m.net_position(1), -7);
}

#[test]
fn orders_at_the_edge_of_the_range_are_judged() {
    let mut m = RiskManager::new(RiskConfig::default(), &[1]);
    m.on_fill(1, OrderSide::Buy, 5);
    let req = OrderRequest {
        instrument: 1,
        side: OrderSide::Buy,
        qty: i64::MIN,
        px_raw: 1,
    };
    let far = Err(RejectReason::PositionLimit {
        projected: i64::MIN + 5,
        limit: 100,
    });
    assert_eq!(m.check(&req, true, 0), far);
    m.refresh_kill(true);
    assert_eq!(m.check(&req, true, 0), far);
    assert_eq!(
        m.check(&req, false, 0),
        Err(RejectReason::PriceUnreasonable { px: 1 })
    );
}

#[test]
fn rejections_are_put_into_words() {
    let px = RejectReason::PriceUnreasonable { px: -7 };
    assert_eq!(px.message("0"), "price -7 outside reasonable band around mid");
    let position = RejectReason::PositionLimit {
        projected: -6,
        limit: 5,
    };
    assert_eq!(
        position.message("0"),
        "position limit exceeded: projected -6, limit 5"
    );
    let pnl = -100.5f64;
    let loss = RejectReason::DailyLossLimit {
        pnl_bits: pnl.to_bits(),
    };
    assert_eq!(
        loss.message(&pnl.to_string()),
        "daily loss limit breached: pnl -100.5"
    );
}
