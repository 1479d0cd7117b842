use cme_md_connector::gateway::{ExecType, MockGateway};
use cme_md_connector::orderbook::Bbo;
use cme_md_connector::risk::OrderRequest;
use cme_md_connector::{OrderSide, PRICE9_SCALE};

fn f64_to_price9(px: f64) -> i64 {
    (px * PRICE9_SCALE as f64).round() as i64
}

fn req(side: OrderSide, qty: i64, px: f64) -> OrderRequest {
    OrderRequest {
        instrument: 7,
        side,
        qty,
        px_raw: f64_to_price9(px),
    }
}

fn bbo(bid: f64, offer: f64) -> Bbo {
    Bbo {
        bid_px_raw: Some(f64_to_price9(bid)),
        bid_size: 10,
        offer_px_raw: Some(f64_to_price9(offer)),
        offer_size: 10,
    }
}

#[test]
fn assigns_monotonic_order_ids_starting_at_one() {
    let mut g = MockGateway::new();
    let (a1, f1) = g.submit(&req(OrderSide::Buy, 1, 100.0), &bbo(99.0, 100.0));
    let (a2, _) = g.submit(&req(OrderSide::Buy, 1, 100.0), &bbo(99.0, 100.0));
    assert_eq!(a1.order_id, 1);
    assert_eq!(f1.order_id, 1);
    assert_eq!(a2.order_id, 2);
    assert_eq!(g.accepted(), 2);
}

#[test]
fn acknowledges_with_new() {
    let mut g = MockGateway::new();
    let (ack, _) = g.submit(&req(OrderSide::Buy, 1, 100.0), &bbo(99.0, 100.0));
    assert_eq!(ack.exec_type, ExecType::New);
}

#[test]
fn marketable_buy_fills_at_the_offer() {
    let mut g = MockGateway::new();
    // Buy priced through the offer fills at the offer (touch).
    let (_, fill) = g.submit(&req(OrderSide::Buy, 3, 101.0), &bbo(99.75, 100.0));
    assert_eq!(fill.fill_px_raw, f64_to_price9(100.0));
    assert_eq!(fill.qty, 3);
    assert_eq!(fill.side, OrderSide::Buy);
    assert_eq!(fill.instrument, 7);
}

#[test]
fn non_marketable_buy_fills_at_limit() {
    let mut g = MockGateway::new();
    // Buy below the offer fills at its own limit.
    let (_, fill) = g.submit(&req(OrderSide::Buy, 1, 99.5), &bbo(99.25, 100.0));
    assert_eq!(fill.fill_px_raw, f64_to_price9(99.5));
}

#[test]
fn marketable_sell_fills_at_the_bid() {
    let mut g = MockGateway::new();
    let (_, fill) = g.submit(&req(OrderSide::Sell, 2, 99.0), &bbo(99.5, 100.0));
    assert_eq!(fill.fill_px_raw, f64_to_price9(99.5));
    assert_eq!(fill.side, OrderSide::Sell);
}

#[test]
fn non_marketable_sell_and_empty_sides_fill_at_limit() {
    let mut g = MockGateway::new();
    let (_, fill) = g.submit(&req(OrderSide::Sell, 2, 99.75), &bbo(99.5, 100.0));
    assert_eq!(fill.fill_px_raw, f64_to_price9(99.75));
    let (_, fill) = g.submit(&req(OrderSide::Buy, 2, 99.75), &Bbo::default());
    assert_eq!(fill.fill_px_raw, f64_to_price9(99.75));
    let (_, fill) = g.submit(&req(OrderSide::Sell, 2, 99.75), &Bbo::default());
    assert_eq!(fill.fill_px_raw, f64_to_price9(99.75));
}

#[test]
fn an_order_at_the_mid_fills_at_the_mid() {
    let mut g = MockGateway::new();
    for side in [OrderSide::Buy, OrderSide::Sell] {
        let (_, fill) = g.submit(&req(side, 1, 99.75), &bbo(99.5, 100.0));
        assert_eq!(fill.fill_px_raw, f64_to_price9(99.75));
    }
}

#[test]
fn a_default_gateway_numbers_from_zero() {
    let mut g = MockGateway::default();
    let (ack, fill) = g.submit(&req(OrderSide::Buy, 1, 100.0), &bbo(99.0, 100.0));
    assert_eq!((ack.order_id, fill.order_id, g.accepted()), (0, 0, 1));
}
