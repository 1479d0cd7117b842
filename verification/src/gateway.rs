//! Mock order gateway.
//!
//! Accepts a risk-approved order, assigns a monotonic `OrderID`, acknowledges it
//! (`ExecType::New`), and simulates an immediate full fill: marketable orders
//! fill at the touch, otherwise at the limit price. The emitted [`Fill`] is fed
//! back into the risk manager's position/PnL state by the connector.
use vstd::prelude::*;

use crate::orderbook::Bbo;
use crate::risk::OrderRequest;
use crate::{InstrumentId, OrderSide};

verus! {

/// FIX-style execution type (the subset in use).
#[derive(Debug, Clone, Copy, PartialEq, Eq, Structural)]
pub enum ExecType {
    New,
    Filled,
}

/// Acknowledgement that the gateway accepted an order.
#[derive(Debug, Clone, Copy, PartialEq, Eq, Structural)]
pub struct Ack {
    pub order_id: u64,
    pub exec_type: ExecType,
}

/// A simulated fill report.
#[derive(Debug, Clone, Copy, PartialEq, Eq, Structural)]
pub struct Fill {
    pub order_id: u64,
    pub instrument: InstrumentId,
    pub side: OrderSide,
    pub qty: i64,
    /// Fill price as a raw `PRICE9` integer.
    pub fill_px_raw: i64,
}

/// The number after a counter's; the largest is followed by 0.
pub open spec fn next_count(n: u64) -> u64 {
    ((n + 1) % 0x1_0000_0000_0000_0000) as u64
}

/// The other side's best price that an order meets or crosses, if any.
pub open spec fn crossed(req: OrderRequest, bbo: Bbo) -> Option<i64> {
    match req.side {
        OrderSide::Buy => match bbo.offer_px_raw {
            Some(offer) => if req.px_raw >= offer {
                Some(offer)
            } else {
                None
            },
            None => None,
        },
        OrderSide::Sell => match bbo.bid_px_raw {
            Some(bid) => if req.px_raw <= bid {
                Some(bid)
            } else {
                None
            },
            None => None,
        },
    }
}

/// The price at which an order fills: the touch if it crosses, else its limit.
pub open spec fn fill_price(req: OrderRequest, bbo: Bbo) -> i64 {
    match crossed(req, bbo) {
        Some(px) => px,
        None => req.px_raw,
    }
}

/// The fill of an order under an id.
pub open spec fn fill_of(order_id: u64, req: OrderRequest, bbo: Bbo) -> Fill {
    Fill {
        order_id,
        instrument: req.instrument,
        side: req.side,
        qty: req.qty,
        fill_px_raw: fill_price(req, bbo),
    }
}

/// What a gateway holds: the id of the next order and the number accepted.
pub struct GatewayState {
    pub next_id: u64,
    pub accepted: u64,
}

impl GatewayState {
    /// A gateway that has accepted nothing; the first id is 1.
    pub open spec fn fresh() -> GatewayState {
        GatewayState { next_id: 1, accepted: 0 }
    }

    /// The gateway after one more order.
    pub open spec fn after_order(self) -> GatewayState {
        GatewayState { next_id: next_count(self.next_id), accepted: next_count(self.accepted) }
    }
}

/// A minimal in-process order gateway with deterministic immediate fills.
#[derive(Debug)]
pub struct MockGateway {
    next_id: u64,
    accepted: u64,
}

impl View for MockGateway {
    type V = GatewayState;

    closed spec fn view(&self) -> GatewayState {
        GatewayState { next_id: self.next_id, accepted: self.accepted }
    }
}

impl Default for MockGateway {
    /// A gateway that numbers from 0.
    fn default() -> (r: MockGateway)
        ensures
            r@ == (GatewayState { next_id: 0, accepted: 0 }),
    {
        MockGateway { next_id: 0, accepted: 0 }
    }
}

impl MockGateway {
    pub fn new() -> (r: MockGateway)
        ensures
            r@ == GatewayState::fresh(),
    {
        MockGateway { next_id: 1, accepted: 0 }
    }

    /// Number of orders accepted so far.
    pub fn accepted(&self) -> (r: u64)
        ensures
            r == self@.accepted,
    {
        self.accepted
    }

    /// Submit an order; returns the ack and the simulated fill.
    pub fn submit(&mut self, req: &OrderRequest, bbo: &Bbo) -> (r: (Ack, Fill))
        ensures
            final(self)@ == old(self)@.after_order(),
            r.0 == (Ack { order_id: old(self)@.next_id, exec_type: ExecType::New }),
            r.1 == fill_of(old(self)@.next_id, *req, *bbo),
    {
        let order_id: u64 = self.next_id;
        self.next_id = self.next_id.wrapping_add(1);
        self.accepted = self.accepted.wrapping_add(1);

        // Marketable orders fill at the touch; otherwise at the limit price.
        let fill_px_raw: i64 = match req.side {
            OrderSide::Buy => match bbo.offer_px_raw {
                Some(offer) if req.px_raw >= offer => offer,
                _ => req.px_raw,
            },
            OrderSide::Sell => match bbo.bid_px_raw {
                Some(bid) if req.px_raw <= bid => bid,
                _ => req.px_raw,
            },
        };
        (
            Ack { order_id, exec_type: ExecType::New },
            Fill {
                order_id,
                instrument: req.instrument,
                side: req.side,
                qty: req.qty,
                fill_px_raw,
            },
        )
    }
}

/// No order fills at a worse price than its limit: a buy at or below it, a sell
/// at or above it.
pub proof fn fills_honour_the_limit(req: OrderRequest, bbo: Bbo)
    ensures
        req.side is Buy ==> fill_price(req, bbo) <= req.px_raw,
        req.side is Sell ==> fill_price(req, bbo) >= req.px_raw,
{
}

/// An order priced inside the spread, as one at the mid is, fills at its limit.
pub proof fn orders_inside_the_spread_fill_at_their_limit(req: OrderRequest, bbo: Bbo)
    requires
        bbo.bid_px_raw is Some,
        bbo.offer_px_raw is Some,
        bbo.bid_px_raw->0 < req.px_raw < bbo.offer_px_raw->0,
    ensures
        fill_price(req, bbo) == req.px_raw,
{
}

/// The gateway after `n` orders.
pub open spec fn after_orders(g: GatewayState, n: nat) -> GatewayState
    decreases n,
{
    if n == 0 {
        g
    } else {
        after_orders(g, (n - 1) as nat).after_order()
    }
}

/// Orders are numbered 1, 2, 3 and so on, and the accepted count is their
/// number.
pub proof fn ids_count_up_from_one(n: nat)
    requires
        n < u64::MAX,
    ensures
        after_orders(GatewayState::fresh(), n).next_id == n + 1,
        after_orders(GatewayState::fresh(), n).accepted == n,
    decreases n,
{
    if n > 0 {
        ids_count_up_from_one((n - 1) as nat);
    }
}

/// Marketable orders fill at the touch, all others at their limit: a buy at the
/// best offer if there is one at or below its limit, a sell at the best bid if
/// there is one at or above it.
pub proof fn marketable_orders_fill_at_the_touch(req: OrderRequest, bbo: Bbo)
    ensures
        req.side is Buy && bbo.offer_px_raw is Some && bbo.offer_px_raw->0 <= req.px_raw
            ==> fill_price(req, bbo) == bbo.offer_px_raw->0,
        req.side is Buy && (bbo.offer_px_raw is None || bbo.offer_px_raw->0 > req.px_raw)
            ==> fill_price(req, bbo) == req.px_raw,
        req.side is Sell && bbo.bid_px_raw is Some && bbo.bid_px_raw->0 >= req.px_raw
            ==> fill_price(req, bbo) == bbo.bid_px_raw->0,
        req.side is Sell && (bbo.bid_px_raw is None || bbo.bid_px_raw->0 < req.px_raw)
            ==> fill_price(req, bbo) == req.px_raw,
{
}

/// A fill is of the whole order, under its id, and its own side of the book has
/// no bearing on it.
pub proof fn fills_are_of_the_whole_order(id: u64, req: OrderRequest, bbo: Bbo, other: Bbo)
    requires
        req.side is Buy ==> other.offer_px_raw == bbo.offer_px_raw,
        req.side is Sell ==> other.bid_px_raw == bbo.bid_px_raw,
    ensures
        fill_of(id, req, bbo).order_id == id,
        fill_of(id, req, bbo).instrument == req.instrument,
        fill_of(id, req, bbo).side == req.side,
        fill_of(id, req, bbo).qty == req.qty,
        fill_of(id, req, bbo).fill_px_raw == fill_price(req, bbo),
        fill_of(id, req, other) == fill_of(id, req, bbo),
{
}

/// An order takes the next id and counts as one.
pub proof fn orders_count_one_by_one(g: GatewayState)
    requires
        g.next_id < u64::MAX,
        g.accepted < u64::MAX,
    ensures
        g.after_order().next_id == g.next_id + 1,
        g.after_order().accepted == g.accepted + 1,
        GatewayState::fresh().next_id == 1,
        GatewayState::fresh().accepted == 0,
{
}

} // verus!
