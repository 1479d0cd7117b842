//! CME market-data connector: the verified core.
//!
//! Raw MDP 3.0 / SBE packets are decoded into a best-bid/offer order book, the
//! book drives a mean-reversion signal, orders pass pre-trade risk checks and
//! reach a mock gateway, and every stage is measured. This crate holds the wire
//! codec, the books and every decision of that path, each with its contract.
//! Floating-point valuation, threads, sockets and the clock's user interface
//! live outside, in the application around it.
use vstd::prelude::*;

pub mod args;
pub mod batch;
pub mod book_laws;
pub mod gateway;
pub mod ladder;
pub mod mdp3;
pub mod metrics;
pub mod metrics_laws;
pub mod orderbook;
pub mod pipeline;
pub mod pipeline_laws;
pub mod risk;
pub mod risk_laws;
pub mod runner;
pub mod signal;
pub mod text;
pub mod timing;
pub mod totals;
pub mod wire;

verus! {

/// CME `SecurityID`: identifies one instrument's book.
pub type InstrumentId = i32;

/// CME `PRICE9` fixed-point scale: on-the-wire integer = price * 1e9.
pub const PRICE9_SCALE: i64 = 1_000_000_000;

/// Side of the book.
#[derive(Debug, Clone, Copy, PartialEq, Eq, Structural, Hash)]
pub enum Side {
    Bid,
    Offer,
}

impl Side {
    /// The opposite side (bid <-> offer).
    pub fn opposite(self) -> (other: Side)
        ensures
            other == self.mirror(),
            other != self,
    {
        match self {
            Side::Bid => Side::Offer,
            Side::Offer => Side::Bid,
        }
    }

    /// The opposite side, in specifications.
    pub open spec fn mirror(self) -> Side {
        if self is Bid {
            Side::Offer
        } else {
            Side::Bid
        }
    }
}

/// Buy/sell direction of an order.
#[derive(Debug, Clone, Copy, PartialEq, Eq, Structural, Hash)]
pub enum OrderSide {
    Buy,
    Sell,
}

impl OrderSide {
    /// The opposite direction (used to flatten a position).
    pub fn opposite(self) -> (other: OrderSide)
        ensures
            other == self.mirror(),
            other != self,
    {
        match self {
            OrderSide::Buy => OrderSide::Sell,
            OrderSide::Sell => OrderSide::Buy,
        }
    }

    /// The opposite direction, in specifications.
    pub open spec fn mirror(self) -> OrderSide {
        if self is Buy {
            OrderSide::Sell
        } else {
            OrderSide::Buy
        }
    }

    /// Signed position delta per filled contract (+1 buy, -1 sell).
    pub fn sign(self) -> (s: i64)
        ensures
            s == self.direction(),
    {
        match self {
            OrderSide::Buy => 1,
            OrderSide::Sell => -1,
        }
    }

    /// The signed position delta per filled contract, in specifications.
    pub open spec fn direction(self) -> int {
        if self is Buy {
            1
        } else {
            -1
        }
    }
}

/// Taking the opposite twice gives the side back, and likewise for directions,
/// whose signs are each other's negation.
pub proof fn opposite_is_an_involution(side: Side, direction: OrderSide)
    ensures
        side.mirror().mirror() == side,
        direction.mirror().mirror() == direction,
        direction.mirror().direction() == -direction.direction(),
{
}

} // verus!
