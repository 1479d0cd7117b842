//! Pre-trade risk management: three sequential checks plus position state.
//!
//! Checks run cheapest-first; the first failure rejects the order before it can
//! reach the gateway:
//! 1. **Price Reasonableness**: order price within a tick band around the mid.
//! 2. **Position Limit**: projected |net position| within a per-instrument cap.
//! 3. **Daily Loss Limit**: a latching kill-switch on realized+unrealized PnL.
//!
//! Prices, averages and PnL are floating point and belong to the caller, who
//! reports what they come to: whether a price is in its band, whether total PnL
//! has breached the limit. Net positions, the verdict, the switch and the
//! average-cost accounting of each fill are decided here.
use std::collections::HashMap;

use vstd::prelude::*;
use vstd::string::*;

use crate::text::{push_signed, signed_decimal};
use crate::totals::{sum_over, sum_over_ext, sum_over_step};
use crate::{InstrumentId, OrderSide};

verus! {

broadcast use vstd::std_specs::hash::group_hash_axioms;

/// Risk limits.
#[derive(Debug, Clone, Copy, PartialEq, Eq, Structural)]
pub struct RiskConfig {
    /// Max absolute net position per instrument (contracts).
    pub position_limit: i64,
}

impl Default for RiskConfig {
    fn default() -> (r: RiskConfig)
        ensures
            r.position_limit == 100,
    {
        RiskConfig { position_limit: 100 }
    }
}

/// A candidate order to be risk-checked.
#[derive(Debug, Clone, Copy, PartialEq, Eq, Structural)]
pub struct OrderRequest {
    pub instrument: InstrumentId,
    pub side: OrderSide,
    pub qty: i64,
    /// Limit price as a raw `PRICE9` integer.
    pub px_raw: i64,
}

/// Why an order was rejected.
#[derive(Debug, Clone, Copy, PartialEq, Eq, Structural)]
pub enum RejectReason {
    /// Price outside the reasonable band around the mid.
    PriceUnreasonable { px: i64 },
    /// Position limit exceeded.
    PositionLimit { projected: i64, limit: i64 },
    /// Daily loss limit breached; the PnL as the bits of a double.
    DailyLossLimit { pnl_bits: u64 },
}

/// The words for a rejection, with the PnL as given.
pub open spec fn reject_text(r: RejectReason, pnl: Seq<char>) -> Seq<char> {
    match r {
        RejectReason::PriceUnreasonable { px } => "price "@ + signed_decimal(px as int)
            + " outside reasonable band around mid"@,
        RejectReason::PositionLimit { projected, limit } =>
        "position limit exceeded: projected "@ + signed_decimal(projected as int) + ", limit "@
            + signed_decimal(limit as int),
        RejectReason::DailyLossLimit { .. } => "daily loss limit breached: pnl "@ + pnl,
    }
}

impl RejectReason {
    /// What to tell the user. `pnl` is total PnL, already rendered.
    pub fn message(&self, pnl: &str) -> (r: String)
        ensures
            r@ == reject_text(*self, pnl@),
    {
        match self {
            RejectReason::PriceUnreasonable { px } => {
                let mut out = "price ".to_owned();
                push_signed(&mut out, *px);
                out.append(" outside reasonable band around mid");
                out
            },
            RejectReason::PositionLimit { projected, limit } => {
                let mut out = "position limit exceeded: projected ".to_owned();
                push_signed(&mut out, *projected);
                out.append(", limit ");
                push_signed(&mut out, *limit);
                out
            },
            RejectReason::DailyLossLimit { .. } => {
                let mut out = "daily loss limit breached: pnl ".to_owned();
                out.append(pnl);
                out
            },
        }
    }
}

/// What happens to the average entry price when a position is reduced.
#[derive(Debug, Clone, Copy, PartialEq, Eq, Structural)]
pub enum AverageAfter {
    /// Some of the position is left, at the average it had.
    Kept,
    /// Nothing is left.
    Flat,
    /// The fill went past flat: the remainder is open at the fill price.
    AtFill,
}

/// What a fill does to a position's cost and realized PnL (average-cost
/// accounting).
#[derive(Debug, Clone, Copy, PartialEq, Eq, Structural)]
pub enum Accounting {
    /// Opening or adding: the average becomes that of `held` contracts at the
    /// old average and the filled ones at the fill price, over `size`.
    Weigh { held: i64, size: i64 },
    /// Reducing, closing or flipping: `closed` contracts realize the distance
    /// from the average to the fill price, to the good of a long position if the
    /// fill is higher.
    Realize { closed: i64, long: bool, average: AverageAfter },
}

/// The size of a signed quantity.
pub open spec fn magnitude(x: int) -> int {
    if x < 0 {
        -x
    } else {
        x
    }
}

/// The smaller of two quantities.
pub open spec fn lesser(a: int, b: int) -> int {
    if a < b {
        a
    } else {
        b
    }
}

/// Whether a position is, and after a fill of `qty` contracts stays, within the
/// symmetric range of an `i64`.
pub open spec fn fits(net: int, side: OrderSide, qty: int) -> bool {
    &&& magnitude(net) <= i64::MAX
    &&& magnitude(qty) <= i64::MAX
    &&& magnitude(net + side.direction() * qty) <= i64::MAX
}

/// The accounting of a fill of `qty` contracts on a position of `net`.
pub open spec fn accounting(net: int, side: OrderSide, qty: int) -> Accounting {
    let signed = side.direction() * qty;
    if net == 0 || (net > 0) == (signed > 0) {
        Accounting::Weigh { held: magnitude(net) as i64, size: magnitude(net + signed) as i64 }
    } else {
        Accounting::Realize {
            closed: lesser(qty, magnitude(net)) as i64,
            long: net > 0,
            average: if magnitude(signed) > magnitude(net) {
                AverageAfter::AtFill
            } else if net + signed == 0 {
                AverageAfter::Flat
            } else {
                AverageAfter::Kept
            },
        }
    }
}

/// What a risk manager holds: its limit, the net position of each instrument it
/// knows, and the kill-switch.
#[verifier::ext_equal]
pub struct RiskState {
    pub limit: i64,
    pub nets: Map<InstrumentId, i64>,
    pub killed: bool,
}

impl RiskState {
    /// No position in any of the instruments.
    pub open spec fn fresh(limit: i64, ids: Seq<InstrumentId>) -> RiskState {
        RiskState {
            limit,
            nets: Map::new(|k: InstrumentId| ids.contains(k), |k: InstrumentId| 0i64),
            killed: false,
        }
    }

    /// Net position for an instrument (0 if unknown).
    pub open spec fn net(self, id: InstrumentId) -> int {
        if self.nets.contains_key(id) {
            self.nets[id] as int
        } else {
            0
        }
    }

    /// The net position that an order leads to.
    pub open spec fn projected(self, req: OrderRequest) -> int {
        self.net(req.instrument) + req.side.direction() * req.qty
    }

    /// Whether an order makes the position larger.
    pub open spec fn increases(self, req: OrderRequest) -> bool {
        magnitude(self.projected(req)) > magnitude(self.net(req.instrument))
    }

    /// Whether the position that an order leads to, and the sizes that judging it
    /// compares, are `i64`s.
    pub open spec fn can_judge(self, req: OrderRequest) -> bool {
        &&& req.side is Sell ==> req.qty > i64::MIN
        &&& magnitude(self.projected(req)) <= i64::MAX
        &&& self.killed && magnitude(self.projected(req)) <= self.limit ==> self.net(req.instrument)
            > i64::MIN
    }

    /// The verdict on an order: the first check that fails rejects it.
    pub open spec fn verdict(self, req: OrderRequest, in_band: bool, pnl_bits: u64) -> Result<
        (),
        RejectReason,
    > {
        if !in_band {
            Err(RejectReason::PriceUnreasonable { px: req.px_raw })
        } else if magnitude(self.projected(req)) > self.limit {
            Err(
                RejectReason::PositionLimit {
                    projected: self.projected(req) as i64,
                    limit: self.limit,
                },
            )
        } else if self.killed && self.increases(req) {
            Err(RejectReason::DailyLossLimit { pnl_bits })
        } else {
            Ok(())
        }
    }

    /// The state after a fill; one for an unknown instrument changes nothing.
    pub open spec fn filled(self, id: InstrumentId, side: OrderSide, qty: i64) -> RiskState {
        if self.nets.contains_key(id) {
            RiskState {
                nets: self.nets.insert(id, (self.nets[id] + side.direction() * qty) as i64),
                ..self
            }
        } else {
            self
        }
    }

    /// The state after PnL was valued: a breach latches the switch.
    pub open spec fn valued(self, breached: bool) -> RiskState {
        RiskState { killed: self.killed || breached, ..self }
    }

    /// The net position across all instruments.
    pub open spec fn net_total(self) -> int {
        sum_over(self.nets.dom(), |k: InstrumentId| self.nets[k] as int)
    }

    /// Every net position has a size that is an `i64`.
    pub open spec fn is_sound(self) -> bool {
        forall|k: InstrumentId| magnitude(#[trigger] self.net(k)) <= i64::MAX
    }
}

/// Pre-trade risk manager.
#[derive(Debug)]
pub struct RiskManager {
    cfg: RiskConfig,
    nets: HashMap<InstrumentId, i64>,
    killed: bool,
}

impl View for RiskManager {
    type V = RiskState;

    closed spec fn view(&self) -> RiskState {
        RiskState { limit: self.cfg.position_limit, nets: self.nets@, killed: self.killed }
    }
}

/// The absolute value of a quantity that has one.
fn size_of(x: i64) -> (r: i64)
    requires
        x > i64::MIN,
    ensures
        r == magnitude(x as int),
{
    if x < 0 {
        -x
    } else {
        x
    }
}

/// A quantity with the sign of its side.
fn signed_qty(side: OrderSide, qty: i64) -> (r: i64)
    requires
        side is Sell ==> qty > i64::MIN,
    ensures
        r == side.direction() * qty,
{
    match side {
        OrderSide::Buy => qty,
        OrderSide::Sell => -qty,
    }
}

impl RiskManager {
    /// Build a risk manager for a set of instruments.
    pub fn new(cfg: RiskConfig, instruments: &[InstrumentId]) -> (r: RiskManager)
        ensures
            r@ == RiskState::fresh(cfg.position_limit, instruments@),
    {
        let mut nets: HashMap<InstrumentId, i64> = HashMap::with_capacity(instruments.len());
        let mut i: usize = 0;
        while i < instruments.len()
            invariant
                i <= instruments@.len(),
                forall|k: InstrumentId|
                    nets@.contains_key(k) <==> exists|j: int| 0 <= j < i && instruments@[j] == k,
                forall|k: InstrumentId| #[trigger] nets@.contains_key(k) ==> nets@[k] == 0,
            decreases instruments@.len() - i,
        {
            nets.insert(instruments[i], 0);
            i += 1;
        }
        let r = RiskManager { cfg, nets, killed: false };
        assert(r@ =~= RiskState::fresh(cfg.position_limit, instruments@));
        r
    }

    /// Run the three pre-trade checks. `in_band` says whether the order price
    /// is within the tick band around the mid, `pnl_bits` is total PnL.
    pub fn check(&self, req: &OrderRequest, in_band: bool, pnl_bits: u64) -> (r: Result<
        (),
        RejectReason,
    >)
        requires
            in_band ==> self@.can_judge(*req),
        ensures
            r == self@.verdict(*req, in_band, pnl_bits),
    {
        // 1. Price reasonableness.
        if !in_band {
            return Err(RejectReason::PriceUnreasonable { px: req.px_raw });
        }
        // 2. Position limit on the projected net position.

        let net: i64 = self.net_position(req.instrument);
        let projected: i64 = net + signed_qty(req.side, req.qty);
        if size_of(projected) > self.cfg.position_limit {
            return Err(
                RejectReason::PositionLimit { projected, limit: self.cfg.position_limit },
            );
        }
        // 3. Daily loss limit: once latched, block risk-increasing orders but
        //    still allow flattening/reducing existing exposure.

        if self.killed && size_of(projected) > size_of(net) {
            return Err(RejectReason::DailyLossLimit { pnl_bits });
        }
        Ok(())
    }

    /// A new mark was taken: `breached` says whether total PnL at that mark is
    /// at or below the daily loss limit.
    pub fn mark(&mut self, breached: bool)
        ensures
            final(self)@ == old(self)@.valued(breached),
    {
        self.refresh_kill(breached);
    }

    /// Apply a fill: update the net position and say how it is accounted for.
    /// `None` if the instrument is unknown.
    pub fn on_fill(&mut self, instrument: InstrumentId, side: OrderSide, qty: i64) -> (r: Option<
        Accounting,
    >)
        requires
            old(self)@.nets.contains_key(instrument) ==> fits(
                old(self)@.net(instrument),
                side,
                qty as int,
            ),
        ensures
            final(self)@ == old(self)@.filled(instrument, side, qty),
            r == if old(self)@.nets.contains_key(instrument) {
                Some(accounting(old(self)@.net(instrument), side, qty as int))
            } else {
                None
            },
    {
        let ghost before = self@;
        let net: i64 = match self.nets.get(&instrument) {
            Some(n) => *n,
            None => {
                return None;
            },
        };
        let signed: i64 = signed_qty(side, qty);
        let new_net: i64 = net + signed;
        let same_direction = net == 0 || (net > 0) == (signed > 0);
        let effect = if same_direction {
            // Opening or adding: quantity-weight the average price.
            Accounting::Weigh { held: size_of(net), size: size_of(new_net) }
        } else {
            // Reducing, closing, or flipping: realize on the closed amount.
            let held: i64 = size_of(net);
            let closed: i64 = if qty < held {
                qty
            } else {
                held
            };
            let average = if size_of(signed) > held {
                // Flipped past flat: the remainder opens at the fill price.
                AverageAfter::AtFill
            } else if new_net == 0 {
                AverageAfter::Flat
            } else {
                AverageAfter::Kept
            };
            Accounting::Realize { closed, long: net > 0, average }
        };
        self.nets.insert(instrument, new_net);
        assert(self@ =~= before.filled(instrument, side, qty));
        Some(effect)
    }

    /// Latch the kill-switch once total PnL breaches the daily loss limit.
    pub fn refresh_kill(&mut self, breached: bool)
        ensures
            final(self)@ == old(self)@.valued(breached),
    {
        if breached {
            self.killed = true;
        }
    }

    /// Net position for an instrument (0 if unknown).
    pub fn net_position(&self, instrument: InstrumentId) -> (r: i64)
        ensures
            r == self@.net(instrument),
    {
        match self.nets.get(&instrument) {
            Some(n) => *n,
            None => 0,
        }
    }

    /// Net position across all instruments.
    pub fn net_position_total(&self) -> (r: i64)
        requires
            i64::MIN <= self@.net_total() <= i64::MAX,
        ensures
            r == self@.net_total(),
    {
        self.net_sum() as i64
    }

    /// Net position across all instruments, however large.
    pub fn net_sum(&self) -> (r: i128)
        ensures
            r == self@.net_total(),
            r > i128::MIN,
    {
        let count: usize = self.nets.len();
        let mut total: i128 = 0;
        let ghost f = |k: InstrumentId| self@.nets[k] as int;
        proof {
            assert(Seq::<InstrumentId>::empty().to_set() =~= Set::empty());
        }
        for k in it: self.nets.keys()
            invariant
                f == (|k: InstrumentId| self@.nets[k] as int),
                it.seq().unref().to_set() == self.nets@.dom(),
                it.seq().no_duplicates(),
                it.seq().len() == count,
                total == sum_over(it.seq().unref().take(it.index() as int).to_set(), f),
                it.index() * i64::MIN <= total <= -(it.index() * i64::MIN),
                it.index() == it.seq().len() ==> total == sum_over(self.nets@.dom(), f),
        {
            proof {
                sum_over_step(it.seq(), self.nets@.dom(), f, it.index() as int);
            }
            match self.nets.get(k) {
                Some(n) => {
                    total = total + *n as i128;
                },
                None => {},
            }
        }
        proof {
            sum_over_ext(self@.nets.dom(), f, |k: InstrumentId| self@.nets[k] as int);
        }
        total
    }

    /// Whether the daily-loss kill-switch has latched.
    pub fn is_killed(&self) -> (r: bool)
        ensures
            r == self@.killed,
    {
        self.killed
    }
}

/// An order that passes leads to a position within the limit; no fill of a
/// passed order takes any position past it.
pub proof fn passed_orders_respect_the_limit(
    s: RiskState,
    req: OrderRequest,
    in_band: bool,
    pnl_bits: u64,
)
    requires
        s.verdict(req, in_band, pnl_bits) is Ok,
    ensures
        magnitude(s.projected(req)) <= s.limit,
        s.nets.contains_key(req.instrument) ==> s.filled(req.instrument, req.side, req.qty).net(
            req.instrument,
        ) == s.projected(req),
        forall|k: InstrumentId|
            k != req.instrument ==> #[trigger] s.filled(req.instrument, req.side, req.qty).net(k)
                == s.net(k),
{
}

/// Once latched, the kill-switch stays: neither marks nor fills release it, and
/// from then on an order passes only if it does not increase its position.
pub proof fn kill_switch_latches(
    s: RiskState,
    breached: bool,
    id: InstrumentId,
    side: OrderSide,
    qty: i64,
    req: OrderRequest,
    in_band: bool,
    pnl_bits: u64,
)
    requires
        s.killed,
    ensures
        s.valued(breached).killed,
        s.filled(id, side, qty).killed,
        s.verdict(req, in_band, pnl_bits) is Ok ==> !s.increases(req),
{
}

/// Only a breach trips the switch.
pub proof fn only_a_breach_trips_the_switch(
    s: RiskState,
    breached: bool,
    id: InstrumentId,
    side: OrderSide,
    qty: i64,
)
    requires
        !s.killed,
    ensures
        s.valued(breached).killed == breached,
        !s.filled(id, side, qty).killed,
{
}

/// A reasonably priced order that reduces a position within its limit passes,
/// whether or not the switch has latched.
pub proof fn reducing_orders_pass(s: RiskState, req: OrderRequest, pnl_bits: u64)
    requires
        magnitude(s.net(req.instrument)) <= s.limit,
        !s.increases(req),
    ensures
        s.verdict(req, true, pnl_bits) is Ok,
{
}

/// With a limit of zero, every order of some quantity is rejected from flat.
pub proof fn zero_limit_rejects_every_order(
    s: RiskState,
    req: OrderRequest,
    in_band: bool,
    pnl_bits: u64,
)
    requires
        s.limit == 0,
        s.net(req.instrument) == 0,
        req.qty != 0,
    ensures
        s.verdict(req, in_band, pnl_bits) is Err,
{
    assert(magnitude(s.projected(req)) > 0) by (nonlinear_arith)
        requires
            req.qty != 0,
            s.net(req.instrument) == 0,
            s.projected(req) == s.net(req.instrument) + req.side.direction() * req.qty,
            req.side.direction() == 1 || req.side.direction() == -1,
            magnitude(s.projected(req)) == if s.projected(req) < 0 {
                -s.projected(req)
            } else {
                s.projected(req)
            },
    ;
}

/// Fills that fit keep every position one that has a size.
pub proof fn fills_keep_positions_sound(s: RiskState, id: InstrumentId, side: OrderSide, qty: i64)
    requires
        s.is_sound(),
        fits(s.net(id), side, qty as int),
    ensures
        s.filled(id, side, qty).is_sound(),
{
    assert forall|k: InstrumentId|
        magnitude(#[trigger] s.filled(id, side, qty).net(k)) <= i64::MAX by {
        assert(magnitude(s.net(k)) <= i64::MAX);
    }
}

/// A fill and its opposite give the positions back.
pub proof fn opposite_fills_cancel(s: RiskState, id: InstrumentId, side: OrderSide, qty: i64)
    requires
        fits(s.net(id), side, qty as int),
    ensures
        s.filled(id, side, qty).filled(id, side.mirror(), qty) == s,
{
    let there = s.filled(id, side, qty);
    let back = there.filled(id, side.mirror(), qty);
    if s.nets.contains_key(id) {
        assert(there.nets[id] == s.nets[id] + side.direction() * qty);
        assert(side.direction() * qty + side.mirror().direction() * qty == 0) by (nonlinear_arith)
            requires
                side.mirror().direction() == -side.direction(),
        ;
        assert(back.nets =~= s.nets);
    }
}

/// The contracts of a fill are accounted for once: those that close never
/// exceed the position, what is weighed into an average makes up the new size,
/// and the average is reset exactly when the position is flat or has changed
/// sides.
pub proof fn fills_are_accounted_once(net: i64, side: OrderSide, qty: i64)
    requires
        0 < qty,
        fits(net as int, side, qty as int),
    ensures
        match accounting(net as int, side, qty as int) {
            Accounting::Weigh { held, size } => held == magnitude(net as int) && size == held + qty,
            Accounting::Realize { closed, long, average } => {
                let after = net + side.direction() * qty;
                &&& 0 < closed <= magnitude(net as int)
                &&& closed <= qty
                &&& long == (net > 0)
                &&& magnitude(after) == (magnitude(net as int) - closed) + (qty - closed)
                &&& average is Flat <==> after == 0
                &&& average is AtFill <==> (after != 0 && (after > 0) != (net > 0))
            },
        },
{
    assert(side.direction() * qty == qty || side.direction() * qty == -qty) by (nonlinear_arith)
        requires
            side.direction() == 1 || side.direction() == -1,
    ;
}

} // verus!
