//! What holds of every verdict, fill and valuation.
use vstd::prelude::*;

use crate::risk::{
    accounting, reject_text, Accounting, AverageAfter, OrderRequest, RejectReason, RiskState,
};
use crate::text::{holds_part, signed_decimal};
use crate::totals::{sum_over_ext, sum_over_remove};
use crate::{InstrumentId, OrderSide};

verus! {

/// The price band binds every order, of either side and in every state: one
/// priced outside it is rejected with its price, so one that passes is inside.
pub proof fn price_band_binds_every_order(
    s: RiskState,
    req: OrderRequest,
    in_band: bool,
    pnl_bits: u64,
)
    ensures
        s.verdict(req, false, pnl_bits) == Err::<(), RejectReason>(
            RejectReason::PriceUnreasonable { px: req.px_raw },
        ),
        s.verdict(req, in_band, pnl_bits) is Ok ==> in_band,
        in_band ==> !(s.verdict(req, in_band, pnl_bits) matches Err(
            RejectReason::PriceUnreasonable { .. },
        )),
{
}

/// The position limit binds every order: one in the band is rejected for it
/// exactly when buying adds to the net position, or selling takes from it, so
/// that it would stand beyond the limit on either side. The rejection tells the
/// position and the limit.
pub proof fn position_limit_binds_every_order(
    s: RiskState,
    req: OrderRequest,
    net: int,
    after: int,
    pnl_bits: u64,
)
    requires
        net == s.net(req.instrument),
        req.side is Buy ==> after == net + req.qty,
        req.side is Sell ==> after == net - req.qty,
        i64::MIN <= after <= i64::MAX,
    ensures
        !(-s.limit <= after <= s.limit) ==> s.verdict(req, true, pnl_bits) == Err::<
            (),
            RejectReason,
        >(RejectReason::PositionLimit { projected: after as i64, limit: s.limit }),
        -s.limit <= after <= s.limit ==> !(s.verdict(req, true, pnl_bits) matches Err(
            RejectReason::PositionLimit { .. },
        )),
{
    assert(s.projected(req) == after);
}

/// The daily loss limit binds every order that would make a position larger: with
/// the switch latched, one that passed the other checks is rejected exactly if
/// the position moves further from flat, with the PnL. Without it, and for every
/// other order, there is nothing more to pass.
pub proof fn loss_limit_binds_larger_positions(
    s: RiskState,
    req: OrderRequest,
    net: int,
    after: int,
    pnl_bits: u64,
)
    requires
        net == s.net(req.instrument),
        req.side is Buy ==> after == net + req.qty,
        req.side is Sell ==> after == net - req.qty,
        -s.limit <= after <= s.limit,
    ensures
        ({
            let larger = (net >= 0 && (after > net || after < -net)) || (net < 0 && (after < net
                || after > -net));
            &&& s.killed && larger ==> s.verdict(req, true, pnl_bits) == Err::<(), RejectReason>(
                RejectReason::DailyLossLimit { pnl_bits },
            )
            &&& !(s.killed && larger) ==> s.verdict(req, true, pnl_bits) == Ok::<(), RejectReason>(())
        }),
{
    assert(s.projected(req) == after);
}

/// Buying and selling are judged alike: with every position and the side of the
/// order turned round, the verdict is the same, but for the sign of a projected
/// position.
pub proof fn sides_are_judged_alike(
    s: RiskState,
    t: RiskState,
    req: OrderRequest,
    turned: OrderRequest,
    in_band: bool,
    pnl_bits: u64,
)
    requires
        t.limit == s.limit,
        t.killed == s.killed,
        t.net(req.instrument) == -s.net(req.instrument),
        turned.instrument == req.instrument,
        turned.side != req.side,
        turned.qty == req.qty,
        turned.px_raw == req.px_raw,
    ensures
        s.verdict(req, in_band, pnl_bits) is Ok <==> t.verdict(turned, in_band, pnl_bits) is Ok,
        s.verdict(req, in_band, pnl_bits) matches Err(RejectReason::PositionLimit { .. })
            <==> t.verdict(turned, in_band, pnl_bits) matches Err(
            RejectReason::PositionLimit { .. },
        ),
        s.verdict(req, in_band, pnl_bits) matches Err(RejectReason::DailyLossLimit { .. })
            <==> t.verdict(turned, in_band, pnl_bits) matches Err(
            RejectReason::DailyLossLimit { .. },
        ),
{
    assert(t.projected(turned) == -s.projected(req)) by {
        assert(turned.side.direction() * req.qty == -(req.side.direction() * req.qty))
            by (nonlinear_arith)
            requires
                turned.side.direction() == -req.side.direction(),
        ;
    }
}

/// Nothing but the position of its instrument, the limit and the switch bears on
/// an order.
pub proof fn verdicts_depend_on_one_position(
    s: RiskState,
    t: RiskState,
    req: OrderRequest,
    in_band: bool,
    pnl_bits: u64,
)
    requires
        t.limit == s.limit,
        t.killed == s.killed,
        t.net(req.instrument) == s.net(req.instrument),
    ensures
        s.verdict(req, in_band, pnl_bits) == t.verdict(req, in_band, pnl_bits),
{
}

/// The net position of a known instrument is the one held, that of an unknown one
/// is 0; a new manager holds 0 of each of its instruments and has not latched.
pub proof fn positions_start_flat(
    s: RiskState,
    limit: i64,
    ids: Seq<InstrumentId>,
    id: InstrumentId,
)
    ensures
        s.nets.contains_key(id) ==> s.net(id) == s.nets[id],
        !s.nets.contains_key(id) ==> s.net(id) == 0,
        RiskState::fresh(limit, ids).nets.contains_key(id) <==> ids.contains(id),
        RiskState::fresh(limit, ids).net(id) == 0,
        RiskState::fresh(limit, ids).limit == limit,
        !RiskState::fresh(limit, ids).killed,
{
}

/// A fill moves the position of its own instrument, up by what was bought or down
/// by what was sold, and nothing else.
pub proof fn fills_move_their_own_position(
    s: RiskState,
    id: InstrumentId,
    side: OrderSide,
    qty: i64,
    other: InstrumentId,
)
    requires
        i64::MIN <= s.net(id) + qty <= i64::MAX,
        i64::MIN <= s.net(id) - qty <= i64::MAX,
    ensures
        s.nets.contains_key(id) && side is Buy ==> s.filled(id, side, qty).net(id) == s.net(id)
            + qty,
        s.nets.contains_key(id) && side is Sell ==> s.filled(id, side, qty).net(id) == s.net(id)
            - qty,
        !s.nets.contains_key(id) ==> s.filled(id, side, qty) == s,
        other != id ==> s.filled(id, side, qty).net(other) == s.net(other),
        s.filled(id, side, qty).nets.contains_key(other) == s.nets.contains_key(other),
        s.filled(id, side, qty).limit == s.limit,
        s.filled(id, side, qty).killed == s.killed,
{
}

/// Valuing PnL bears on the switch alone: it has latched if it had or if the
/// limit is breached.
pub proof fn valuing_bears_on_the_switch_alone(s: RiskState, breached: bool)
    ensures
        s.valued(breached).killed <==> s.killed || breached,
        s.valued(breached).nets == s.nets,
        s.valued(breached).limit == s.limit,
{
}

/// How a fill is booked. One that goes the way of the position, or opens one,
/// weighs the contracts held and the new size into the average. Any other
/// realizes the filled contracts, at most those held, to the good of the side
/// that was held; the average is the fill's when the position has changed sides,
/// gone when it is flat, and otherwise kept. A fill of no contracts goes the way
/// of a short position, not of a long one.
pub proof fn fills_are_booked_by_what_they_do(net: int, side: OrderSide, qty: int, after: int)
    requires
        side is Buy ==> after == net + qty,
        side is Sell ==> after == net - qty,
        -i64::MAX <= net <= i64::MAX,
        -i64::MAX <= qty <= i64::MAX,
        -i64::MAX <= after <= i64::MAX,
    ensures
        ({
            let held = if net < 0 {
                -net
            } else {
                net
            };
            let size = if after < 0 {
                -after
            } else {
                after
            };
            match accounting(net, side, qty) {
                Accounting::Weigh { held: h, size: z } => {
                    &&& net == 0 || (net > 0 && after > net) || (net < 0 && after <= net)
                    &&& h == held
                    &&& z == size
                },
                Accounting::Realize { closed, long, average } => {
                    &&& (net > 0 && after <= net) || (net < 0 && after > net)
                    &&& long == (net > 0)
                    &&& closed == if qty < held {
                        qty
                    } else {
                        held
                    }
                    &&& average == if (after - net > held || net - after > held) {
                        AverageAfter::AtFill
                    } else if after == 0 {
                        AverageAfter::Flat
                    } else {
                        AverageAfter::Kept
                    }
                },
            }
        }),
{
    assert(side.direction() * qty == after - net) by {
        assert(side.direction() * qty == qty || side.direction() * qty == -qty)
            by (nonlinear_arith)
            requires
                side.direction() == 1 || side.direction() == -1,
        ;
        assert(side is Buy ==> side.direction() * qty == qty) by (nonlinear_arith)
            requires
                side is Buy ==> side.direction() == 1,
        ;
        assert(side is Sell ==> side.direction() * qty == -qty) by (nonlinear_arith)
            requires
                side is Sell ==> side.direction() == -1,
        ;
    }
}

/// The position across all instruments is the sum of theirs: no instruments have
/// none, and one more adds its own.
pub proof fn net_total_adds_up(s: RiskState, id: InstrumentId, net: i64)
    requires
        s.nets.dom().finite(),
        !s.nets.contains_key(id),
    ensures
        s.nets.dom().is_empty() ==> s.net_total() == 0,
        (RiskState { nets: s.nets.insert(id, net), ..s }).net_total() == s.net_total() + net,
{
    let more = RiskState { nets: s.nets.insert(id, net), ..s };
    let f = |k: InstrumentId| s.nets[k] as int;
    let g = |k: InstrumentId| more.nets[k] as int;
    sum_over_remove(more.nets.dom(), g, id);
    assert(more.nets.dom().remove(id) =~= s.nets.dom());
    sum_over_ext(s.nets.dom(), f, g);
}

/// A rejection tells its numbers: the price, the projected position and the
/// limit, or the PnL as given.
pub proof fn rejections_tell_their_numbers(
    px: i64,
    projected: i64,
    limit: i64,
    pnl_bits: u64,
    pnl: Seq<char>,
)
    ensures
        holds_part(
            reject_text(RejectReason::PriceUnreasonable { px }, pnl),
            "price "@ + signed_decimal(px as int) + " outside reasonable band around mid"@,
        ),
        holds_part(
            reject_text(RejectReason::PositionLimit { projected, limit }, pnl),
            "projected "@ + signed_decimal(projected as int) + ", limit "@,
        ),
        reject_text(RejectReason::PositionLimit { projected, limit }, pnl).len() >= signed_decimal(
            limit as int,
        ).len(),
        reject_text(RejectReason::PositionLimit { projected, limit }, pnl).skip(
            reject_text(RejectReason::PositionLimit { projected, limit }, pnl).len()
                - signed_decimal(limit as int).len(),
        ) == signed_decimal(limit as int),
        reject_text(RejectReason::DailyLossLimit { pnl_bits }, pnl)
            == "daily loss limit breached: pnl "@ + pnl,
{
    let none = Seq::<char>::empty();
    let a = reject_text(RejectReason::PriceUnreasonable { px }, pnl);
    assert(a =~= none + ("price "@ + signed_decimal(px as int)
        + " outside reasonable band around mid"@) + none);
    let b = reject_text(RejectReason::PositionLimit { projected, limit }, pnl);
    let last = signed_decimal(limit as int);
    reveal_strlit("position limit exceeded: projected ");
    reveal_strlit("position limit exceeded: ");
    reveal_strlit("projected ");
    assert("position limit exceeded: projected "@ =~= "position limit exceeded: "@
        + "projected "@);
    assert(b =~= "position limit exceeded: "@ + ("projected "@ + signed_decimal(projected as int)
        + ", limit "@) + last);
    assert(b.skip(b.len() - last.len()) =~= last);
}

} // verus!
