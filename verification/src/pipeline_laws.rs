//! What holds of every tick and of every run.
use vstd::prelude::*;

use crate::gateway::next_count;
use crate::mdp3::book_refresh::{MdEntry, Refresh};
use crate::mdp3::laws::{
    countable, message_bytes, message_entries, packet_entries, packet_round_trip,
};
use crate::mdp3::packet::PacketHeader;
use crate::metrics::{every_tick_is_counted, MetricsState, ReporterState};
use crate::orderbook::{books_after, BookState};
use crate::pipeline::{
    books_after_all, cap, kept, last_quote, limit_bounds_positions, order_of, quiet, recorded_tick,
    refused, sample_of, seen_entries, traded, with_rejects, PendingFill, PipelineState,
    Quote, Stamps, TickOutcome, Valuation,
};
use crate::risk::{fits, magnitude, zero_limit_rejects_every_order, RiskState};
use crate::signal::Signal;
use crate::timing::Timer;
use crate::totals::{sum_over_bound, sum_over_change};
use crate::{InstrumentId, OrderSide};

verus! {

/// Whether a pipeline may have come from a configuration: it trades its
/// instruments in its quantity, under its limit, and no net position is past
/// that limit.
pub open spec fn follows(
    s: PipelineState,
    ids: Seq<InstrumentId>,
    order_qty: i64,
    limit: i64,
) -> bool {
    &&& s.order_qty == order_qty
    &&& s.risk.limit == limit
    &&& s.books.dom() == ids.to_set()
    &&& s.engine.trackers.dom() == ids.to_set()
    &&& s.risk.nets.dom() == ids.to_set()
    &&& forall|k: InstrumentId| magnitude(#[trigger] s.risk.net(k)) <= cap(limit)
}

/// A new pipeline follows its configuration.
pub proof fn fresh_follows(ids: Seq<InstrumentId>, order_qty: i64, warmup: u32, limit: i64)
    ensures
        follows(PipelineState::fresh(ids, order_qty, warmup, limit), ids, order_qty, limit),
{
    let s = PipelineState::fresh(ids, order_qty, warmup, limit);
    assert(s.books.dom() =~= ids.to_set());
    assert(s.engine.trackers.dom() =~= ids.to_set());
    assert(s.risk.nets.dom() =~= ids.to_set());
}

/// The position limit is never passed: whatever packets arrive and however
/// quotes and fills are valued, every net position stays within the limit, and
/// the set of instruments stays the same.
pub proof fn positions_stay_within_the_limit(
    s: PipelineState,
    ids: Seq<InstrumentId>,
    order_qty: i64,
    limit: i64,
    packet: Seq<u8>,
    id: InstrumentId,
    v: Valuation,
    breached: bool,
)
    requires
        follows(s, ids, order_qty, limit),
        s.in_range(id, v),
    ensures
        follows(s.decoded(packet), ids, order_qty, limit),
        follows(s.quoted(id, v), ids, order_qty, limit),
        follows(s.settled(breached), ids, order_qty, limit),
{
    registered_books_stay(s.books, seen_entries(packet));
    let d = s.decoded(packet);
    assert(d.risk == s.risk);
    let m = s.risk.valued(v.breached);
    assert forall|k: InstrumentId| magnitude(#[trigger] m.net(k)) <= cap(limit) by {
        assert(magnitude(s.risk.net(k)) <= cap(limit));
    }
    let q = s.quoted(id, v);
    if s.passes(id, v) {
        let req = order_of(s.signal(id, v)->0, s.order_qty, v.px_raw);
        assert(req.instrument == id);
        assert(m.verdict(req, v.in_band, v.pnl_bits) is Ok);
        assert(magnitude(m.projected(req)) <= limit);
        assert(q.risk.nets.dom() =~= m.nets.dom());
        assert forall|k: InstrumentId| magnitude(#[trigger] q.risk.net(k)) <= cap(limit) by {
            assert(magnitude(m.net(k)) <= cap(limit));
            if k == id && m.nets.contains_key(k) {
                assert(q.risk.net(k) == m.projected(req));
            }
        }
    }
    assert(q.engine.trackers.dom() =~= s.engine.trackers.dom());
    let f = s.settled(breached);
    assert forall|k: InstrumentId| magnitude(#[trigger] f.risk.net(k)) <= cap(limit) by {
        assert(magnitude(s.risk.net(k)) <= cap(limit));
    }
}

/// Entries neither register nor forget an instrument.
pub proof fn registered_books_stay(books: Map<InstrumentId, BookState>, entries: Seq<MdEntry>)
    ensures
        books_after_all(books, entries).dom() == books.dom(),
    decreases entries.len(),
{
    if entries.len() > 0 {
        registered_books_stay(books, entries.drop_last());
        let before = books_after_all(books, entries.drop_last());
        assert(books_after(before, entries.last()).dom() =~= before.dom());
    }
}

/// A configuration whose limit bounds the positions leaves headroom for every
/// order, at every point of a run.
pub proof fn bounded_positions_leave_headroom(
    s: PipelineState,
    ids: Seq<InstrumentId>,
    order_qty: i64,
    limit: i64,
    id: InstrumentId,
)
    requires
        follows(s, ids, order_qty, limit),
        limit_bounds_positions(ids.len() as int, order_qty, limit),
    ensures
        s.has_headroom(id),
{
    vstd::seq_lib::seq_to_set_is_finite(ids);
    ids.lemma_cardinality_of_set();
    let f = |k: InstrumentId| s.risk.nets[k] as int;
    let c = cap(limit);
    assert forall|k: InstrumentId| s.risk.nets.dom().contains(k) implies -c <= #[trigger] f(k)
        <= c by {
        assert(magnitude(s.risk.net(k)) <= c);
    }
    sum_over_bound(s.risk.nets.dom(), f, c);
    let n = s.risk.nets.dom().len() as int;
    assert(n * c <= ids.len() * c) by (nonlinear_arith)
        requires
            0 <= n <= ids.len(),
            c >= 0,
    ;
    assert(magnitude(s.risk.net(id)) <= c);
}

/// A fill moves the net position across all instruments by its signed quantity;
/// one for an unknown instrument does not move it.
pub proof fn fill_moves_the_total(s: RiskState, id: InstrumentId, side: OrderSide, qty: i64)
    requires
        s.nets.dom().finite(),
        fits(s.net(id), side, qty as int),
    ensures
        s.filled(id, side, qty).net_total() == s.net_total() + if s.nets.contains_key(id) {
            side.direction() * qty
        } else {
            0
        },
{
    if s.nets.contains_key(id) {
        let after = s.filled(id, side, qty);
        let f = |k: InstrumentId| s.nets[k] as int;
        let g = |k: InstrumentId| after.nets[k] as int;
        assert(after.nets.dom() =~= s.nets.dom());
        sum_over_change(s.nets.dom(), f, g, id);
    }
}

/// Headroom is enough: where an order either way keeps the positions in range,
/// so does every valued quote.
pub proof fn headroom_suffices(s: PipelineState, id: InstrumentId, v: Valuation)
    requires
        s.risk.nets.dom().finite(),
        s.has_headroom(id),
    ensures
        s.in_range(id, v),
{
    if s.signal(id, v) is Some {
        let side = s.signal(id, v)->0.side;
        let qty = s.order_qty as int;
        assert(side.direction() * qty == qty || side.direction() * qty == -qty) by (nonlinear_arith)
            requires
                side.direction() == 1 || side.direction() == -1,
        ;
        assert(fits(s.risk.net(id), side, qty));
        let m = s.risk.valued(v.breached);
        assert(m.net(id) == s.risk.net(id));
        assert(m.net_total() == s.risk.net_total());
        fill_moves_the_total(m, id, side, s.order_qty);
    }
}

/// A zero position limit rejects every order: no order passes, whatever the
/// quotes, and a signal is always answered by a rejection.
pub proof fn zero_limit_never_trades(
    s: PipelineState,
    ids: Seq<InstrumentId>,
    order_qty: i64,
    id: InstrumentId,
    v: Valuation,
)
    requires
        follows(s, ids, order_qty, 0),
        order_qty != 0,
    ensures
        !s.passes(id, v),
        s.outcome(id, v) == quiet() || s.outcome(id, v) == refused(),
        s.quoted(id, v).gateway == s.gateway,
{
    if s.signal(id, v) is Some {
        let m = s.risk.valued(v.breached);
        let req = order_of(s.signal(id, v)->0, s.order_qty, v.px_raw);
        assert(magnitude(s.risk.net(req.instrument)) <= 0);
        assert(m.net(req.instrument) == s.risk.net(req.instrument));
        zero_limit_rejects_every_order(m, req, v.in_band, v.pnl_bits);
    }
}

/// Orders and rejections exclude each other and come only from signals; the
/// gateway accepts one order for each order outcome and none otherwise.
pub proof fn outcomes_are_consistent(s: PipelineState, id: InstrumentId, v: Valuation)
    ensures
        !(s.outcome(id, v).order && s.outcome(id, v).reject),
        s.outcome(id, v).signal == (s.signal(id, v) is Some),
        s.outcome(id, v).signal == (s.outcome(id, v).order || s.outcome(id, v).reject),
        s.outcome(id, v).order == s.passes(id, v),
        s.quoted(id, v).gateway.accepted == if s.outcome(id, v).order {
            next_count(s.gateway.accepted)
        } else {
            s.gateway.accepted
        },
        !s.outcome(id, v).order ==> s.quoted(id, v).risk.nets == s.risk.nets,
{
}

/// Once the kill-switch has latched, no tick makes a position larger.
pub proof fn killed_pipelines_only_reduce(s: PipelineState, id: InstrumentId, v: Valuation)
    requires
        s.risk.killed || v.breached,
        s.in_range(id, v),
    ensures
        s.quoted(id, v).risk.killed,
        magnitude(s.quoted(id, v).risk.net(id)) <= magnitude(s.risk.net(id)),
{
    if s.passes(id, v) {
        let m = s.risk.valued(v.breached);
        let req = order_of(s.signal(id, v)->0, s.order_qty, v.px_raw);
        assert(m.verdict(req, v.in_band, v.pnl_bits) is Ok);
        assert(!m.increases(req));
    }
}

/// A packet too short for its header, or with no whole refresh in it, leaves the
/// pipeline as it was and no quote to value.
pub proof fn garbage_is_harmless(s: PipelineState, packet: Seq<u8>)
    requires
        packet.len() < 12 || seen_entries(packet).len() == 0,
    ensures
        s.decoded(packet) == s,
        s.quote(packet) is None,
{
    assert(seen_entries(packet).len() == 0);
}

/// Each book depends on its own instrument's entries alone: after any entries it
/// is what those of its instrument, in order, make of it.
pub proof fn books_are_independent(
    books: Map<InstrumentId, BookState>,
    entries: Seq<MdEntry>,
    id: InstrumentId,
)
    requires
        books.contains_key(id),
    ensures
        books_after_all(books, entries).contains_key(id),
        books_after_all(books, entries)[id] == books[id].after_all(
            entries.filter(|e: MdEntry| e.security_id == id),
        ),
    decreases entries.len(),
{
    reveal(Seq::filter);
    let own = |e: MdEntry| e.security_id == id;
    registered_books_stay(books, entries);
    if entries.len() > 0 {
        let front = entries.drop_last();
        books_are_independent(books, front, id);
        registered_books_stay(books, front);
        if own(entries.last()) {
            let longer = front.filter(own).push(entries.last());
            assert(entries.filter(own) == longer);
            assert(longer.drop_last() =~= front.filter(own));
        }
    }
}

/// A quote is always that of a registered instrument, and shows its book.
pub proof fn quotes_show_the_book(
    books: Map<InstrumentId, BookState>,
    entries: Seq<MdEntry>,
    id: InstrumentId,
)
    requires
        last_quote(books, entries) is Some,
        (last_quote(books, entries)->0).0 == id,
    ensures
        books.contains_key(id),
        (last_quote(books, entries)->0).1 == books_after_all(books, entries)[id].bbo(),
    decreases entries.len(),
{
    let front = entries.drop_last();
    registered_books_stay(books, front);
    if !books_after_all(books, front).contains_key(entries.last().security_id) {
        quotes_show_the_book(books, front, id);
    }
}

/// A tick is recorded once: the tick count moves on by one and nothing else is
/// counted; decode, book and signal get one sample each, risk one if there was a
/// signal, gateway one if there was an order, and the end-to-end totals at least
/// one, to the order only if there was one.
pub proof fn ticks_are_recorded_once(
    before: MetricsState,
    after: MetricsState,
    timer: Timer,
    at: Stamps,
    updated: bool,
    outcome: TickOutcome,
)
    requires
        recorded_tick(before, after, timer, at, updated, outcome),
    ensures
        after.ticks == next_count(before.ticks),
        after.orders == before.orders,
        after.rejects == before.rejects,
        after.drops == before.drops,
        after.position == before.position,
        after.samples.decode.len() == before.samples.decode.len() + 1,
        after.samples.book.len() == before.samples.book.len() + 1,
        after.samples.signal.len() == before.samples.signal.len() + 1,
        after.samples.risk.len() == before.samples.risk.len() + if outcome.signal {
            1nat
        } else {
            0nat
        },
        after.samples.gateway.len() == before.samples.gateway.len() + if outcome.order {
            1nat
        } else {
            0nat
        },
        after.samples.tick_to_signal.len() > before.samples.tick_to_signal.len(),
        outcome.order ==> after.samples.tick_to_order.len() > before.samples.tick_to_order.len(),
        !outcome.order ==> after.samples.tick_to_order == before.samples.tick_to_order,
{
    every_tick_is_counted(before, sample_of(timer, at, updated, outcome));
}

/// Whether the stages beyond the signal have seen what they should, over a
/// reporter's run and the sink's interval together: the gateway every order, the
/// risk stage every order and every rejection, the whole path at least every
/// order.
pub open spec fn orders_are_sampled(r: ReporterState, m: MetricsState) -> bool {
    let all = r.cumulative.plus(m.samples);
    &&& all.gateway.len() == m.orders
    &&& all.risk.len() == m.orders + m.rejects
    &&& all.tick_to_order.len() >= m.orders
}

/// The stages beyond the signal count the orders of the run: it is so at the
/// start, every tick keeps it so, whatever its outcome, and so does taking a
/// snapshot.
pub proof fn stages_count_the_orders(
    r: ReporterState,
    m: MetricsState,
    after: MetricsState,
    timer: Timer,
    at: Stamps,
    updated: bool,
    net: i64,
    expected_interval_ns: u64,
    timer_resolution_ns: u64,
)
    requires
        orders_are_sampled(r, m),
        m.orders < u64::MAX,
        m.rejects < u64::MAX,
    ensures
        orders_are_sampled(
            ReporterState::fresh(timer_resolution_ns),
            MetricsState::fresh(expected_interval_ns),
        ),
        recorded_tick(m, after, timer, at, updated, quiet()) ==> orders_are_sampled(r, after),
        recorded_tick(m.rejected(), after, timer, at, updated, refused()) ==> orders_are_sampled(
            r,
            after,
        ),
        recorded_tick(m.ordered(net), after, timer, at, updated, traded()) ==> orders_are_sampled(
            r,
            after,
        ),
        orders_are_sampled(r.merged(m), m.drained()),
{
    if recorded_tick(m, after, timer, at, updated, quiet()) {
        ticks_are_recorded_once(m, after, timer, at, updated, quiet());
    }
    if recorded_tick(m.rejected(), after, timer, at, updated, refused()) {
        ticks_are_recorded_once(m.rejected(), after, timer, at, updated, refused());
    }
    if recorded_tick(m.ordered(net), after, timer, at, updated, traded()) {
        ticks_are_recorded_once(m.ordered(net), after, timer, at, updated, traded());
    }
}

/// What was sent is what is booked: of a packet built from any messages, the
/// pipeline applies their entries in order, the first 64 of them.
pub proof fn sent_entries_are_booked(s: PipelineState, header: PacketHeader, msgs: Seq<Refresh>)
    requires
        countable(msgs),
    ensures
        s.decoded(header.bytes() + message_bytes(msgs)).books == books_after_all(
            s.books,
            kept(message_entries(msgs)),
        ),
{
    packet_round_trip(header, msgs);
}

/// The pipeline looks at the first 64 entries of a packet, in order, and at all
/// of them if there are no more.
pub proof fn first_entries_are_seen(packet: Seq<u8>)
    ensures
        packet_entries(packet).len() <= 64 ==> seen_entries(packet) == packet_entries(packet),
        packet_entries(packet).len() > 64 ==> seen_entries(packet).len() == 64,
        forall|i: int|
            0 <= i < seen_entries(packet).len() ==> #[trigger] seen_entries(packet)[i]
                == packet_entries(packet)[i],
{
}

/// Entries are booked one after the other: a batch does what its front and then
/// its rest do.
pub proof fn booked_batches_join(
    books: Map<InstrumentId, BookState>,
    x: Seq<MdEntry>,
    y: Seq<MdEntry>,
    e: MdEntry,
)
    ensures
        books_after_all(books, x + y) == books_after_all(books_after_all(books, x), y),
        books_after_all(books, seq![e]) == books_after(books, e),
    decreases y.len(),
{
    reveal_with_fuel(books_after_all, 2);
    assert(seq![e].drop_last() =~= Seq::empty());
    if y.len() == 0 {
        assert(x + y =~= x);
    } else {
        assert((x + y).drop_last() =~= x + y.drop_last());
        booked_batches_join(books, x, y.drop_last(), e);
    }
}

/// The quote of a batch is of the last registered instrument in it: there is none
/// exactly when no entry is of a registered one, and later entries are of none.
pub proof fn quotes_are_of_the_last_update(
    books: Map<InstrumentId, BookState>,
    entries: Seq<MdEntry>,
    i: int,
)
    requires
        0 <= i < entries.len(),
        books.contains_key(entries[i].security_id),
        forall|j: int|
            i < j < entries.len() ==> !books.contains_key((#[trigger] entries[j]).security_id),
    ensures
        last_quote(books, entries) is Some,
        (last_quote(books, entries)->0).0 == entries[i].security_id,
        (last_quote(books, entries)->0).1 == books_after_all(
            books,
            entries,
        )[entries[i].security_id].bbo(),
    decreases entries.len(),
{
    let front = entries.drop_last();
    registered_books_stay(books, front);
    if i < entries.len() - 1 {
        assert(!books.contains_key(entries[entries.len() - 1].security_id));
        assert(front[i] == entries[i]);
        assert forall|j: int| i < j < front.len() implies !books.contains_key(
            (#[trigger] front[j]).security_id,
        ) by {
            assert(front[j] == entries[j]);
        }
        quotes_are_of_the_last_update(books, front, i);
    }
    quotes_show_the_book(books, entries, entries[i].security_id);
}

/// Entries of unregistered instruments leave no quote.
pub proof fn unregistered_entries_leave_no_quote(
    books: Map<InstrumentId, BookState>,
    entries: Seq<MdEntry>,
)
    requires
        forall|j: int|
            0 <= j < entries.len() ==> !books.contains_key((#[trigger] entries[j]).security_id),
    ensures
        last_quote(books, entries) is None,
        books_after_all(books, entries) == books,
    decreases entries.len(),
{
    if entries.len() > 0 {
        let front = entries.drop_last();
        assert forall|j: int| 0 <= j < front.len() implies !books.contains_key(
            (#[trigger] front[j]).security_id,
        ) by {
            assert(front[j] == entries[j]);
        }
        unregistered_entries_leave_no_quote(books, front);
        assert(!books.contains_key(entries[entries.len() - 1].security_id));
    }
}

/// A packet leaves a quote to value exactly when its last update has both a best
/// bid and a best offer. It bears on the books alone.
pub proof fn quotes_are_two_sided(s: PipelineState, packet: Seq<u8>)
    ensures
        s.quote(packet) is Some ==> {
            &&& s.quote(packet) == last_quote(s.books, seen_entries(packet))
            &&& (s.quote(packet)->0).1.bid_px_raw is Some
            &&& (s.quote(packet)->0).1.offer_px_raw is Some
        },
        last_quote(s.books, seen_entries(packet)) matches Some((id, bbo)) ==> (
        bbo.bid_px_raw is Some && bbo.offer_px_raw is Some ==> s.quote(packet) is Some),
        s.decoded(packet).books == books_after_all(s.books, seen_entries(packet)),
        s.decoded(packet).engine == s.engine,
        s.decoded(packet).risk == s.risk,
        s.decoded(packet).gateway == s.gateway,
        s.decoded(packet).order_qty == s.order_qty,
{
}

/// When a signal becomes an order: its price is in the band, buying the order
/// quantity or selling it leaves the position within the limit, and unless the
/// switch has not latched, no further from flat.
pub proof fn signals_become_orders_that_pass(
    s: PipelineState,
    id: InstrumentId,
    v: Valuation,
    net: int,
    after: int,
)
    requires
        s.engine.signal(id, v.deviation) is Some,
        net == s.risk.net(id),
        s.engine.signal(id, v.deviation)->0.side is Buy ==> after == net + s.order_qty,
        s.engine.signal(id, v.deviation)->0.side is Sell ==> after == net - s.order_qty,
    ensures
        ({
            let larger = (net >= 0 && (after > net || after < -net)) || (net < 0 && (after < net
                || after > -net));
            s.outcome(id, v).order <==> v.in_band && -s.risk.limit <= after <= s.risk.limit && !((
            s.risk.killed || v.breached) && larger)
        }),
        s.outcome(id, v).reject <==> !s.outcome(id, v).order,
        s.outcome(id, v).signal,
{
    let sig = s.signal(id, v)->0;
    assert(sig.instrument == id);
    let req = order_of(sig, s.order_qty, v.px_raw);
    let m = s.risk.valued(v.breached);
    assert(m.net(id) == net);
    assert(req.side.direction() * s.order_qty == after - net) by {
        assert(req.side is Buy ==> req.side.direction() * s.order_qty == s.order_qty)
            by (nonlinear_arith)
            requires
                req.side is Buy ==> req.side.direction() == 1,
        ;
        assert(req.side is Sell ==> req.side.direction() * s.order_qty == -s.order_qty)
            by (nonlinear_arith)
            requires
                req.side is Sell ==> req.side.direction() == -1,
        ;
    }
    assert(m.projected(req) == after);
}

/// What a valued quote changes: the signal state takes the sample, the switch the
/// valuation, and an order that passes moves the position of its instrument by
/// the order quantity and counts at the gateway. The books stay, as do the other
/// positions; without an order all positions and the gateway stay.
pub proof fn quotes_change_what_they_should(
    s: PipelineState,
    id: InstrumentId,
    v: Valuation,
    other: InstrumentId,
)
    requires
        s.in_range(id, v),
    ensures
        s.quoted(id, v).books == s.books,
        s.quoted(id, v).order_qty == s.order_qty,
        s.quoted(id, v).engine == s.engine.after(id, v.deviation),
        s.quoted(id, v).risk.killed <==> s.risk.killed || v.breached,
        s.quoted(id, v).risk.limit == s.risk.limit,
        other != id ==> s.quoted(id, v).risk.net(other) == s.risk.net(other),
        !s.outcome(id, v).order ==> s.quoted(id, v).risk.net(id) == s.risk.net(id)
            && s.quoted(id, v).gateway == s.gateway,
        s.outcome(id, v).order && s.risk.nets.contains_key(id) ==> s.quoted(id, v).risk.net(id)
            == s.risk.net(id) + if s.engine.signal(id, v.deviation)->0.side is Buy {
            s.order_qty as int
        } else {
            -s.order_qty
        },
        s.outcome(id, v).order ==> s.quoted(id, v).gateway == s.gateway.after_order(),
{
    if s.passes(id, v) {
        let side = s.signal(id, v)->0.side;
        let qty = s.order_qty as int;
        assert(side is Buy ==> side.direction() * qty == qty) by (nonlinear_arith)
            requires
                side is Buy ==> side.direction() == 1,
        ;
        assert(side is Sell ==> side.direction() * qty == -qty) by (nonlinear_arith)
            requires
                side is Sell ==> side.direction() == -1,
        ;
    }
}

/// An order is for the signal's instrument, on its side, of the order quantity,
/// at the price of the valuation.
pub proof fn orders_follow_their_signal(sig: Signal, qty: i64, px_raw: i64)
    ensures
        order_of(sig, qty, px_raw).instrument == sig.instrument,
        order_of(sig, qty, px_raw).side == sig.side,
        order_of(sig, qty, px_raw).qty == qty,
        order_of(sig, qty, px_raw).px_raw == px_raw,
{
}

/// Settling bears on the switch alone.
pub proof fn settling_bears_on_the_switch_alone(s: PipelineState, breached: bool)
    ensures
        s.settled(breached).risk.killed <==> s.risk.killed || breached,
        s.settled(breached).risk.nets == s.risk.nets,
        s.settled(breached).risk.limit == s.risk.limit,
        s.settled(breached).books == s.books,
        s.settled(breached).engine == s.engine,
        s.settled(breached).gateway == s.gateway,
        s.settled(breached).order_qty == s.order_qty,
{
}

/// Stages are timed from the stamp before to their own, the totals from the first
/// stamp; risk is timed for signals, gateway and the whole path for orders, and
/// nothing is spent on the signal of a tick that updated no book. Moving all
/// stamps by the same amount changes no timing.
pub proof fn stages_are_timed_between_stamps(
    timer: Timer,
    at: Stamps,
    moved: Stamps,
    updated: bool,
    outcome: TickOutcome,
    by: int,
)
    requires
        moved.t0 == at.t0 + by,
        moved.t1 == at.t1 + by,
        moved.t2 == at.t2 + by,
        moved.t3 == at.t3 + by,
        moved.t4 == at.t4 + by,
        moved.t5 == at.t5 + by,
    ensures
        ({
            let s = sample_of(timer, at, updated, outcome);
            &&& s.decode_ns == timer.elapsed(at.t0, at.t1)
            &&& s.book_ns == timer.elapsed(at.t1, at.t2)
            &&& updated ==> s.signal_ns == timer.elapsed(at.t2, at.t3)
            &&& !updated ==> s.signal_ns == 0
            &&& s.tick_to_signal_ns == timer.elapsed(at.t0, at.t3)
            &&& outcome.signal ==> s.risk_ns == Some(timer.elapsed(at.t3, at.t4))
            &&& outcome.order ==> s.gateway_ns == Some(timer.elapsed(at.t4, at.t5))
                && s.tick_to_order_ns == Some(timer.elapsed(at.t0, at.t5))
            &&& !outcome.signal ==> s.risk_ns is None
            &&& !outcome.order ==> s.gateway_ns is None && s.tick_to_order_ns is None
        }),
        sample_of(timer, moved, updated, outcome) == sample_of(timer, at, updated, outcome),
{
}

/// A new pipeline knows exactly its instruments, with empty books, unseen and
/// flat, under its limit and in its quantity, and has sent nothing.
pub proof fn pipelines_start_empty(
    ids: Seq<InstrumentId>,
    order_qty: i64,
    warmup: u32,
    limit: i64,
    id: InstrumentId,
)
    ensures
        ({
            let s = PipelineState::fresh(ids, order_qty, warmup, limit);
            &&& s.books.contains_key(id) <==> ids.contains(id)
            &&& ids.contains(id) ==> {
                &&& s.books[id].bids.len() == 0
                &&& s.books[id].offers.len() == 0
                &&& s.books[id].last_rpt_seq is None
                &&& s.books[id].gaps == 0
                &&& s.engine.trackers[id].count == 0
                &&& s.engine.trackers[id].pos is Flat
            }
            &&& s.engine.trackers.contains_key(id) <==> ids.contains(id)
            &&& s.risk.nets.contains_key(id) <==> ids.contains(id)
            &&& s.risk.net(id) == 0
            &&& s.engine.warmup == warmup
            &&& s.risk.limit == limit
            &&& !s.risk.killed
            &&& s.order_qty == order_qty
            &&& s.gateway.next_id == 1
            &&& s.gateway.accepted == 0
        }),
{
}

/// A rejected tick counts one rejection, any other none.
pub proof fn rejections_are_counted(m: MetricsState, outcome: TickOutcome)
    requires
        m.rejects < u64::MAX,
    ensures
        with_rejects(m, outcome).rejects == m.rejects + if outcome.reject {
            1int
        } else {
            0int
        },
        with_rejects(m, outcome) == (MetricsState {
            rejects: with_rejects(m, outcome).rejects,
            ..m
        }),
{
}

/// A tick that goes on keeps its stamps: all that a quote carries agree on the
/// first three, all that a fill carries agree on the first five.
pub proof fn carried_stamps_are_kept(q: Quote, p: PendingFill, a: Stamps, b: Stamps)
    ensures
        q.carries(a) && q.carries(b) ==> a.t0 == b.t0 && a.t1 == b.t1 && a.t2 == b.t2,
        p.carries(a) && p.carries(b) ==> a.t0 == b.t0 && a.t1 == b.t1 && a.t2 == b.t2 && a.t3
            == b.t3 && a.t4 == b.t4,
        q.carries(a) ==> a.t0 == q.began(),
        p.carries(a) ==> a.t0 == p.began(),
{
}

/// What a tick records is its sample and nothing else.
pub proof fn ticks_record_their_sample(
    before: MetricsState,
    after: MetricsState,
    timer: Timer,
    at: Stamps,
    updated: bool,
    outcome: TickOutcome,
)
    requires
        recorded_tick(before, after, timer, at, updated, outcome),
    ensures
        after == before.recorded(sample_of(timer, at, updated, outcome)),
{
}

} // verus!
