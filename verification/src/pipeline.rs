//! The inline, single-threaded hot path: decode -> book -> signal -> risk ->
//! gateway, with every stage boundary timestamped and recorded.
//!
//! One packet is one tick. `process` decodes it and updates the books; where
//! that leaves a two-sided quote, the tick stops for the caller to value it (mid,
//! z-score, price band and PnL are floating point) and goes on with `on_quote`,
//! which decides on the signal and the order; where an order filled, the tick
//! stops once more for PnL and ends with `settle`. `t0` is stamped by the caller
//! at the moment the packet is taken from the ingest ring (so the ring hand-off
//! is excluded from the measured latency).
use arrayvec::ArrayVec;
use vstd::prelude::*;

use crate::batch::{
    batch_of, batch_slice, batch_try_push, empty_batch, MAX_ENTRIES_PER_PACKET,
};
use crate::gateway::{fill_of, Fill, GatewayState, MockGateway};
use crate::mdp3::book_refresh::{IncrementalRefresh, MdEntry};
use crate::mdp3::header::{frames, messages};
use crate::mdp3::laws::{all_entries, frame_entries, packet_entries};
use crate::mdp3::packet::PacketHeader;
use crate::metrics::{MetricsSink, MetricsState, StageSample};
use crate::orderbook::{books_after, empty_book, Bbo, BookState, OrderBook};
use crate::risk::{
    accounting, fits, magnitude, Accounting, OrderRequest, RiskConfig, RiskManager, RiskState,
};
use crate::signal::{Deviation, EngineState, Signal, SignalConfig, SignalEngine};
use crate::timing::Timer;
use crate::InstrumentId;

verus! {

/// Configuration for the whole pipeline.
#[derive(Debug, Clone)]
pub struct PipelineConfig {
    pub instruments: Vec<InstrumentId>,
    pub order_qty: i64,
    pub signal: SignalConfig,
    pub risk: RiskConfig,
}

impl Default for PipelineConfig {
    fn default() -> (r: PipelineConfig)
        ensures
            r.instruments@ == seq![1i32],
            r.order_qty == 1,
            r.signal.warmup == 20,
            r.risk.position_limit == 100,
    {
        PipelineConfig {
            instruments: vec![1],
            order_qty: 1,
            signal: SignalConfig::default(),
            risk: RiskConfig::default(),
        }
    }
}

/// The largest net position that a limit lets an instrument have.
pub open spec fn cap(limit: i64) -> int {
    if limit < 0 {
        0
    } else {
        limit as int
    }
}

/// Whether the position limit alone keeps every position, and that of so many
/// instruments together, in the range of an `i64`.
pub open spec fn limit_bounds_positions(instruments: int, order_qty: i64, limit: i64) -> bool {
    &&& cap(limit) + magnitude(order_qty as int) <= i64::MAX
    &&& instruments * cap(limit) + magnitude(order_qty as int) <= i64::MAX
}

impl PipelineConfig {
    /// Whether the position limit alone keeps all positions in range, so that a
    /// pipeline made from this configuration always has headroom.
    pub fn bounds_positions(&self) -> (r: bool)
        ensures
            r == limit_bounds_positions(
                self.instruments@.len() as int,
                self.order_qty,
                self.risk.position_limit,
            ),
    {
        let limit: i128 = if self.risk.position_limit < 0 {
            0
        } else {
            self.risk.position_limit as i128
        };
        let qty: i128 = if self.order_qty < 0 {
            -(self.order_qty as i128)
        } else {
            self.order_qty as i128
        };
        let n: i128 = self.instruments.len() as i128;
        assert(0 <= n * limit <= 0xffff_ffff_ffff_ffff * 0x7fff_ffff_ffff_ffff) by (nonlinear_arith)
            requires
                0 <= n <= 0xffff_ffff_ffff_ffff,
                0 <= limit <= 0x7fff_ffff_ffff_ffff,
        ;
        let room: i128 = i64::MAX as i128 - qty;
        limit <= room && n * limit <= room
    }
}

/// What happened on one processed packet (for tests / diagnostics).
#[derive(Debug, Clone, Copy, PartialEq, Eq, Structural)]
pub struct TickOutcome {
    pub signal: bool,
    pub order: bool,
    pub reject: bool,
}

impl Default for TickOutcome {
    /// Nothing happened.
    fn default() -> (r: TickOutcome)
        ensures
            r == quiet(),
    {
        TickOutcome { signal: false, order: false, reject: false }
    }
}

/// The outcome of a tick without a signal.
pub open spec fn quiet() -> TickOutcome {
    TickOutcome { signal: false, order: false, reject: false }
}

/// The outcome of a tick whose signal was rejected by the risk checks.
pub open spec fn refused() -> TickOutcome {
    TickOutcome { signal: true, order: false, reject: true }
}

/// The outcome of a tick whose signal became an order.
pub open spec fn traded() -> TickOutcome {
    TickOutcome { signal: true, order: true, reject: false }
}

/// What a two-sided quote comes to in floating point, as the caller values it.
#[derive(Debug, Clone, Copy, PartialEq, Eq, Structural)]
pub struct Valuation {
    /// Total PnL, with the instrument marked at the mid, is at or below the
    /// daily loss limit.
    pub breached: bool,
    /// Where the mid stands against the signal model.
    pub deviation: Deviation,
    /// The mid as a raw `PRICE9` integer: the limit price of an order.
    pub px_raw: i64,
    /// That price is within the tick band around the mid.
    pub in_band: bool,
    /// Total PnL at the mark, as the bits of a double.
    pub pnl_bits: u64,
}

/// A tick that waits for its quote to be valued.
#[derive(Debug)]
pub struct Quote {
    instrument: InstrumentId,
    bbo: Bbo,
    t0: u64,
    t1: u64,
    t2: u64,
}

impl Quote {
    /// The instrument that was updated last.
    pub closed spec fn id(self) -> InstrumentId {
        self.instrument
    }

    /// Its best bid and offer.
    pub closed spec fn top(self) -> Bbo {
        self.bbo
    }

    /// When its packet was taken from the ring.
    pub closed spec fn began(self) -> u64 {
        self.t0
    }

    /// When its packet was decoded.
    pub closed spec fn decoded_at(self) -> u64 {
        self.t1
    }

    /// When its entries were booked.
    pub closed spec fn booked_at(self) -> u64 {
        self.t2
    }

    /// Whether the stamps of a tick begin with those of this quote.
    pub open spec fn carries(self, at: Stamps) -> bool {
        at.t0 == self.began() && at.t1 == self.decoded_at() && at.t2 == self.booked_at()
    }

    /// The instrument that was updated last.
    pub fn instrument(&self) -> (r: InstrumentId)
        ensures
            r == self.id(),
    {
        self.instrument
    }

    /// Its best bid and offer.
    pub fn bbo(&self) -> (r: Bbo)
        ensures
            r == self.top(),
    {
        self.bbo
    }
}

/// A tick that waits for its fill to be valued.
#[derive(Debug)]
pub struct PendingFill {
    fill: Fill,
    effect: Option<Accounting>,
    t0: u64,
    t1: u64,
    t2: u64,
    t3: u64,
    t4: u64,
}

impl PendingFill {
    /// The simulated fill.
    pub closed spec fn report(self) -> Fill {
        self.fill
    }

    /// How the fill is accounted for.
    pub closed spec fn booked(self) -> Option<Accounting> {
        self.effect
    }

    /// When its packet was taken from the ring.
    pub closed spec fn began(self) -> u64 {
        self.t0
    }

    /// When its packet was decoded.
    pub closed spec fn decoded_at(self) -> u64 {
        self.t1
    }

    /// When its entries were booked.
    pub closed spec fn booked_at(self) -> u64 {
        self.t2
    }

    /// When its signal had fired.
    pub closed spec fn signalled_at(self) -> u64 {
        self.t3
    }

    /// When its order had passed the risk checks.
    pub closed spec fn checked_at(self) -> u64 {
        self.t4
    }

    /// Whether the stamps of a tick begin with those of this fill.
    pub open spec fn carries(self, at: Stamps) -> bool {
        &&& at.t0 == self.began()
        &&& at.t1 == self.decoded_at()
        &&& at.t2 == self.booked_at()
        &&& at.t3 == self.signalled_at()
        &&& at.t4 == self.checked_at()
    }

    /// The simulated fill.
    pub fn fill(&self) -> (r: Fill)
        ensures
            r == self.report(),
    {
        self.fill
    }

    /// How the fill is accounted for.
    pub fn effect(&self) -> (r: Option<Accounting>)
        ensures
            r == self.booked(),
    {
        self.effect
    }
}

/// How far a packet got by itself.
#[derive(Debug)]
pub enum Tick {
    /// No two-sided quote: the tick is over.
    Done(TickOutcome),
    /// A two-sided quote, to be valued.
    Quoted(Quote),
}

/// How far a valued quote got.
#[derive(Debug)]
pub enum Step {
    /// No signal, or a rejected order: the tick is over.
    Done(TickOutcome),
    /// A filled order, to be valued.
    Filled(PendingFill),
}

/// The entries of a packet that the pipeline looks at.
pub open spec fn seen_entries(packet: Seq<u8>) -> Seq<MdEntry> {
    kept(packet_entries(packet))
}

/// The first entries, as many as a batch holds.
pub open spec fn kept(entries: Seq<MdEntry>) -> Seq<MdEntry> {
    if entries.len() > MAX_ENTRIES_PER_PACKET {
        entries.take(MAX_ENTRIES_PER_PACKET as int)
    } else {
        entries
    }
}

/// Books after a sequence of entries, first one first.
pub open spec fn books_after_all(
    books: Map<InstrumentId, BookState>,
    entries: Seq<MdEntry>,
) -> Map<InstrumentId, BookState>
    decreases entries.len(),
{
    if entries.len() == 0 {
        books
    } else {
        books_after(books_after_all(books, entries.drop_last()), entries.last())
    }
}

/// The last update of a registered instrument among entries: the instrument and
/// its best bid and offer after it.
pub open spec fn last_quote(
    books: Map<InstrumentId, BookState>,
    entries: Seq<MdEntry>,
) -> Option<(InstrumentId, Bbo)>
    decreases entries.len(),
{
    if entries.len() == 0 {
        None
    } else {
        let before = books_after_all(books, entries.drop_last());
        let e = entries.last();
        if before.contains_key(e.security_id) {
            Some((e.security_id, before[e.security_id].after(e).bbo()))
        } else {
            last_quote(books, entries.drop_last())
        }
    }
}

/// What a pipeline holds.
#[verifier::ext_equal]
pub struct PipelineState {
    pub books: Map<InstrumentId, BookState>,
    pub engine: EngineState,
    pub risk: RiskState,
    pub gateway: GatewayState,
    pub order_qty: i64,
}

/// The order that a signal calls for, at a price.
pub open spec fn order_of(s: Signal, qty: i64, px_raw: i64) -> OrderRequest {
    OrderRequest { instrument: s.instrument, side: s.side, qty, px_raw }
}

impl PipelineState {
    /// A pipeline that has seen nothing.
    pub open spec fn fresh(ids: Seq<InstrumentId>, order_qty: i64, warmup: u32, limit: i64) -> Self {
        PipelineState {
            books: Map::new(|k: InstrumentId| ids.contains(k), |k: InstrumentId| empty_book()),
            engine: EngineState::fresh(warmup, ids),
            risk: RiskState::fresh(limit, ids),
            gateway: GatewayState::fresh(),
            order_qty,
        }
    }

    /// The two-sided quote that a packet leaves, if it leaves one.
    pub open spec fn quote(self, packet: Seq<u8>) -> Option<(InstrumentId, Bbo)> {
        match last_quote(self.books, seen_entries(packet)) {
            Some((id, bbo)) => if bbo.best() is Some {
                Some((id, bbo))
            } else {
                None
            },
            None => None,
        }
    }

    /// The pipeline after a packet's entries.
    pub open spec fn decoded(self, packet: Seq<u8>) -> PipelineState {
        PipelineState { books: books_after_all(self.books, seen_entries(packet)), ..self }
    }

    /// The signal that a valued quote fires.
    pub open spec fn signal(self, id: InstrumentId, v: Valuation) -> Option<Signal> {
        self.engine.signal(id, v.deviation)
    }

    /// Whether the signal that a valued quote fires passes the risk checks.
    pub open spec fn passes(self, id: InstrumentId, v: Valuation) -> bool {
        self.signal(id, v) is Some && self.risk.valued(v.breached).verdict(
            order_of(self.signal(id, v)->0, self.order_qty, v.px_raw),
            v.in_band,
            v.pnl_bits,
        ) is Ok
    }

    /// The outcome of a valued quote.
    pub open spec fn outcome(self, id: InstrumentId, v: Valuation) -> TickOutcome {
        if self.signal(id, v) is None {
            quiet()
        } else if self.passes(id, v) {
            traded()
        } else {
            refused()
        }
    }

    /// The pipeline after a valued quote: marked, the signal state advanced, and
    /// the order, if one passes, accepted and filled.
    pub open spec fn quoted(self, id: InstrumentId, v: Valuation) -> PipelineState {
        let marked = self.risk.valued(v.breached);
        if self.passes(id, v) {
            PipelineState {
                engine: self.engine.after(id, v.deviation),
                risk: marked.filled(id, self.signal(id, v)->0.side, self.order_qty),
                gateway: self.gateway.after_order(),
                ..self
            }
        } else {
            PipelineState { engine: self.engine.after(id, v.deviation), risk: marked, ..self }
        }
    }

    /// The pipeline after the fill of a tick was valued.
    pub open spec fn settled(self, breached: bool) -> PipelineState {
        PipelineState { risk: self.risk.valued(breached), ..self }
    }

    /// Whether a valued quote keeps position arithmetic in range: the order that
    /// a signal calls for can be judged, and if it passes, its fill can be booked
    /// and leaves a position of all instruments together that is an `i64`.
    pub open spec fn in_range(self, id: InstrumentId, v: Valuation) -> bool {
        &&& self.signal(id, v) is Some && v.in_band ==> self.risk.valued(v.breached).can_judge(
            order_of(self.signal(id, v)->0, self.order_qty, v.px_raw),
        )
        &&& self.passes(id, v) && self.risk.nets.contains_key(id) ==> fits(
            self.risk.net(id),
            self.signal(id, v)->0.side,
            self.order_qty as int,
        )
        &&& self.passes(id, v) ==> i64::MIN <= self.quoted(id, v).risk.net_total() <= i64::MAX
    }

    /// Whether an order either way on an instrument keeps its net position, and
    /// that of all instruments, in the symmetric range of an `i64`.
    pub open spec fn has_headroom(self, id: InstrumentId) -> bool {
        &&& magnitude(self.risk.net(id)) + magnitude(self.order_qty as int) <= i64::MAX
        &&& magnitude(self.risk.net_total()) + magnitude(self.order_qty as int) <= i64::MAX
    }
}

/// The raw timestamps of a tick: taken from the ring, decoded, booked,
/// signalled, risk-checked, filled. A tick that ends early has no use for the
/// later ones.
#[derive(Debug, Clone, Copy, PartialEq, Eq, Structural)]
pub struct Stamps {
    pub t0: u64,
    pub t1: u64,
    pub t2: u64,
    pub t3: u64,
    pub t4: u64,
    pub t5: u64,
}

/// The timings of a tick: what a timer measures between its stamps, in the parts
/// that its outcome has, which are the risk stage for a signal, the gateway and
/// the whole path for an order. A tick that updated no book spends nothing on
/// the signal.
pub open spec fn sample_of(
    timer: Timer,
    at: Stamps,
    updated: bool,
    outcome: TickOutcome,
) -> StageSample {
    StageSample {
        decode_ns: timer.elapsed(at.t0, at.t1),
        book_ns: timer.elapsed(at.t1, at.t2),
        signal_ns: if updated {
            timer.elapsed(at.t2, at.t3)
        } else {
            0
        },
        tick_to_signal_ns: timer.elapsed(at.t0, at.t3),
        risk_ns: if outcome.signal {
            Some(timer.elapsed(at.t3, at.t4))
        } else {
            None
        },
        gateway_ns: if outcome.order {
            Some(timer.elapsed(at.t4, at.t5))
        } else {
            None
        },
        tick_to_order_ns: if outcome.order {
            Some(timer.elapsed(at.t0, at.t5))
        } else {
            None
        },
    }
}

/// The timings of a tick from its stamps.
pub fn stage_sample(timer: &Timer, at: &Stamps, updated: bool, outcome: TickOutcome) -> (r:
    StageSample)
    ensures
        r == sample_of(*timer, *at, updated, outcome),
{
    StageSample {
        decode_ns: timer.delta_ns(at.t0, at.t1),
        book_ns: timer.delta_ns(at.t1, at.t2),
        signal_ns: if updated {
            timer.delta_ns(at.t2, at.t3)
        } else {
            0
        },
        tick_to_signal_ns: timer.delta_ns(at.t0, at.t3),
        risk_ns: if outcome.signal {
            Some(timer.delta_ns(at.t3, at.t4))
        } else {
            None
        },
        gateway_ns: if outcome.order {
            Some(timer.delta_ns(at.t4, at.t5))
        } else {
            None
        },
        tick_to_order_ns: if outcome.order {
            Some(timer.delta_ns(at.t0, at.t5))
        } else {
            None
        },
    }
}

/// A sink with the rejection of an outcome, if it is one, counted.
pub open spec fn with_rejects(m: MetricsState, outcome: TickOutcome) -> MetricsState {
    if outcome.reject {
        m.rejected()
    } else {
        m
    }
}

/// Whether a sink recorded exactly one tick, with the timings of an outcome
/// between its stamps.
pub open spec fn recorded_tick(
    before: MetricsState,
    after: MetricsState,
    timer: Timer,
    at: Stamps,
    updated: bool,
    outcome: TickOutcome,
) -> bool {
    after == before.recorded(sample_of(timer, at, updated, outcome))
}

/// Decodes a packet and collects its entries; those beyond the batch's room are
/// dropped, as is everything that is no incremental refresh.
pub fn decode(packet: &[u8]) -> (r: ArrayVec<MdEntry, MAX_ENTRIES_PER_PACKET>)
    ensures
        batch_of(r) == seen_entries(packet@),
{
    let mut batch = empty_batch();
    let ghost all = packet_entries(packet@);
    let ghost mut done: Seq<MdEntry> = Seq::empty();
    if let Some((_, body)) = PacketHeader::parse(packet) {
        let mut msgs = messages(body);
        proof {
            assert(all =~= done + all_entries(frames(msgs@)));
        }
        loop
            invariant
                all == done + all_entries(frames(msgs@)),
                batch_of(batch) == kept(done),
            ensures
                all == done,
                batch_of(batch) == kept(done),
            decreases msgs@.len(),
        {
            let ghost before = msgs@;
            match msgs.next() {
                None => {
                    proof {
                        assert(frames(before) =~= Seq::empty());
                        assert(done + all_entries(frames(before)) =~= done);
                    }
                    break;
                },
                Some(m) => {
                    proof {
                        assert(frames(before)[0] == m@);
                        assert(frames(before).skip(1) =~= frames(msgs@));
                        assert(all_entries(frames(before)) == frame_entries(m@) + all_entries(
                            frames(msgs@),
                        ));
                        assert(all =~= (done + frame_entries(m@)) + all_entries(frames(msgs@)));
                    }
                    if let Some(refresh) = IncrementalRefresh::decode(&m.header, m.body) {
                        let mut it = refresh.entries();
                        loop
                            invariant
                                all == (done + it@) + all_entries(frames(msgs@)),
                                batch_of(batch) == kept(done),
                            ensures
                                all == done + all_entries(frames(msgs@)),
                                batch_of(batch) == kept(done),
                            decreases it@.len(),
                        {
                            let ghost pending = it@;
                            match it.next() {
                                None => {
                                    proof {
                                        assert(done + pending =~= done);
                                    }
                                    break;
                                },
                                Some(e) => {
                                    batch_try_push(&mut batch, e);
                                    proof {
                                        assert(done.push(e) + it@ =~= done + pending);
                                        assert(kept(done.push(e)) =~= if done.len()
                                            < MAX_ENTRIES_PER_PACKET {
                                            kept(done).push(e)
                                        } else {
                                            kept(done)
                                        });
                                        done = done.push(e);
                                    }
                                },
                            }
                        }
                    } else {
                        proof {
                            assert(done + frame_entries(m@) =~= done);
                        }
                    }
                },
            }
        }
    } else {
        assert(all =~= done);
    }
    batch
}

/// The connector pipeline for one consumer thread.
pub struct Pipeline {
    book: OrderBook,
    signal: SignalEngine,
    risk: RiskManager,
    gateway: MockGateway,
    timer: Timer,
    order_qty: i64,
}

impl View for Pipeline {
    type V = PipelineState;

    closed spec fn view(&self) -> PipelineState {
        PipelineState {
            books: self.book@,
            engine: self.signal@,
            risk: self.risk@,
            gateway: self.gateway@,
            order_qty: self.order_qty,
        }
    }
}

impl Pipeline {
    /// The timer that stamps the stages.
    pub closed spec fn clock(self) -> Timer {
        self.timer
    }

    pub fn new(cfg: &PipelineConfig, timer: Timer) -> (r: Pipeline)
        ensures
            r@ == PipelineState::fresh(
                cfg.instruments@,
                cfg.order_qty,
                cfg.signal.warmup,
                cfg.risk.position_limit,
            ),
            r.clock() == timer,
    {
        Pipeline {
            book: OrderBook::with_instruments(cfg.instruments.as_slice()),
            signal: SignalEngine::new(cfg.signal, cfg.instruments.as_slice()),
            risk: RiskManager::new(cfg.risk, cfg.instruments.as_slice()),
            gateway: MockGateway::new(),
            timer,
            order_qty: cfg.order_qty,
        }
    }

    /// Orders accepted by the gateway so far.
    pub fn orders_sent(&self) -> (r: u64)
        ensures
            r == self@.gateway.accepted,
    {
        self.gateway.accepted()
    }

    /// Samples that the signal model of an instrument has seen; `None` if it is
    /// not registered.
    pub fn observed(&self, instrument: InstrumentId) -> (r: Option<u32>)
        ensures
            r == if self@.engine.trackers.contains_key(instrument) {
                Some(self@.engine.trackers[instrument].count)
            } else {
                None
            },
    {
        self.signal.observed(instrument)
    }

    /// The books.
    pub fn book(&self) -> (r: &OrderBook)
        ensures
            r@ == self@.books,
    {
        &self.book
    }

    /// The risk manager.
    pub fn risk(&self) -> (r: &RiskManager)
        ensures
            r@ == self@.risk,
    {
        &self.risk
    }

    /// Read the raw counter of the pipeline's clock.
    pub fn raw(&self) -> u64 {
        self.timer.raw()
    }

    /// Process one packet. `t0` is the raw timestamp taken at ring-pop.
    pub fn process(&mut self, packet: &[u8], t0: u64, metrics: &mut MetricsSink) -> (r: Tick)
        ensures
            final(self)@ == old(self)@.decoded(packet@),
            final(self).clock() == old(self).clock(),
            match r {
                Tick::Quoted(q) => {
                    &&& old(self)@.quote(packet@) == Some((q.id(), q.top()))
                    &&& q.began() == t0
                    &&& final(metrics)@ == old(metrics)@
                },
                Tick::Done(outcome) => {
                    &&& old(self)@.quote(packet@) is None
                    &&& outcome == quiet()
                    &&& exists|at: Stamps|
                        #[trigger] at.t0 == t0 && recorded_tick(
                            old(metrics)@,
                            final(metrics)@,
                            old(self).clock(),
                            at,
                            last_quote(old(self)@.books, seen_entries(packet@)) is Some,
                            outcome,
                        )
                },
            },
    {
        // --- DECODE: parse the packet and collect its entries. ---
        let batch = decode(packet);
        let t1: u64 = self.timer.raw();

        // --- BOOK: apply entries, remember the last updated BBO. ---
        let last = self.apply_entries(batch_slice(&batch));
        let t2: u64 = self.timer.raw();

        match last {
            Some((instrument, bbo)) if bbo.touch().is_some() => {
                Tick::Quoted(Quote { instrument, bbo, t0, t1, t2 })
            },
            _ => {
                // No tradeable update (unknown instrument / no two-sided BBO
                // yet); still record the decode+book cost as a per-tick sample.
                let t3: u64 = self.timer.raw();
                let outcome = TickOutcome::default();
                let at = Stamps { t0, t1, t2, t3, t4: t3, t5: t3 };
                metrics.record(&stage_sample(&self.timer, &at, last.is_some(), outcome));
                assert(at.t0 == t0);
                Tick::Done(outcome)
            },
        }
    }

    /// Applies entries to the books; returns the last update of a registered
    /// instrument.
    fn apply_entries(&mut self, entries: &[MdEntry]) -> (last: Option<(InstrumentId, Bbo)>)
        ensures
            final(self)@ == (PipelineState {
                books: books_after_all(old(self)@.books, entries@),
                ..old(self)@
            }),
            final(self).clock() == old(self).clock(),
            last == last_quote(old(self)@.books, entries@),
    {
        let ghost start = self@;
        let ghost timer = self.timer;
        let mut last: Option<(InstrumentId, Bbo)> = None;
        let mut i: usize = 0;
        while i < entries.len()
            invariant
                i <= entries@.len(),
                self@ == (PipelineState {
                    books: books_after_all(start.books, entries@.take(i as int)),
                    ..start
                }),
                self.timer == timer,
                last == last_quote(start.books, entries@.take(i as int)),
            decreases entries@.len() - i,
        {
            let e = &entries[i];
            proof {
                let longer = entries@.take(i + 1);
                assert(longer.drop_last() =~= entries@.take(i as int));
                assert(longer.last() == *e);
            }
            if let Some(bbo) = self.book.apply(e) {
                last = Some((e.security_id, bbo));
            }
            i += 1;
        }
        assert(entries@.take(i as int) =~= entries@);
        last
    }

    /// Whether an order on an instrument keeps all positions in range.
    pub fn has_headroom(&self, instrument: InstrumentId) -> (r: bool)
        ensures
            r == self@.has_headroom(instrument),
    {
        let net: i128 = self.risk.net_position(instrument) as i128;
        let total: i128 = self.risk.net_sum();
        let qty: i128 = self.order_qty as i128;
        let size: i128 = if qty < 0 {
            -qty
        } else {
            qty
        };
        let room: i128 = i64::MAX as i128 - size;
        -room <= net && net <= room && -room <= total && total <= room
    }

    /// Go on with a tick whose quote was valued: mark PnL, evaluate the
    /// mean-reversion signal, and send the order that passes the risk checks.
    ///
    /// Orders are posted at the mid (midpoint peg). The mock gateway fills a mid
    /// order at its limit (the mid) rather than at the touch, so a naive taker
    /// does not pay the spread on every round trip and therefore does not
    /// structurally bleed PnL into the daily-loss kill-switch. The kill-switch
    /// then trips only on genuine drawdowns, keeping order flow (and the
    /// tick-to-order latency stream) alive throughout a run.
    pub fn on_quote(&mut self, q: Quote, v: &Valuation, metrics: &mut MetricsSink) -> (r: Step)
        requires
            old(self)@.in_range(q.id(), *v),
        ensures
            final(self)@ == old(self)@.quoted(q.id(), *v),
            final(self).clock() == old(self).clock(),
            match r {
                Step::Filled(p) => {
                    &&& old(self)@.outcome(q.id(), *v) == traded()
                    &&& p.report() == fill_of(
                        old(self)@.gateway.next_id,
                        order_of(old(self)@.signal(q.id(), *v)->0, old(self)@.order_qty, v.px_raw),
                        q.top(),
                    )
                    &&& p.booked() == if old(self)@.risk.nets.contains_key(q.id()) {
                        Some(
                            accounting(
                                old(self)@.risk.net(q.id()),
                                p.report().side,
                                old(self)@.order_qty as int,
                            ),
                        )
                    } else {
                        None
                    }
                    &&& p.began() == q.began()
                    &&& p.decoded_at() == q.decoded_at()
                    &&& p.booked_at() == q.booked_at()
                    &&& final(metrics)@ == old(metrics)@
                    &&& i64::MIN <= final(self)@.risk.net_total() <= i64::MAX
                },
                Step::Done(outcome) => {
                    &&& old(self)@.outcome(q.id(), *v) == outcome
                    &&& outcome != traded()
                    &&& exists|at: Stamps|
                        #[trigger] q.carries(at) && recorded_tick(
                            with_rejects(old(metrics)@, outcome),
                            final(metrics)@,
                            old(self).clock(),
                            at,
                            true,
                            outcome,
                        )
                },
            },
    {
        let ghost start = self@;
        let instrument: InstrumentId = q.instrument;

        // --- SIGNAL: mark PnL and evaluate the mean-reversion signal. ---
        self.risk.mark(v.breached);
        let sig = self.signal.update(instrument, &v.deviation);
        let t3: u64 = self.timer.raw();
        let Quote { instrument: _, bbo, t0, t1, t2 } = q;

        let signal = match sig {
            Some(signal) => signal,
            None => {
                let outcome = TickOutcome::default();
                let at = Stamps { t0, t1, t2, t3, t4: t3, t5: t3 };
                metrics.record(&stage_sample(&self.timer, &at, true, outcome));
                assert(q.carries(at));
                assert(self@ =~= start.quoted(q.id(), *v));
                return Step::Done(outcome);
            },
        };
        let req = OrderRequest {
            instrument,
            side: signal.side,
            qty: self.order_qty,
            px_raw: v.px_raw,
        };
        assert(self.risk@.net(instrument) == start.risk.net(instrument));

        // --- RISK ---
        let decision = self.risk.check(&req, v.in_band, v.pnl_bits);
        let t4: u64 = self.timer.raw();

        match decision {
            Ok(()) => {
                // --- GATEWAY ---
                let (_ack, fill) = self.gateway.submit(&req, &bbo);
                let effect = self.risk.on_fill(fill.instrument, fill.side, fill.qty);
                assert(self@ =~= start.quoted(q.id(), *v));
                Step::Filled(PendingFill { fill, effect, t0, t1, t2, t3, t4 })
            },
            Err(_reason) => {
                let outcome = TickOutcome { signal: true, order: false, reject: true };
                metrics.inc_reject();
                let at = Stamps { t0, t1, t2, t3, t4, t5: t4 };
                metrics.record(&stage_sample(&self.timer, &at, true, outcome));
                assert(q.carries(at));
                assert(self@ =~= start.quoted(q.id(), *v));
                Step::Done(outcome)
            },
        }
    }

    /// End a tick whose fill was valued. `breached` says whether total PnL after
    /// the fill is at or below the daily loss limit.
    pub fn settle(&mut self, p: PendingFill, breached: bool, metrics: &mut MetricsSink) -> (r:
        TickOutcome)
        requires
            i64::MIN <= old(self)@.risk.net_total() <= i64::MAX,
        ensures
            final(self)@ == old(self)@.settled(breached),
            final(self).clock() == old(self).clock(),
            r == traded(),
            exists|at: Stamps|
                #[trigger] p.carries(at) && recorded_tick(
                    old(metrics)@.ordered(old(self)@.risk.net_total() as i64),
                    final(metrics)@,
                    old(self).clock(),
                    at,
                    true,
                    r,
                ),
    {
        let ghost start = self@;
        self.risk.refresh_kill(breached);
        let t5: u64 = self.timer.raw();
        metrics.inc_order();
        // Position only changes on a fill; publish the new gauge off the
        // measured hot path (after t5 is stamped).
        assert(self.risk@.nets == start.risk.nets);
        metrics.set_position(self.risk.net_position_total());
        let PendingFill { fill: _, effect: _, t0, t1, t2, t3, t4 } = p;
        let outcome = TickOutcome { signal: true, order: true, reject: false };
        let at = Stamps { t0, t1, t2, t3, t4, t5 };
        metrics.record(&stage_sample(&self.timer, &at, true, outcome));
        assert(p.carries(at));
        outcome
    }
}

} // verus!
