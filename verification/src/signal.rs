//! Statistical-arbitrage signal: single-instrument mean-reversion.
//!
//! Each instrument's mid is standardized against an exponentially weighted
//! model; the z-score drives a small state machine: enter against the deviation
//! at `|z| >= z_entry`, flatten near the mean at `|z| <= z_exit`, and stop out at
//! `|z| >= z_stop`. The model is floating point and belongs to the caller, who
//! reports by a `Deviation` where the z-score stands against the thresholds;
//! warm-up, position and every decision are kept here.
use std::collections::HashMap;

use vstd::prelude::*;

use crate::{InstrumentId, OrderSide};

verus! {

broadcast use vstd::std_specs::hash::group_hash_axioms;

/// Signal-engine parameters.
#[derive(Debug, Clone, Copy, PartialEq, Eq, Structural)]
pub struct SignalConfig {
    /// Samples to observe before emitting any signal.
    pub warmup: u32,
}

impl Default for SignalConfig {
    fn default() -> (r: SignalConfig)
        ensures
            r.warmup == 20,
    {
        SignalConfig { warmup: 20 }
    }
}

/// Where a mid stands against the model's prediction before absorbing it.
#[derive(Debug, Clone, Copy, PartialEq, Eq, Structural)]
pub struct Deviation {
    /// The model has a standard deviation large enough to divide by.
    pub dispersed: bool,
    /// `z >= z_entry`.
    pub above_entry: bool,
    /// `z <= -z_entry`.
    pub below_entry: bool,
    /// `|z| <= z_exit`.
    pub within_exit: bool,
    /// `|z| >= z_stop`.
    pub beyond_stop: bool,
    /// The z-score itself, as the bits of a double.
    pub z_bits: u64,
}

/// Whether a signal opens or closes a position.
#[derive(Debug, Clone, Copy, PartialEq, Eq, Structural)]
pub enum SignalKind {
    Enter,
    Exit,
}

/// A trade signal for one instrument.
#[derive(Debug, Clone, Copy, PartialEq, Eq, Structural)]
pub struct Signal {
    pub instrument: InstrumentId,
    pub kind: SignalKind,
    pub side: OrderSide,
    /// The z-score that fired the signal, as the bits of a double.
    pub z_bits: u64,
}

/// The strategy's stance on one instrument.
#[derive(Debug, Clone, Copy, PartialEq, Eq, Structural)]
pub enum Pos {
    Flat,
    Long,
    Short,
}

impl Pos {
    /// Flat 0, long 1, short -1.
    pub open spec fn exposure(self) -> int {
        match self {
            Pos::Flat => 0,
            Pos::Long => 1,
            Pos::Short => -1,
        }
    }
}

/// Per-instrument state: samples seen and stance.
#[derive(Debug, Clone, Copy, PartialEq, Eq, Structural)]
pub struct Tracker {
    pub count: u32,
    pub pos: Pos,
}

impl Tracker {
    /// The state before the first sample.
    pub open spec fn fresh() -> Tracker {
        Tracker { count: 0, pos: Pos::Flat }
    }

    /// The sample count after one more sample; it wraps around.
    pub open spec fn counted(self) -> u32 {
        ((self.count + 1) % 0x1_0000_0000) as u32
    }

    /// What a sample calls for, warm-up apart: the kind and side of a signal.
    pub open spec fn call(self, d: Deviation) -> Option<(SignalKind, OrderSide)> {
        match self.pos {
            Pos::Flat => if d.above_entry {
                Some((SignalKind::Enter, OrderSide::Sell))
            } else if d.below_entry {
                Some((SignalKind::Enter, OrderSide::Buy))
            } else {
                None
            },
            Pos::Long => if d.within_exit || d.beyond_stop {
                Some((SignalKind::Exit, OrderSide::Sell))
            } else {
                None
            },
            Pos::Short => if d.within_exit || d.beyond_stop {
                Some((SignalKind::Exit, OrderSide::Buy))
            } else {
                None
            },
        }
    }

    /// Whether a sample may fire at all: warm-up is over and the model has a
    /// spread to measure against.
    pub open spec fn armed(self, warmup: u32, d: Deviation) -> bool {
        self.counted() > warmup && d.dispersed
    }

    /// The signal that a sample fires.
    pub open spec fn signal(self, warmup: u32, id: InstrumentId, d: Deviation) -> Option<Signal> {
        if self.armed(warmup, d) && self.call(d) is Some {
            let (kind, side) = self.call(d)->0;
            Some(Signal { instrument: id, kind, side, z_bits: d.z_bits })
        } else {
            None
        }
    }

    /// The state after a sample: entering takes the side of the signal, exiting
    /// makes flat.
    pub open spec fn after(self, warmup: u32, d: Deviation) -> Tracker {
        Tracker {
            count: self.counted(),
            pos: if self.armed(warmup, d) {
                match self.call(d) {
                    Some((SignalKind::Enter, OrderSide::Buy)) => Pos::Long,
                    Some((SignalKind::Enter, OrderSide::Sell)) => Pos::Short,
                    Some((SignalKind::Exit, _)) => Pos::Flat,
                    None => self.pos,
                }
            } else {
                self.pos
            },
        }
    }
}

/// What a signal engine holds.
#[verifier::ext_equal]
pub struct EngineState {
    pub warmup: u32,
    pub trackers: Map<InstrumentId, Tracker>,
}

impl EngineState {
    /// An engine that has seen no sample.
    pub open spec fn fresh(warmup: u32, ids: Seq<InstrumentId>) -> EngineState {
        EngineState {
            warmup,
            trackers: Map::new(|k: InstrumentId| ids.contains(k), |k: InstrumentId| Tracker::fresh()),
        }
    }

    /// The signal that a sample fires; none for an unregistered instrument.
    pub open spec fn signal(self, id: InstrumentId, d: Deviation) -> Option<Signal> {
        if self.trackers.contains_key(id) {
            self.trackers[id].signal(self.warmup, id, d)
        } else {
            None
        }
    }

    /// The engine after a sample.
    pub open spec fn after(self, id: InstrumentId, d: Deviation) -> EngineState {
        if self.trackers.contains_key(id) {
            EngineState {
                trackers: self.trackers.insert(id, self.trackers[id].after(self.warmup, d)),
                ..self
            }
        } else {
            self
        }
    }
}

/// Mean-reversion signal engine across a set of instruments.
#[derive(Debug)]
pub struct SignalEngine {
    cfg: SignalConfig,
    states: HashMap<InstrumentId, Tracker>,
}

impl View for SignalEngine {
    type V = EngineState;

    closed spec fn view(&self) -> EngineState {
        EngineState { warmup: self.cfg.warmup, trackers: self.states@ }
    }
}

impl SignalEngine {
    /// Build an engine with preallocated per-instrument state.
    pub fn new(cfg: SignalConfig, instruments: &[InstrumentId]) -> (r: SignalEngine)
        ensures
            r@ == EngineState::fresh(cfg.warmup, instruments@),
    {
        let mut states: HashMap<InstrumentId, Tracker> = HashMap::with_capacity(instruments.len());
        let mut i: usize = 0;
        while i < instruments.len()
            invariant
                i <= instruments@.len(),
                forall|k: InstrumentId|
                    states@.contains_key(k) <==> exists|j: int| 0 <= j < i && instruments@[j] == k,
                forall|k: InstrumentId| states@.contains_key(k) ==> #[trigger] states@[k]
                    == Tracker::fresh(),
            decreases instruments@.len() - i,
        {
            states.insert(instruments[i], Tracker { count: 0, pos: Pos::Flat });
            i += 1;
        }
        let r = SignalEngine { cfg, states };
        assert(r@ =~= EngineState::fresh(cfg.warmup, instruments@));
        r
    }

    /// Samples seen for an instrument; `None` if it is not registered. The
    /// first sample seeds the model.
    pub fn observed(&self, instrument: InstrumentId) -> (r: Option<u32>)
        ensures
            r == if self@.trackers.contains_key(instrument) {
                Some(self@.trackers[instrument].count)
            } else {
                None
            },
    {
        match self.states.get(&instrument) {
            Some(s) => Some(s.count),
            None => None,
        }
    }

    /// Feed a new sample for `instrument`; returns a signal if one fires.
    pub fn update(&mut self, instrument: InstrumentId, d: &Deviation) -> (r: Option<Signal>)
        ensures
            r == old(self)@.signal(instrument, *d),
            final(self)@ == old(self)@.after(instrument, *d),
    {
        let ghost before = self@;
        let warmup: u32 = self.cfg.warmup;
        let mut s = match self.states.get(&instrument) {
            Some(s) => *s,
            None => {
                return None;
            },
        };
        let ghost tracker = s;
        s.count = s.count.wrapping_add(1);
        let mut fired: Option<(SignalKind, OrderSide)> = None;
        if s.count > warmup && d.dispersed {
            match s.pos {
                Pos::Flat => {
                    if d.above_entry {
                        s.pos = Pos::Short;
                        fired = Some((SignalKind::Enter, OrderSide::Sell));
                    } else if d.below_entry {
                        s.pos = Pos::Long;
                        fired = Some((SignalKind::Enter, OrderSide::Buy));
                    }
                },
                Pos::Long => {
                    if d.within_exit || d.beyond_stop {
                        s.pos = Pos::Flat;
                        fired = Some((SignalKind::Exit, OrderSide::Sell));
                    }
                },
                Pos::Short => {
                    if d.within_exit || d.beyond_stop {
                        s.pos = Pos::Flat;
                        fired = Some((SignalKind::Exit, OrderSide::Buy));
                    }
                },
            }
        }
        self.states.insert(instrument, s);
        assert(s == tracker.after(warmup, *d));
        assert(self@ =~= before.after(instrument, *d));
        match fired {
            Some((kind, side)) => Some(Signal { instrument, kind, side, z_bits: d.z_bits }),
            None => None,
        }
    }
}

/// Positions are entered only from flat and left only to flat, and a signal
/// moves the stance by one contract in its own direction: the stance is never
/// more than one contract either way.
pub proof fn signals_alternate(t: Tracker, warmup: u32, id: InstrumentId, d: Deviation)
    ensures
        t.signal(warmup, id, d) is Some ==> ({
            let s = t.signal(warmup, id, d)->0;
            &&& s.kind is Enter <==> t.pos is Flat
            &&& s.kind is Exit <==> t.after(warmup, d).pos is Flat
            &&& t.after(warmup, d).pos.exposure() == t.pos.exposure() + s.side.direction()
        }),
        t.signal(warmup, id, d) is None ==> t.after(warmup, d).pos == t.pos,
{
}

/// A position is left on the side opposite to the one it was entered on.
pub proof fn exits_flatten(
    t: Tracker,
    warmup: u32,
    id: InstrumentId,
    entry: Deviation,
    exit: Deviation,
)
    requires
        t.pos is Flat,
        t.signal(warmup, id, entry) is Some,
        t.after(warmup, entry).signal(warmup, id, exit) is Some,
    ensures
        t.after(warmup, entry).signal(warmup, id, exit)->0.side == t.signal(
            warmup,
            id,
            entry,
        )->0.side.mirror(),
        t.after(warmup, entry).after(warmup, exit).pos is Flat,
{
}

/// A mid high against the model is sold, a low one is bought.
pub proof fn entries_trade_against_the_deviation(
    t: Tracker,
    warmup: u32,
    id: InstrumentId,
    d: Deviation,
)
    requires
        t.pos is Flat,
        t.armed(warmup, d),
    ensures
        d.above_entry ==> t.signal(warmup, id, d) is Some && t.signal(warmup, id, d)->0.side is Sell,
        d.below_entry && !d.above_entry ==> t.signal(warmup, id, d) is Some && t.signal(
            warmup,
            id,
            d,
        )->0.side is Buy,
{
}

/// The tracker after a sequence of samples, first one first.
pub open spec fn after_samples(t: Tracker, warmup: u32, ds: Seq<Deviation>) -> Tracker
    decreases ds.len(),
{
    if ds.len() == 0 {
        t
    } else {
        after_samples(t, warmup, ds.drop_last()).after(warmup, ds.last())
    }
}

/// No signal fires during warm-up: whatever the samples, none of the first
/// `warmup` of them does.
pub proof fn warmup_is_silent(warmup: u32, id: InstrumentId, ds: Seq<Deviation>, d: Deviation)
    requires
        ds.len() < warmup,
    ensures
        after_samples(Tracker::fresh(), warmup, ds).count == ds.len(),
        after_samples(Tracker::fresh(), warmup, ds).pos is Flat,
        after_samples(Tracker::fresh(), warmup, ds).signal(warmup, id, d) is None,
    decreases ds.len(),
{
    if ds.len() > 0 {
        warmup_is_silent(warmup, id, ds.drop_last(), d);
    }
}

/// An unregistered instrument never fires and changes nothing; a registered one
/// leaves every other instrument as it was.
pub proof fn samples_touch_one_instrument(
    e: EngineState,
    id: InstrumentId,
    d: Deviation,
    other: InstrumentId,
)
    ensures
        !e.trackers.contains_key(id) ==> e.signal(id, d) is None && e.after(id, d) == e,
        e.after(id, d).warmup == e.warmup,
        e.after(id, d).trackers.contains_key(other) == e.trackers.contains_key(other),
        other != id && e.trackers.contains_key(other) ==> e.after(id, d).trackers[other]
            == e.trackers[other],
{
}

/// No position is entered or left while warming up, nor on a sample that the
/// model has no spread to measure: such a sample fires nothing and leaves the
/// stance.
pub proof fn unarmed_samples_do_nothing(t: Tracker, warmup: u32, id: InstrumentId, d: Deviation)
    requires
        t.count < u32::MAX,
        t.count + 1 <= warmup || !d.dispersed,
    ensures
        t.signal(warmup, id, d) is None,
        t.after(warmup, d).pos == t.pos,
        t.after(warmup, d).count == t.count + 1,
{
}

/// After warm-up, a position is left exactly when the mid is back near the mean
/// or has run past the stop, long and short alike: the signal is an exit on the
/// side that flattens, and the stance is then flat.
pub proof fn positions_are_left_on_reversion_or_stop(
    t: Tracker,
    warmup: u32,
    id: InstrumentId,
    d: Deviation,
)
    requires
        warmup <= t.count < u32::MAX,
        d.dispersed,
        t.pos is Long || t.pos is Short,
    ensures
        t.signal(warmup, id, d) is Some <==> d.within_exit || d.beyond_stop,
        t.signal(warmup, id, d) matches Some(s) ==> {
            &&& s.kind is Exit
            &&& s.side is Sell <==> t.pos is Long
            &&& s.instrument == id
            &&& s.z_bits == d.z_bits
        },
        t.after(warmup, d).pos is Flat <==> d.within_exit || d.beyond_stop,
        !(d.within_exit || d.beyond_stop) ==> t.after(warmup, d).pos == t.pos,
        t.after(warmup, d).count == t.count + 1,
{
}

/// After warm-up, a flat stance is left exactly when the mid is past the entry
/// threshold: above it by selling, below it by buying, and the stance is then
/// short or long.
pub proof fn positions_are_entered_past_the_threshold(
    t: Tracker,
    warmup: u32,
    id: InstrumentId,
    d: Deviation,
)
    requires
        warmup <= t.count < u32::MAX,
        d.dispersed,
        t.pos is Flat,
    ensures
        t.signal(warmup, id, d) is Some <==> d.above_entry || d.below_entry,
        t.signal(warmup, id, d) matches Some(s) ==> {
            &&& s.kind is Enter
            &&& s.side is Sell <==> d.above_entry
            &&& s.instrument == id
            &&& s.z_bits == d.z_bits
        },
        t.after(warmup, d).pos is Short <==> d.above_entry,
        t.after(warmup, d).pos is Long <==> d.below_entry && !d.above_entry,
        t.after(warmup, d).count == t.count + 1,
{
}

/// High and low are traded alike: with the deviation and the stance mirrored, the
/// signal is on the other side and the stance after it is mirrored. (No mid is
/// both above and below.)
pub proof fn high_and_low_are_traded_alike(
    t: Tracker,
    u: Tracker,
    warmup: u32,
    id: InstrumentId,
    d: Deviation,
    m: Deviation,
)
    requires
        !(d.above_entry && d.below_entry),
        m == (Deviation { above_entry: d.below_entry, below_entry: d.above_entry, ..d }),
        u.count == t.count,
        u.pos.exposure() == -t.pos.exposure(),
    ensures
        t.signal(warmup, id, d) is Some <==> u.signal(warmup, id, m) is Some,
        t.signal(warmup, id, d) is Some ==> ({
            let s = t.signal(warmup, id, d)->0;
            let r = u.signal(warmup, id, m)->0;
            s.kind == r.kind && s.side.direction() == -r.side.direction()
        }),
        u.after(warmup, m).pos.exposure() == -t.after(warmup, d).pos.exposure(),
        u.after(warmup, m).count == t.after(warmup, d).count,
{
}

/// Warm-up ends: after that many samples, none of which can have fired, the next
/// one past the entry threshold fires.
pub proof fn warmup_ends(warmup: u32, id: InstrumentId, ds: Seq<Deviation>, d: Deviation)
    requires
        ds.len() == warmup,
        ds.len() < u32::MAX,
        d.dispersed,
        d.above_entry || d.below_entry,
    ensures
        after_samples(Tracker::fresh(), warmup, ds).signal(warmup, id, d) is Some,
{
    if ds.len() > 0 {
        warmup_is_silent(warmup, id, ds.drop_last(), d);
    }
}

/// A sample of a registered instrument is judged by that instrument's own state,
/// under the engine's warm-up; a new engine has registered exactly its
/// instruments, unseen and flat.
pub proof fn samples_reach_their_tracker(
    e: EngineState,
    id: InstrumentId,
    d: Deviation,
    warmup: u32,
    ids: Seq<InstrumentId>,
)
    ensures
        e.trackers.contains_key(id) ==> e.signal(id, d) == e.trackers[id].signal(e.warmup, id, d)
            && e.after(id, d).trackers[id] == e.trackers[id].after(e.warmup, d),
        EngineState::fresh(warmup, ids).warmup == warmup,
        EngineState::fresh(warmup, ids).trackers.contains_key(id) <==> ids.contains(id),
        ids.contains(id) ==> EngineState::fresh(warmup, ids).trackers[id].count == 0
            && EngineState::fresh(warmup, ids).trackers[id].pos is Flat,
{
}

} // verus!
