//! Per-instrument depth book built from `MdEntry` updates; derives the BBO.
//!
//! Each side is a fixed-depth ladder (no hot-path allocation) indexed by
//! `MDPriceLevel - 1` (0 = top of book). Only outright bid/offer entries update
//! the book; implied (`E`/`F`) entries are ignored, and a `BookReset` (`J`)
//! clears both sides.
use std::collections::HashMap;

use arrayvec::ArrayVec;
use vstd::prelude::*;

use crate::ladder::{
    empty_ladder, ladder_clear, ladder_insert, ladder_is_full, ladder_len, ladder_pop, ladder_push,
    ladder_remove, ladder_set, ladder_slice, ladder_truncate, levels_of,
};
pub use crate::ladder::{Level, MAX_DEPTH};
use crate::mdp3::book_refresh::MdEntry;
use crate::mdp3::enums::{MdEntryType, MdUpdateAction};
use crate::totals::{sum_over, sum_over_ext, sum_over_step};
use crate::{InstrumentId, Side};

verus! {

broadcast use vstd::std_specs::hash::group_hash_axioms;

/// Top-of-book snapshot for one instrument.
#[derive(Debug, Clone, Copy, PartialEq, Eq, Structural)]
pub struct Bbo {
    pub bid_px_raw: Option<i64>,
    pub bid_size: i32,
    pub offer_px_raw: Option<i64>,
    pub offer_size: i32,
}

impl Default for Bbo {
    /// The top of an empty book.
    fn default() -> (r: Bbo)
        ensures
            r == empty_book().bbo(),
    {
        Bbo { bid_px_raw: None, bid_size: 0, offer_px_raw: None, offer_size: 0 }
    }
}

impl Bbo {
    /// Best bid and best offer, when both sides are present: the two prices
    /// that a mid price is made of.
    pub fn touch(&self) -> (r: Option<(i64, i64)>)
        ensures
            r == self.best(),
    {
        match (self.bid_px_raw, self.offer_px_raw) {
            (Some(b), Some(o)) => Some((b, o)),
            _ => None,
        }
    }

    /// Best bid and best offer, in specifications.
    pub open spec fn best(self) -> Option<(i64, i64)> {
        if self.bid_px_raw is Some && self.offer_px_raw is Some {
            Some((self.bid_px_raw->0, self.offer_px_raw->0))
        } else {
            None
        }
    }
}

/// What one instrument's book holds: its two ladders, the last report sequence
/// number seen, and the number of discontinuities in that sequence.
#[verifier::ext_equal]
pub struct BookState {
    pub bids: Seq<Level>,
    pub offers: Seq<Level>,
    pub last_rpt_seq: Option<u32>,
    pub gaps: u64,
}

/// A book that has seen nothing.
pub open spec fn empty_book() -> BookState {
    BookState { bids: Seq::empty(), offers: Seq::empty(), last_rpt_seq: None, gaps: 0 }
}

/// The ladder position an entry speaks of: `MDPriceLevel - 1`, level 0 being
/// read as level 1.
pub open spec fn ladder_index(price_level: u8) -> int {
    if price_level == 0 {
        0
    } else {
        price_level - 1
    }
}

/// The price level that an entry carries.
pub open spec fn level_of(e: MdEntry) -> Level {
    Level { px_raw: e.px_raw, size: e.size, num_orders: e.num_orders }
}

/// A ladder after an insertion at `index`. An index beyond the level after the
/// deepest is ignored; a full ladder first drops its deepest level.
pub open spec fn inserted(s: Seq<Level>, index: int, level: Level) -> Seq<Level> {
    if index > s.len() {
        s
    } else {
        let kept = if s.len() == MAX_DEPTH {
            s.drop_last()
        } else {
            s
        };
        if index <= kept.len() {
            kept.insert(index, level)
        } else {
            kept
        }
    }
}

/// A ladder after a level at `index` was set: an existing level is replaced,
/// the level after the deepest is appended while there is room.
pub open spec fn replaced(s: Seq<Level>, index: int, level: Level) -> Seq<Level> {
    if index < s.len() {
        s.update(index, level)
    } else if index == s.len() && s.len() != MAX_DEPTH {
        s.push(level)
    } else {
        s
    }
}

/// A ladder after the level at `index`, if there is one, was taken out.
pub open spec fn removed(s: Seq<Level>, index: int) -> Seq<Level> {
    if index < s.len() {
        s.remove(index)
    } else {
        s
    }
}

/// A ladder cut down to the levels above `index`.
pub open spec fn cut(s: Seq<Level>, index: int) -> Seq<Level> {
    if index < s.len() {
        s.take(index)
    } else {
        s
    }
}

/// One side's ladder after an outright entry for that side.
pub open spec fn ladder_after(s: Seq<Level>, e: MdEntry) -> Seq<Level> {
    let index = ladder_index(e.price_level);
    match e.update_action {
        MdUpdateAction::New => inserted(s, index, level_of(e)),
        MdUpdateAction::Change | MdUpdateAction::Overlay => replaced(s, index, level_of(e)),
        MdUpdateAction::Delete => removed(s, index),
        MdUpdateAction::DeleteThru => Seq::empty(),
        MdUpdateAction::DeleteFrom => cut(s, index),
    }
}

/// Whether a report sequence number leaves a hole behind the last one: a repeat,
/// the next number or an earlier one does not.
pub open spec fn leaves_gap(last: Option<u32>, rpt_seq: u32) -> bool {
    last is Some && rpt_seq > last->0 + 1
}

impl BookState {
    /// The book after an entry.
    pub open spec fn after(self, e: MdEntry) -> BookState {
        BookState {
            bids: match e.entry_type {
                MdEntryType::BookReset => Seq::empty(),
                MdEntryType::Bid => ladder_after(self.bids, e),
                _ => self.bids,
            },
            offers: match e.entry_type {
                MdEntryType::BookReset => Seq::empty(),
                MdEntryType::Offer => ladder_after(self.offers, e),
                _ => self.offers,
            },
            last_rpt_seq: Some(e.rpt_seq),
            gaps: if leaves_gap(self.last_rpt_seq, e.rpt_seq) {
                ((self.gaps + 1) % 0x1_0000_0000_0000_0000) as u64
            } else {
                self.gaps
            },
        }
    }

    /// The book after a sequence of entries, first one first.
    pub open spec fn after_all(self, entries: Seq<MdEntry>) -> BookState
        decreases entries.len(),
    {
        if entries.len() == 0 {
            self
        } else {
            self.after_all(entries.drop_last()).after(entries.last())
        }
    }

    /// Best bid and offer; an empty side has no price and size 0.
    pub open spec fn bbo(self) -> Bbo {
        Bbo {
            bid_px_raw: if self.bids.len() > 0 {
                Some(self.bids[0].px_raw)
            } else {
                None
            },
            bid_size: if self.bids.len() > 0 {
                self.bids[0].size
            } else {
                0
            },
            offer_px_raw: if self.offers.len() > 0 {
                Some(self.offers[0].px_raw)
            } else {
                None
            },
            offer_size: if self.offers.len() > 0 {
                self.offers[0].size
            } else {
                0
            },
        }
    }

    /// Neither side is deeper than the tracked depth.
    pub open spec fn is_bounded(self) -> bool {
        self.bids.len() <= MAX_DEPTH && self.offers.len() <= MAX_DEPTH
    }
}

/// Applies an outright entry to its side's ladder.
fn update_ladder(levels: &mut ArrayVec<Level, MAX_DEPTH>, e: &MdEntry)
    ensures
        levels_of(*final(levels)) == ladder_after(levels_of(*old(levels)), *e),
{
    let idx: usize = (e.price_level as usize).saturating_sub(1);
    let level = Level { px_raw: e.px_raw, size: e.size, num_orders: e.num_orders };
    let len: usize = ladder_len(levels);
    match e.update_action {
        MdUpdateAction::New => {
            if idx > len {
                return ;  // can't insert past the end+1

            }
            if ladder_is_full(levels) {
                ladder_pop(levels);  // drop the deepest level to make room
            }
            if idx <= ladder_len(levels) {
                ladder_insert(levels, idx, level);
            }
        },
        MdUpdateAction::Change | MdUpdateAction::Overlay => {
            if idx < len {
                ladder_set(levels, idx, level);
            } else if idx == len && !ladder_is_full(levels) {
                ladder_push(levels, level);
            }
        },
        MdUpdateAction::Delete => {
            if idx < len {
                ladder_remove(levels, idx);
            }
        },
        MdUpdateAction::DeleteThru => {
            ladder_clear(levels);
        },
        MdUpdateAction::DeleteFrom => {
            ladder_truncate(levels, idx);
        },
    }
}

/// One instrument's two-sided depth book.
#[derive(Debug)]
pub struct InstrumentBook {
    bids: ArrayVec<Level, MAX_DEPTH>,
    offers: ArrayVec<Level, MAX_DEPTH>,
    last_rpt_seq: Option<u32>,
    gaps: u64,
}

impl View for InstrumentBook {
    type V = BookState;

    closed spec fn view(&self) -> BookState {
        BookState {
            bids: levels_of(self.bids),
            offers: levels_of(self.offers),
            last_rpt_seq: self.last_rpt_seq,
            gaps: self.gaps,
        }
    }
}

impl Default for InstrumentBook {
    fn default() -> (r: InstrumentBook)
        ensures
            r@ == empty_book(),
    {
        InstrumentBook { bids: empty_ladder(), offers: empty_ladder(), last_rpt_seq: None, gaps: 0 }
    }
}

impl InstrumentBook {
    /// An empty book.
    pub fn new() -> (r: InstrumentBook)
        ensures
            r@ == empty_book(),
    {
        InstrumentBook::default()
    }

    /// Apply one decoded entry to this book.
    pub fn apply(&mut self, e: &MdEntry)
        ensures
            final(self)@ == old(self)@.after(*e),
    {
        // Per-instrument RptSeq gap detection (informational; does not block).
        if let Some(last) = self.last_rpt_seq {
            if e.rpt_seq as u64 > last as u64 + 1 {
                self.gaps = self.gaps.wrapping_add(1);
            }
        }
        self.last_rpt_seq = Some(e.rpt_seq);

        match e.entry_type {
            MdEntryType::BookReset => {
                ladder_clear(&mut self.bids);
                ladder_clear(&mut self.offers);
            },
            MdEntryType::Bid => update_ladder(&mut self.bids, e),
            MdEntryType::Offer => update_ladder(&mut self.offers, e),
            // Implied entries do not update this book.
            MdEntryType::ImpliedBid | MdEntryType::ImpliedOffer => {},
        }
    }

    /// Current best bid/offer.
    pub fn bbo(&self) -> (r: Bbo)
        ensures
            r == self@.bbo(),
    {
        let bids = ladder_slice(&self.bids);
        let offers = ladder_slice(&self.offers);
        let (bid_px_raw, bid_size) = top(bids);
        let (offer_px_raw, offer_size) = top(offers);
        Bbo { bid_px_raw, bid_size, offer_px_raw, offer_size }
    }

    /// Count of detected `RptSeq` discontinuities for this instrument.
    pub fn gaps(&self) -> (r: u64)
        ensures
            r == self@.gaps,
    {
        self.gaps
    }

    /// Depth of one side (for tests / diagnostics).
    pub fn depth(&self, side: Side) -> (r: usize)
        ensures
            r == match side {
                Side::Bid => self@.bids.len(),
                Side::Offer => self@.offers.len(),
            },
            r <= MAX_DEPTH,
    {
        match side {
            Side::Bid => ladder_len(&self.bids),
            Side::Offer => ladder_len(&self.offers),
        }
    }
}

/// Price and size at the top of a ladder.
fn top(levels: &[Level]) -> (r: (Option<i64>, i32))
    ensures
        levels@.len() == 0 ==> r == (None::<i64>, 0i32),
        levels@.len() > 0 ==> r == (Some(levels@[0].px_raw), levels@[0].size),
{
    if levels.len() == 0 {
        (None, 0)
    } else {
        (Some(levels[0].px_raw), levels[0].size)
    }
}

/// A collection of instrument books keyed by `SecurityID`, preallocated at
/// startup so the hot path performs no map growth.
#[derive(Debug)]
pub struct OrderBook {
    books: HashMap<InstrumentId, InstrumentBook>,
}

impl View for OrderBook {
    type V = Map<InstrumentId, BookState>;

    closed spec fn view(&self) -> Map<InstrumentId, BookState> {
        self.books@.map_values(|b: InstrumentBook| b@)
    }
}

/// Books after an entry: the one of its instrument is updated, if registered.
pub open spec fn books_after(books: Map<InstrumentId, BookState>, e: MdEntry) -> Map<
    InstrumentId,
    BookState,
> {
    if books.contains_key(e.security_id) {
        books.insert(e.security_id, books[e.security_id].after(e))
    } else {
        books
    }
}

/// The gaps of all books together.
pub open spec fn gap_total(books: Map<InstrumentId, BookState>) -> int {
    sum_over(books.dom(), |k: InstrumentId| books[k].gaps as int)
}

impl Default for OrderBook {
    fn default() -> (r: OrderBook)
        ensures
            r@ == Map::<InstrumentId, BookState>::empty(),
    {
        let r = OrderBook { books: HashMap::new() };
        assert(r@ =~= Map::<InstrumentId, BookState>::empty());
        r
    }
}

impl OrderBook {
    /// Preallocate books for a known set of instruments.
    pub fn with_instruments(ids: &[InstrumentId]) -> (r: OrderBook)
        ensures
            r@ == Map::new(|k: InstrumentId| ids@.contains(k), |k: InstrumentId| empty_book()),
            r@.dom().finite(),
    {
        let mut books: HashMap<InstrumentId, InstrumentBook> = HashMap::with_capacity(ids.len());
        let mut i: usize = 0;
        while i < ids.len()
            invariant
                i <= ids@.len(),
                forall|k: InstrumentId|
                    books@.contains_key(k) <==> exists|j: int| 0 <= j < i && ids@[j] == k,
                forall|k: InstrumentId| books@.contains_key(k) ==> #[trigger] books@[k]@
                    == empty_book(),
            decreases ids@.len() - i,
        {
            books.insert(ids[i], InstrumentBook::new());
            i += 1;
        }
        let r = OrderBook { books };
        assert(r@ =~= Map::new(|k: InstrumentId| ids@.contains(k), |k: InstrumentId| empty_book()));
        assert(r@.dom() =~= r.books@.dom());
        r
    }

    /// Apply an entry to the book for its `security_id`, returning the updated
    /// BBO. `None` if the instrument was not registered.
    pub fn apply(&mut self, e: &MdEntry) -> (r: Option<Bbo>)
        ensures
            final(self)@ == books_after(old(self)@, *e),
            r == if old(self)@.contains_key(e.security_id) {
                Some(old(self)@[e.security_id].after(*e).bbo())
            } else {
                None
            },
    {
        let ghost before = self@;
        match self.books.remove(&e.security_id) {
            None => {
                assert(self@ =~= before);
                None
            },
            Some(mut b) => {
                b.apply(e);
                let bbo = b.bbo();
                self.books.insert(e.security_id, b);
                assert(self@ =~= books_after(before, *e));
                Some(bbo)
            },
        }
    }

    /// Borrow an instrument's book.
    pub fn book(&self, id: InstrumentId) -> (r: Option<&InstrumentBook>)
        ensures
            r is Some <==> self@.contains_key(id),
            r is Some ==> r->0@ == self@[id],
    {
        self.books.get(&id)
    }

    /// Total `RptSeq` gaps across all instruments, counted modulo 2^64.
    pub fn total_gaps(&self) -> (r: u64)
        ensures
            r == gap_total(self@) % 0x1_0000_0000_0000_0000,
    {
        let mut total: u64 = 0;
        let ghost f = |k: InstrumentId| self@[k].gaps as int;
        proof {
            assert(Seq::<InstrumentId>::empty().to_set() =~= Set::empty());
        }
        for k in it: self.books.keys()
            invariant
                f == (|k: InstrumentId| self@[k].gaps as int),
                it.seq().unref().to_set() == self.books@.dom(),
                it.seq().no_duplicates(),
                total == sum_over(it.seq().unref().take(it.index() as int).to_set(), f)
                    % 0x1_0000_0000_0000_0000,
                it.index() == it.seq().len() ==> total == sum_over(self.books@.dom(), f)
                    % 0x1_0000_0000_0000_0000,
        {
            proof {
                sum_over_step(it.seq(), self.books@.dom(), f, it.index() as int);
            }
            match self.books.get(k) {
                Some(b) => {
                    total = total.wrapping_add(b.gaps());
                },
                None => {},
            }
        }
        proof {
            assert(self@.dom() =~= self.books@.dom());
            sum_over_ext(self@.dom(), f, |k: InstrumentId| self@[k].gaps as int);
        }
        total
    }
}

} // verus!
