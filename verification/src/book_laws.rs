//! What holds of every book and of every update of one.
use vstd::prelude::*;

use crate::mdp3::book_refresh::MdEntry;
use crate::mdp3::enums::{MdEntryType, MdUpdateAction};
use crate::orderbook::{
    books_after, empty_book, gap_total, inserted, ladder_after, ladder_index, leaves_gap, removed,
    BookState, Level, MAX_DEPTH,
};
use crate::totals::{sum_over_change, sum_over_ext, sum_over_remove};
use crate::InstrumentId;

verus! {

/// No entry makes a side deeper than the tracked depth.
pub proof fn depth_stays_bounded(book: BookState, e: MdEntry)
    requires
        book.is_bounded(),
    ensures
        book.after(e).is_bounded(),
{
}

/// A book that started empty is within the tracked depth after any entries.
pub proof fn depth_is_always_bounded(entries: Seq<MdEntry>)
    ensures
        empty_book().after_all(entries).is_bounded(),
    decreases entries.len(),
{
    if entries.len() > 0 {
        depth_is_always_bounded(entries.drop_last());
        depth_stays_bounded(empty_book().after_all(entries.drop_last()), entries.last());
    }
}

/// Implied entries leave both ladders, and so the best bid and offer, as they
/// were.
pub proof fn implied_entries_are_ignored(book: BookState, e: MdEntry)
    requires
        e.entry_type is ImpliedBid || e.entry_type is ImpliedOffer,
    ensures
        book.after(e).bids == book.bids,
        book.after(e).offers == book.offers,
        book.after(e).bbo() == book.bbo(),
{
}

/// A book reset clears both sides: the book then has no best bid and no best
/// offer.
pub proof fn reset_clears_both_sides(book: BookState, e: MdEntry)
    requires
        e.entry_type is BookReset,
    ensures
        book.after(e).bids.len() == 0,
        book.after(e).offers.len() == 0,
        book.after(e).bbo() == empty_book().bbo(),
{
}

/// An outright entry changes its own side only.
pub proof fn outright_entries_touch_one_side(book: BookState, e: MdEntry)
    ensures
        e.entry_type is Bid ==> book.after(e).offers == book.offers,
        e.entry_type is Offer ==> book.after(e).bids == book.bids,
{
}

/// A new level at the top of a side is that side's best price and size.
pub proof fn new_top_level_is_the_best(book: BookState, e: MdEntry)
    requires
        book.is_bounded(),
        e.update_action is New,
        e.price_level <= 1,
    ensures
        e.entry_type is Bid ==> book.after(e).bbo().bid_px_raw == Some(e.px_raw)
            && book.after(e).bbo().bid_size == e.size,
        e.entry_type is Offer ==> book.after(e).bbo().offer_px_raw == Some(e.px_raw)
            && book.after(e).bbo().offer_size == e.size,
{
}

/// Deleting a level that was just inserted gives the ladder back, if there was
/// room for it.
pub proof fn delete_undoes_new(ladder: Seq<Level>, level: Level, index: int)
    requires
        0 <= index <= ladder.len() < MAX_DEPTH,
    ensures
        removed(inserted(ladder, index, level), index) == ladder,
{
    assert(ladder.insert(index, level).remove(index) =~= ladder);
}

/// Inserting into a full ladder costs exactly its deepest level: the levels
/// above the new one stay, those below it move down by one.
pub proof fn full_ladder_drops_its_deepest(ladder: Seq<Level>, level: Level, index: int)
    requires
        ladder.len() == MAX_DEPTH,
        0 <= index < MAX_DEPTH,
    ensures
        inserted(ladder, index, level).len() == MAX_DEPTH,
        inserted(ladder, index, level)[index] == level,
        forall|i: int| 0 <= i < index ==> #[trigger] inserted(ladder, index, level)[i] == ladder[i],
        forall|i: int|
            index < i < MAX_DEPTH ==> #[trigger] inserted(ladder, index, level)[i] == ladder[i - 1],
{
}

/// An overlay is a change: the two actions do the same, and applying one twice
/// is applying it once.
pub proof fn overlay_is_change(ladder: Seq<Level>, e: MdEntry, f: MdEntry)
    requires
        e.update_action is Change,
        f == (MdEntry { update_action: MdUpdateAction::Overlay, ..e }),
    ensures
        ladder_after(ladder, e) == ladder_after(ladder, f),
        ladder_after(ladder_after(ladder, e), e) == ladder_after(ladder, e),
{
    assert(ladder_after(ladder_after(ladder, e), e) =~= ladder_after(ladder, e));
}

/// Deleting from the top level down, and deleting through, both clear a side.
pub proof fn whole_side_deletes_agree(ladder: Seq<Level>, e: MdEntry)
    requires
        e.update_action is DeleteThru || (e.update_action is DeleteFrom && e.price_level <= 1),
    ensures
        ladder_after(ladder, e) == Seq::<Level>::empty(),
{
    assert(ladder_after(ladder, e) =~= Seq::<Level>::empty());
}

/// Levels above the one an entry speaks of are never moved by a deletion.
pub proof fn deletes_keep_better_levels(ladder: Seq<Level>, e: MdEntry, i: int)
    requires
        e.update_action is Delete || e.update_action is DeleteFrom,
        0 <= i < ladder.len(),
        i < ladder_index(e.price_level),
    ensures
        i < ladder_after(ladder, e).len(),
        ladder_after(ladder, e)[i] == ladder[i],
{
}

/// Entries numbered in sequence never count as a gap; one that jumps ahead
/// counts as exactly one, however far it jumps.
pub proof fn gaps_count_jumps(book: BookState, e: MdEntry, last: u32)
    requires
        book.last_rpt_seq == Some(last),
        book.gaps < u64::MAX,
    ensures
        book.after(e).last_rpt_seq == Some(e.rpt_seq),
        e.rpt_seq <= last + 1 ==> book.after(e).gaps == book.gaps,
        e.rpt_seq > last + 1 ==> book.after(e).gaps == book.gaps + 1,
{
}

/// The first entry a book sees is never a gap.
pub proof fn first_entry_is_no_gap(e: MdEntry)
    ensures
        empty_book().after(e).gaps == 0,
{
}

/// An entry leaves the books of all other instruments, and the set of
/// registered instruments, as they were.
pub proof fn other_instruments_are_untouched(
    books: Map<InstrumentId, BookState>,
    e: MdEntry,
    id: InstrumentId,
)
    ensures
        books_after(books, e).contains_key(id) == books.contains_key(id),
        id != e.security_id && books.contains_key(id) ==> books_after(books, e)[id] == books[id],
        !books.contains_key(e.security_id) ==> books_after(books, e) == books,
{
}

/// The gap total counts the jumps of all instruments: an entry adds one to it
/// if it leaves a gap in its own instrument's sequence, and nothing otherwise.
pub proof fn gap_total_counts_jumps(books: Map<InstrumentId, BookState>, e: MdEntry)
    requires
        books.dom().finite(),
        books.contains_key(e.security_id),
        books[e.security_id].gaps < u64::MAX,
    ensures
        gap_total(books_after(books, e)) == gap_total(books) + if leaves_gap(
            books[e.security_id].last_rpt_seq,
            e.rpt_seq,
        ) {
            1int
        } else {
            0int
        },
{
    let after = books_after(books, e);
    let f = |k: InstrumentId| books[k].gaps as int;
    let g = |k: InstrumentId| after[k].gaps as int;
    assert(after.dom() =~= books.dom());
    sum_over_change(books.dom(), f, g, e.security_id);
}

/// The level that an update of a side speaks of is the entry's, counted from 1;
/// level 0 is read as level 1.
pub proof fn level_zero_is_the_top(ladder: Seq<Level>, e: MdEntry, f: MdEntry)
    requires
        e.price_level == 0,
        f == (MdEntry { price_level: 1, ..e }),
    ensures
        ladder_after(ladder, e) == ladder_after(ladder, f),
{
}

/// A new level goes in at its place with the entry's price, size and orders: the
/// better levels stay, the others move down by one, and all are kept while there
/// is room. One past the end leaves the ladder as it was.
pub proof fn new_levels_go_in_at_their_place(ladder: Seq<Level>, e: MdEntry)
    requires
        e.update_action is New,
        e.price_level >= 1,
        ladder.len() < 10,
    ensures
        ({
            let after = ladder_after(ladder, e);
            let at = e.price_level - 1;
            &&& at <= ladder.len() ==> {
                &&& after.len() == ladder.len() + 1
                &&& after[at].px_raw == e.px_raw
                &&& after[at].size == e.size
                &&& after[at].num_orders == e.num_orders
                &&& forall|i: int| 0 <= i < at ==> #[trigger] after[i] == ladder[i]
                &&& forall|i: int| at < i < after.len() ==> #[trigger] after[i] == ladder[i - 1]
            }
            &&& at > ladder.len() ==> after == ladder
        }),
{
}

/// A new level on a full ladder costs the deepest one: within the ladder it goes
/// in at its place, one level past the end it finds no room, and further down it
/// changes nothing.
pub proof fn new_levels_on_a_full_ladder(ladder: Seq<Level>, e: MdEntry)
    requires
        e.update_action is New,
        e.price_level >= 1,
        ladder.len() == 10,
    ensures
        ({
            let after = ladder_after(ladder, e);
            let at = e.price_level - 1;
            &&& at < 10 ==> {
                &&& after.len() == 10
                &&& after[at].px_raw == e.px_raw
                &&& after[at].size == e.size
                &&& after[at].num_orders == e.num_orders
                &&& forall|i: int| 0 <= i < at ==> #[trigger] after[i] == ladder[i]
                &&& forall|i: int| at < i < 10 ==> #[trigger] after[i] == ladder[i - 1]
            }
            &&& at == 10 ==> after.len() == 9 && forall|i: int|
                0 <= i < 9 ==> #[trigger] after[i] == ladder[i]
            &&& at > 10 ==> after == ladder
        }),
{
}

/// A change or an overlay of an existing level replaces it with the entry's
/// price, size and orders, keeps the depth, and leaves the level at every other
/// place as it was. Of the level after the deepest it makes a new one while there
/// is room; beyond that it changes nothing.
pub proof fn changes_replace_one_level(ladder: Seq<Level>, e: MdEntry)
    requires
        e.update_action is Change || e.update_action is Overlay,
        e.price_level >= 1,
        ladder.len() <= 10,
    ensures
        ({
            let after = ladder_after(ladder, e);
            let at = e.price_level - 1;
            &&& at < ladder.len() ==> after.len() == ladder.len()
            &&& at == ladder.len() && at < 10 ==> after.len() == ladder.len() + 1
            &&& at <= ladder.len() && at < 10 ==> {
                &&& after[at].px_raw == e.px_raw
                &&& after[at].size == e.size
                &&& after[at].num_orders == e.num_orders
                &&& forall|i: int|
                    0 <= i < ladder.len() && i != at ==> #[trigger] after[i] == ladder[i]
            }
            &&& at > ladder.len() || at >= 10 ==> after == ladder
        }),
{
}

/// A deletion takes out one level: the better ones stay, the others move up by
/// one. Of a level that is not there it takes nothing.
pub proof fn deletes_take_out_one_level(ladder: Seq<Level>, e: MdEntry)
    requires
        e.update_action is Delete,
        e.price_level >= 1,
    ensures
        ({
            let after = ladder_after(ladder, e);
            let at = e.price_level - 1;
            &&& at < ladder.len() ==> {
                &&& after.len() == ladder.len() - 1
                &&& forall|i: int| 0 <= i < at ==> #[trigger] after[i] == ladder[i]
                &&& forall|i: int| at <= i < after.len() ==> #[trigger] after[i] == ladder[i + 1]
            }
            &&& at >= ladder.len() ==> after == ladder
        }),
{
}

/// Deleting from a level down keeps exactly the better levels; deleting through
/// keeps none.
pub proof fn range_deletes_keep_the_better_levels(ladder: Seq<Level>, e: MdEntry)
    requires
        e.price_level >= 1,
    ensures
        e.update_action is DeleteFrom ==> ({
            let after = ladder_after(ladder, e);
            let at = e.price_level - 1;
            &&& after.len() == if at < ladder.len() {
                at
            } else {
                ladder.len() as int
            }
            &&& forall|i: int| 0 <= i < after.len() ==> #[trigger] after[i] == ladder[i]
        }),
        e.update_action is DeleteThru ==> ladder_after(ladder, e).len() == 0,
{
}

/// Bids and offers are kept alike: with the sides of the book and of the entry
/// swapped, the outcome is swapped.
pub proof fn sides_are_kept_alike(book: BookState, e: MdEntry, swapped: BookState, f: MdEntry)
    requires
        swapped == (BookState { bids: book.offers, offers: book.bids, ..book }),
        f == (MdEntry {
            entry_type: match e.entry_type {
                MdEntryType::Bid => MdEntryType::Offer,
                MdEntryType::Offer => MdEntryType::Bid,
                MdEntryType::ImpliedBid => MdEntryType::ImpliedOffer,
                MdEntryType::ImpliedOffer => MdEntryType::ImpliedBid,
                MdEntryType::BookReset => MdEntryType::BookReset,
            },
            ..e
        }),
    ensures
        swapped.after(f).bids == book.after(e).offers,
        swapped.after(f).offers == book.after(e).bids,
        swapped.after(f).last_rpt_seq == book.after(e).last_rpt_seq,
        swapped.after(f).gaps == book.after(e).gaps,
        swapped.bbo().bid_px_raw == book.bbo().offer_px_raw,
        swapped.bbo().bid_size == book.bbo().offer_size,
{
}

/// An outright entry updates the ladder of its side.
pub proof fn outright_entries_update_their_side(book: BookState, e: MdEntry)
    ensures
        e.entry_type is Bid ==> book.after(e).bids == ladder_after(book.bids, e),
        e.entry_type is Offer ==> book.after(e).offers == ladder_after(book.offers, e),
{
}

/// Every entry, of whatever type, is the last one seen, and counts a gap exactly
/// when it skips a report number behind the one before it.
pub proof fn every_entry_is_sequenced(book: BookState, e: MdEntry)
    requires
        book.gaps < u64::MAX,
    ensures
        book.after(e).last_rpt_seq == Some(e.rpt_seq),
        book.after(e).gaps == book.gaps + match book.last_rpt_seq {
            Some(last) => if e.rpt_seq > last + 1 {
                1int
            } else {
                0int
            },
            None => 0int,
        },
{
}

/// The best bid and offer are the tops of the ladders; an empty side has no price
/// and no size. Both prices together are there exactly when both sides are.
pub proof fn bbo_shows_the_tops(book: BookState)
    ensures
        book.bids.len() > 0 ==> book.bbo().bid_px_raw == Some(book.bids[0].px_raw)
            && book.bbo().bid_size == book.bids[0].size,
        book.bids.len() == 0 ==> book.bbo().bid_px_raw is None && book.bbo().bid_size == 0,
        book.offers.len() > 0 ==> book.bbo().offer_px_raw == Some(book.offers[0].px_raw)
            && book.bbo().offer_size == book.offers[0].size,
        book.offers.len() == 0 ==> book.bbo().offer_px_raw is None && book.bbo().offer_size == 0,
        book.bids.len() > 0 && book.offers.len() > 0 ==> book.bbo().best() == Some(
            (book.bids[0].px_raw, book.offers[0].px_raw),
        ),
        book.bids.len() == 0 || book.offers.len() == 0 ==> book.bbo().best() is None,
{
}

/// A new book is empty on both sides and has seen no entry and no gap.
pub proof fn new_books_are_empty()
    ensures
        empty_book().bids.len() == 0,
        empty_book().offers.len() == 0,
        empty_book().last_rpt_seq is None,
        empty_book().gaps == 0,
{
}

/// Entries are applied one after the other: a batch does what its front and
/// then its rest do.
pub proof fn batches_join(book: BookState, x: Seq<MdEntry>, y: Seq<MdEntry>, e: MdEntry)
    ensures
        book.after_all(x + y) == book.after_all(x).after_all(y),
        book.after_all(seq![e]) == book.after(e),
    decreases y.len(),
{
    reveal_with_fuel(BookState::after_all, 2);
    assert(seq![e].drop_last() =~= Seq::empty());
    if y.len() == 0 {
        assert(x + y =~= x);
    } else {
        assert((x + y).drop_last() =~= x + y.drop_last());
        batches_join(book, x, y.drop_last(), e);
    }
}

/// An entry of a registered instrument is applied to that instrument's book.
pub proof fn entries_reach_their_book(books: Map<InstrumentId, BookState>, e: MdEntry)
    requires
        books.contains_key(e.security_id),
    ensures
        books_after(books, e)[e.security_id] == books[e.security_id].after(e),
{
}

/// The gap total is the sum of the books' gaps: no books have none, and one more
/// book adds its own.
pub proof fn gap_total_adds_up(
    books: Map<InstrumentId, BookState>,
    id: InstrumentId,
    book: BookState,
)
    requires
        books.dom().finite(),
        !books.contains_key(id),
    ensures
        gap_total(Map::<InstrumentId, BookState>::empty()) == 0,
        gap_total(books.insert(id, book)) == gap_total(books) + book.gaps,
{
    let more = books.insert(id, book);
    let f = |k: InstrumentId| books[k].gaps as int;
    let g = |k: InstrumentId| more[k].gaps as int;
    sum_over_remove(more.dom(), g, id);
    assert(more.dom().remove(id) =~= books.dom());
    sum_over_ext(books.dom(), f, g);
}

} // verus!
