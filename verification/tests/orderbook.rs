use cme_md_connector::mdp3::book_refresh::MdEntry;
use cme_md_connector::mdp3::enums::{MdEntryType, MdUpdateAction};
use cme_md_connector::orderbook::{Bbo, InstrumentBook, OrderBook, MAX_DEPTH};
use cme_md_connector::{Side, PRICE9_SCALE};

fn price9_to_f64(raw: i64) -> f64 {
    raw as f64 / PRICE9_SCALE as f64
}

fn f64_to_price9(px: f64) -> i64 {
    (px * PRICE9_SCALE as f64).round() as i64
}

fn entry(
    action: MdUpdateAction,
    ty: MdEntryType,
    level: u8,
    px_raw: i64,
    size: i32,
    rpt_seq: u32,
) -> MdEntry {
    MdEntry {
        security_id: 1,
        rpt_seq,
        px_raw,
        size,
        num_orders: 1,
        price_level: level,
        update_action: action,
        entry_type: ty,
    }
}

#[test]
fn new_entries_set_the_bbo() {
    let mut b = InstrumentBook::new();
    b.apply(&entry(MdUpdateAction::New, MdEntryType::Bid, 1, 100, 5, 1));
    b.apply(&entry(MdUpdateAction::New, MdEntryType::Offer, 1, 101, 7, 2));
    let bbo = b.bbo();
    assert_eq!(bbo.bid_px_raw, Some(100));
    assert_eq!(bbo.bid_size, 5);
    assert_eq!(bbo.offer_px_raw, Some(101));
    assert_eq!(bbo.offer_size, 7);
}

#[test]
fn new_inserts_shift_deeper_levels_down() {
    let mut b = InstrumentBook::new();
    // Insert top bid 100, then a new better bid 101 at level 1 pushes 100 to level 2.
    b.apply(&entry(MdUpdateAction::New, MdEntryType::Bid, 1, 100, 5, 1));
    b.apply(&entry(MdUpdateAction::New, MdEntryType::Bid, 1, 101, 6, 2));
    assert_eq!(b.bbo().bid_px_raw, Some(101));
    assert_eq!(b.depth(Side::Bid), 2);
}

#[test]
fn change_updates_size_at_a_level() {
    let mut b = InstrumentBook::new();
    b.apply(&entry(MdUpdateAction::New, MdEntryType::Bid, 1, 100, 5, 1));
    b.apply(&entry(MdUpdateAction::Change, MdEntryType::Bid, 1, 100, 9, 2));
    assert_eq!(b.bbo().bid_size, 9);
    assert_eq!(b.depth(Side::Bid), 1);
}

#[test]
fn delete_removes_a_level_and_shifts_up() {
    let mut b = InstrumentBook::new();
    b.apply(&entry(MdUpdateAction::New, MdEntryType::Bid, 1, 101, 6, 1));
    b.apply(&entry(MdUpdateAction::New, MdEntryType::Bid, 2, 100, 5, 2));
    // Delete the top level -> the deeper level becomes the top.
    b.apply(&entry(MdUpdateAction::Delete, MdEntryType::Bid, 1, 101, 6, 3));
    assert_eq!(b.bbo().bid_px_raw, Some(100));
    assert_eq!(b.depth(Side::Bid), 1);
}

#[test]
fn delete_thru_clears_the_side() {
    let mut b = InstrumentBook::new();
    b.apply(&entry(MdUpdateAction::New, MdEntryType::Bid, 1, 101, 6, 1));
    b.apply(&entry(MdUpdateAction::New, MdEntryType::Bid, 2, 100, 5, 2));
    b.apply(&entry(MdUpdateAction::DeleteThru, MdEntryType::Bid, 1, 0, 0, 3));
    assert_eq!(b.depth(Side::Bid), 0);
    assert_eq!(b.bbo().bid_px_raw, None);
}

#[test]
fn delete_from_truncates_from_a_level_down() {
    let mut b = InstrumentBook::new();
    b.apply(&entry(MdUpdateAction::New, MdEntryType::Bid, 1, 102, 6, 1));
    b.apply(&entry(MdUpdateAction::New, MdEntryType::Bid, 2, 101, 5, 2));
    b.apply(&entry(MdUpdateAction::New, MdEntryType::Bid, 3, 100, 4, 3));
    // Delete from level 2 down -> only the top level remains.
    b.apply(&entry(MdUpdateAction::DeleteFrom, MdEntryType::Bid, 2, 0, 0, 4));
    assert_eq!(b.depth(Side::Bid), 1);
    assert_eq!(b.bbo().bid_px_raw, Some(102));
}

#[test]
fn overlay_replaces_a_level() {
    let mut b = InstrumentBook::new();
    b.apply(&entry(MdUpdateAction::New, MdEntryType::Offer, 1, 101, 7, 1));
    b.apply(&entry(MdUpdateAction::Overlay, MdEntryType::Offer, 1, 102, 3, 2));
    assert_eq!(b.bbo().offer_px_raw, Some(102));
    assert_eq!(b.bbo().offer_size, 3);
}

#[test]
fn book_reset_clears_both_sides() {
    let mut b = InstrumentBook::new();
    b.apply(&entry(MdUpdateAction::New, MdEntryType::Bid, 1, 100, 5, 1));
    b.apply(&entry(MdUpdateAction::New, MdEntryType::Offer, 1, 101, 7, 2));
    b.apply(&entry(MdUpdateAction::New, MdEntryType::BookReset, 1, 0, 0, 3));
    assert_eq!(b.bbo(), Bbo::default());
}

#[test]
fn implied_entries_are_ignored() {
    let mut b = InstrumentBook::new();
    b.apply(&entry(MdUpdateAction::New, MdEntryType::ImpliedBid, 1, 100, 5, 1));
    assert_eq!(b.depth(Side::Bid), 0);
}

#[test]
fn detects_rpt_seq_gaps() {
    let mut b = InstrumentBook::new();
    b.apply(&entry(MdUpdateAction::New, MdEntryType::Bid, 1, 100, 5, 1));
    b.apply(&entry(MdUpdateAction::New, MdEntryType::Bid, 2, 99, 5, 2));
    // Jump from 2 to 4: one gap.
    b.apply(&entry(MdUpdateAction::New, MdEntryType::Bid, 3, 98, 5, 4));
    assert_eq!(b.gaps(), 1);
}

#[test]
fn mid_price_is_average_of_touch() {
    let bbo = Bbo {
        bid_px_raw: Some(f64_to_price9(100.0)),
        bid_size: 1,
        offer_px_raw: Some(f64_to_price9(102.0)),
        offer_size: 1,
    };
    let mid = bbo
        .touch()
        .map(|(b, o)| (price9_to_f64(b) + price9_to_f64(o)) / 2.0);
    assert_eq!(mid, Some(101.0));
}

#[test]
fn order_book_routes_by_security_id() {
    let mut ob = OrderBook::with_instruments(&[1, 2]);
    let mut e = entry(MdUpdateAction::New, MdEntryType::Bid, 1, 100, 5, 1);
    e.security_id = 2;
    let bbo = ob.apply(&e).expect("instrument 2 is registered");
    assert_eq!(bbo.bid_px_raw, Some(100));
    // Instrument 1 is untouched.
    assert_eq!(ob.book(1).unwrap().bbo(), Bbo::default());
}

#[test]
fn order_book_ignores_unregistered_instrument() {
    let mut ob = OrderBook::with_instruments(&[1]);
    let mut e = entry(MdUpdateAction::New, MdEntryType::Bid, 1, 100, 5, 1);
    e.security_id = 99;
    assert!(ob.apply(&e).is_none());
}

fn full_bids() -> InstrumentBook {
    let mut b = InstrumentBook::new();
    for i in 0..MAX_DEPTH as u32 {
        let px = 100 - i64::from(i);
        b.apply(&entry(MdUpdateAction::New, MdEntryType::Bid, i as u8 + 1, px, 5, i + 1));
    }
    b
}

/// The ladder of bids, read by deleting it from the top.
fn drain_bids(b: &mut InstrumentBook) -> Vec<i64> {
    let mut out = Vec::new();
    while let Some(px) = b.bbo().bid_px_raw {
        out.push(px);
        b.apply(&entry(MdUpdateAction::Delete, MdEntryType::Bid, 1, 0, 0, 0));
    }
    out
}

#[test]
fn a_full_ladder_drops_its_deepest_level_for_a_new_one() {
    let mut b = full_bids();
    assert_eq!(b.depth(Side::Bid), MAX_DEPTH);
    b.apply(&entry(MdUpdateAction::New, MdEntryType::Bid, 3, 77, 5, 11));
    assert_eq!(b.depth(Side::Bid), MAX_DEPTH);
    assert_eq!(drain_bids(&mut b), vec![100, 99, 77, 98, 97, 96, 95, 94, 93, 92]);
}

#[test]
fn a_new_level_past_a_full_ladder_still_drops_the_deepest() {
    let mut b = full_bids();
    b.apply(&entry(MdUpdateAction::New, MdEntryType::Bid, 11, 77, 5, 11));
    assert_eq!(drain_bids(&mut b), vec![100, 99, 98, 97, 96, 95, 94, 93, 92]);
    let mut c = full_bids();
    c.apply(&entry(MdUpdateAction::New, MdEntryType::Bid, 12, 77, 5, 11));
    assert_eq!(c.depth(Side::Bid), MAX_DEPTH);
}

#[test]
fn new_past_the_end_is_ignored_and_level_zero_is_the_top() {
    let mut b = InstrumentBook::new();
    b.apply(&entry(MdUpdateAction::New, MdEntryType::Offer, 2, 105, 5, 1));
    assert_eq!(b.depth(Side::Offer), 0);
    b.apply(&entry(MdUpdateAction::New, MdEntryType::Offer, 0, 104, 5, 2));
    assert_eq!(b.bbo().offer_px_raw, Some(104));
}

#[test]
fn change_appends_the_next_level_while_there_is_room() {
    let mut b = InstrumentBook::new();
    b.apply(&entry(MdUpdateAction::Change, MdEntryType::Bid, 1, 100, 5, 1));
    b.apply(&entry(MdUpdateAction::Overlay, MdEntryType::Bid, 2, 99, 5, 2));
    assert_eq!(b.depth(Side::Bid), 2);
    b.apply(&entry(MdUpdateAction::Change, MdEntryType::Bid, 4, 97, 5, 3));
    assert_eq!(b.depth(Side::Bid), 2);
    let mut full = full_bids();
    full.apply(&entry(MdUpdateAction::Change, MdEntryType::Bid, 11, 1, 5, 11));
    assert_eq!(full.depth(Side::Bid), MAX_DEPTH);
}

#[test]
fn deletes_past_the_end_change_nothing() {
    let mut b = InstrumentBook::new();
    b.apply(&entry(MdUpdateAction::New, MdEntryType::Bid, 1, 100, 5, 1));
    b.apply(&entry(MdUpdateAction::Delete, MdEntryType::Bid, 2, 0, 0, 2));
    b.apply(&entry(MdUpdateAction::DeleteFrom, MdEntryType::Bid, 2, 0, 0, 3));
    assert_eq!(b.depth(Side::Bid), 1);
    b.apply(&entry(MdUpdateAction::DeleteFrom, MdEntryType::Bid, 1, 0, 0, 4));
    assert_eq!(b.depth(Side::Bid), 0);
}

#[test]
fn delete_gives_back_the_ladder_before_new() {
    let mut b = InstrumentBook::new();
    for i in 0..3u8 {
        b.apply(&entry(MdUpdateAction::New, MdEntryType::Bid, i + 1, 100 - i64::from(i), 5, 1));
    }
    b.apply(&entry(MdUpdateAction::New, MdEntryType::Bid, 2, 55, 5, 2));
    b.apply(&entry(MdUpdateAction::Delete, MdEntryType::Bid, 2, 0, 0, 3));
    assert_eq!(drain_bids(&mut b), vec![100, 99, 98]);
}

#[test]
fn gaps_are_counted_once_per_jump_and_across_instruments() {
    let mut ob = OrderBook::with_instruments(&[1, 2]);
    let mut e = entry(MdUpdateAction::New, MdEntryType::ImpliedBid, 1, 100, 5, 900);
    assert!(ob.apply(&e).is_some());
    assert_eq!(ob.total_gaps(), 0);
    e.rpt_seq = 1000;
    ob.apply(&e);
    e.rpt_seq = 5;
    ob.apply(&e);
    e.security_id = 2;
    ob.apply(&e);
    e.rpt_seq = 7;
    ob.apply(&e);
    assert_eq!(ob.book(1).unwrap().gaps(), 1);
    assert_eq!(ob.book(2).unwrap().gaps(), 1);
    assert_eq!(ob.total_gaps(), 2);
    assert_eq!(OrderBook::default().total_gaps(), 0);
}

#[test]
fn a_one_sided_book_has_no_touch() {
    let mut b = InstrumentBook::default();
    assert_eq!(b.bbo().touch(), None);
    b.apply(&entry(MdUpdateAction::New, MdEntryType::Bid, 1, 100, 5, 1));
    assert_eq!(b.bbo().touch(), None);
    b.apply(&entry(MdUpdateAction::New, MdEntryType::Offer, 1, 101, 5, 2));
    assert_eq!(b.bbo().touch(), Some((100, 101)));
    assert!(OrderBook::with_instruments(&[1]).book(2).is_none());
}

#[test]
fn a_repeat_of_the_largest_report_number_is_no_gap() {
    let mut b = InstrumentBook::new();
    let e = entry(MdUpdateAction::New, MdEntryType::Bid, 1, 100, 5, u32::MAX);
    b.apply(&e);
    b.apply(&MdEntry {
        update_action: MdUpdateAction::Change,
        size: 9,
        ..e
    });
    assert_eq!(b.gaps(), 0);
    assert_eq!(b.bbo().bid_size, 9);
    // An earlier number is none either; the jump back up to the largest is one.
    b.apply(&entry(MdUpdateAction::Change, MdEntryType::Bid, 1, 100, 5, 3));
    assert_eq!(b.gaps(), 0);
    b.apply(&e);
    assert_eq!(b.gaps(), 1);
}
