use cme_md_connector::mdp3::enums::{MatchEventIndicator, MdEntryType, MdUpdateAction};
use cme_md_connector::{OrderSide, Side};

#[test]
fn decodes_every_update_action() {
    assert_eq!(MdUpdateAction::from_u8(0), Some(MdUpdateAction::New));
    assert_eq!(MdUpdateAction::from_u8(1), Some(MdUpdateAction::Change));
    assert_eq!(MdUpdateAction::from_u8(2), Some(MdUpdateAction::Delete));
    assert_eq!(MdUpdateAction::from_u8(3), Some(MdUpdateAction::DeleteThru));
    assert_eq!(MdUpdateAction::from_u8(4), Some(MdUpdateAction::DeleteFrom));
    assert_eq!(MdUpdateAction::from_u8(5), Some(MdUpdateAction::Overlay));
}

#[test]
fn rejects_unknown_update_action() {
    assert_eq!(MdUpdateAction::from_u8(6), None);
    assert_eq!(MdUpdateAction::from_u8(255), None);
}

#[test]
fn update_action_numbers_round_trip() {
    for v in 0..=5u8 {
        assert_eq!(MdUpdateAction::from_u8(v).unwrap().as_u8(), v);
    }
}

#[test]
fn decodes_entry_types_and_round_trips_byte() {
    for ty in [
        MdEntryType::Bid,
        MdEntryType::Offer,
        MdEntryType::ImpliedBid,
        MdEntryType::ImpliedOffer,
        MdEntryType::BookReset,
    ] {
        assert_eq!(MdEntryType::from_byte(ty.as_byte()), Some(ty));
    }
}

#[test]
fn entry_types_are_the_ascii_characters_of_the_feed() {
    assert_eq!(MdEntryType::Bid.as_byte(), b'0');
    assert_eq!(MdEntryType::Offer.as_byte(), b'1');
    assert_eq!(MdEntryType::ImpliedBid.as_byte(), b'E');
    assert_eq!(MdEntryType::ImpliedOffer.as_byte(), b'F');
    assert_eq!(MdEntryType::BookReset.as_byte(), b'J');
}

#[test]
fn rejects_unknown_entry_type() {
    assert_eq!(MdEntryType::from_byte(b'Z'), None);
}

#[test]
fn maps_entry_type_to_book_side() {
    assert_eq!(MdEntryType::Bid.side(), Some(Side::Bid));
    assert_eq!(MdEntryType::ImpliedBid.side(), Some(Side::Bid));
    assert_eq!(MdEntryType::Offer.side(), Some(Side::Offer));
    assert_eq!(MdEntryType::ImpliedOffer.side(), Some(Side::Offer));
    assert_eq!(MdEntryType::BookReset.side(), None);
}

#[test]
fn detects_end_of_event_bit() {
    assert!(MatchEventIndicator(0x80).is_end_of_event());
    assert!(MatchEventIndicator(0x81).is_end_of_event());
    assert!(!MatchEventIndicator(0x01).is_end_of_event());
    assert!(!MatchEventIndicator(0x00).is_end_of_event());
}

#[test]
fn opposite_sides_and_signs() {
    assert_eq!(Side::Bid.opposite(), Side::Offer);
    assert_eq!(Side::Offer.opposite().opposite(), Side::Offer);
    assert_eq!(OrderSide::Buy.opposite(), OrderSide::Sell);
    assert_eq!(OrderSide::Sell.opposite(), OrderSide::Buy);
    assert_eq!(OrderSide::Buy.sign(), 1);
    assert_eq!(OrderSide::Sell.sign(), -1);
}
