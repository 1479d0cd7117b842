//! MDP 3.0 enumerations used to build the book.
use crate::Side;
use vstd::prelude::*;

verus! {

/// `MDUpdateAction` (tag 279): how a price-level entry mutates the book.
#[derive(Debug, Clone, Copy, PartialEq, Eq, Structural)]
pub enum MdUpdateAction {
    New,
    Change,
    Delete,
    DeleteThru,
    DeleteFrom,
    Overlay,
}

impl MdUpdateAction {
    /// The on-wire number of this action.
    pub open spec fn code(self) -> u8 {
        match self {
            MdUpdateAction::New => 0,
            MdUpdateAction::Change => 1,
            MdUpdateAction::Delete => 2,
            MdUpdateAction::DeleteThru => 3,
            MdUpdateAction::DeleteFrom => 4,
            MdUpdateAction::Overlay => 5,
        }
    }

    /// The action with on-wire number `v`, if there is one.
    pub open spec fn decoded(v: u8) -> Option<MdUpdateAction> {
        if exists|a: MdUpdateAction| a.code() == v {
            Some(choose|a: MdUpdateAction| a.code() == v)
        } else {
            None
        }
    }

    /// Decode from the on-wire `u8`; `None` for unknown values.
    pub fn from_u8(v: u8) -> (r: Option<MdUpdateAction>)
        ensures
            r == MdUpdateAction::decoded(v),
            r is Some <==> v <= 5,
            r matches Some(a) ==> a.code() == v,
    {
        let r = match v {
            0 => Some(MdUpdateAction::New),
            1 => Some(MdUpdateAction::Change),
            2 => Some(MdUpdateAction::Delete),
            3 => Some(MdUpdateAction::DeleteThru),
            4 => Some(MdUpdateAction::DeleteFrom),
            5 => Some(MdUpdateAction::Overlay),
            _ => None,
        };
        proof {
            if let Some(a) = r {
                update_action_round_trip(a);
            }
        }
        r
    }

    /// On-wire number for this action.
    pub fn as_u8(self) -> (v: u8)
        ensures
            v == self.code(),
    {
        match self {
            MdUpdateAction::New => 0,
            MdUpdateAction::Change => 1,
            MdUpdateAction::Delete => 2,
            MdUpdateAction::DeleteThru => 3,
            MdUpdateAction::DeleteFrom => 4,
            MdUpdateAction::Overlay => 5,
        }
    }
}

/// Decoding the number of an action gives the action back.
pub proof fn update_action_round_trip(a: MdUpdateAction)
    ensures
        MdUpdateAction::decoded(a.code()) == Some(a),
{
    let b = choose|b: MdUpdateAction| b.code() == a.code();
    assert(a.code() == a.code());
    assert(b.code() == a.code());
}

/// `MDEntryType` (tag 269): which book (side / implied / reset) an entry targets.
#[derive(Debug, Clone, Copy, PartialEq, Eq, Structural)]
pub enum MdEntryType {
    Bid,
    Offer,
    ImpliedBid,
    ImpliedOffer,
    BookReset,
}

impl MdEntryType {
    /// The on-wire ASCII byte of this entry type: '0', '1', 'E', 'F' or 'J'.
    pub open spec fn code(self) -> u8 {
        match self {
            MdEntryType::Bid => 0x30,
            MdEntryType::Offer => 0x31,
            MdEntryType::ImpliedBid => 0x45,
            MdEntryType::ImpliedOffer => 0x46,
            MdEntryType::BookReset => 0x4a,
        }
    }

    /// The entry type with on-wire byte `b`, if there is one.
    pub open spec fn decoded(b: u8) -> Option<MdEntryType> {
        if exists|t: MdEntryType| t.code() == b {
            Some(choose|t: MdEntryType| t.code() == b)
        } else {
            None
        }
    }

    /// Decode from the on-wire ASCII byte; `None` for unrecognised types.
    pub fn from_byte(b: u8) -> (r: Option<MdEntryType>)
        ensures
            r == MdEntryType::decoded(b),
            r is Some <==> (b == 0x30 || b == 0x31 || b == 0x45 || b == 0x46 || b == 0x4a),
            r matches Some(t) ==> t.code() == b,
    {
        let r = match b {
            0x30 => Some(MdEntryType::Bid),
            0x31 => Some(MdEntryType::Offer),
            0x45 => Some(MdEntryType::ImpliedBid),
            0x46 => Some(MdEntryType::ImpliedOffer),
            0x4a => Some(MdEntryType::BookReset),
            _ => None,
        };
        proof {
            if let Some(t) = r {
                entry_type_round_trip(t);
            }
        }
        r
    }

    /// On-wire ASCII byte for this entry type.
    pub fn as_byte(self) -> (b: u8)
        ensures
            b == self.code(),
    {
        match self {
            MdEntryType::Bid => 0x30,
            MdEntryType::Offer => 0x31,
            MdEntryType::ImpliedBid => 0x45,
            MdEntryType::ImpliedOffer => 0x46,
            MdEntryType::BookReset => 0x4a,
        }
    }

    /// The book side this entry belongs to, if any (`BookReset` has none).
    pub fn side(self) -> (s: Option<Side>)
        ensures
            s == Some(Side::Bid) <==> self is Bid || self is ImpliedBid,
            s == Some(Side::Offer) <==> self is Offer || self is ImpliedOffer,
            s is None <==> self is BookReset,
    {
        match self {
            MdEntryType::Bid | MdEntryType::ImpliedBid => Some(Side::Bid),
            MdEntryType::Offer | MdEntryType::ImpliedOffer => Some(Side::Offer),
            MdEntryType::BookReset => None,
        }
    }
}

/// Decoding the byte of an entry type gives the entry type back.
pub proof fn entry_type_round_trip(t: MdEntryType)
    ensures
        MdEntryType::decoded(t.code()) == Some(t),
{
    let u = choose|u: MdEntryType| u.code() == t.code();
    assert(t.code() == t.code());
    assert(u.code() == t.code());
}

/// `MatchEventIndicator` (tag 5799) bitset carried in the message root block.
#[derive(Debug, Clone, Copy, PartialEq, Eq, Structural)]
pub struct MatchEventIndicator(pub u8);

impl MatchEventIndicator {
    /// End-of-event bit (0x80): the book is consistent and the BBO may be
    /// published once this is set on the last message of a matching event.
    pub const END_OF_EVENT: u8 = 0x80;

    /// Whether this message ends the matching event: its top bit is set.
    pub fn is_end_of_event(self) -> (b: bool)
        ensures
            b <==> self.0 >= 128,
    {
        let bits: u8 = self.0;
        assert(bits & 0x80 != 0 <==> bits >= 128) by (bit_vector);
        bits & Self::END_OF_EVENT != 0
    }
}

} // verus!
