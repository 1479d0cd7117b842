//! CME binary packet header: a 12-byte little-endian prefix on every UDP payload.
use crate::wire::{le_bytes, le_nat, read_u32, read_u64};
use vstd::prelude::*;

verus! {

/// Length of the CME binary packet header in bytes.
pub const PACKET_HEADER_LEN: usize = 12;

/// The 12-byte CME binary packet header that prefixes every UDP datagram.
///
/// `MsgSeqNum` is the per-channel+feed packet sequence number (used for
/// feed-level gap detection); `SendingTime` is nanoseconds since the Unix epoch.
#[derive(Debug, Clone, Copy, PartialEq, Eq, Structural)]
pub struct PacketHeader {
    pub seq_num: u32,
    pub sending_time: u64,
}

impl PacketHeader {
    /// The header that the first twelve bytes of `b` hold.
    pub open spec fn read(b: Seq<u8>) -> PacketHeader {
        PacketHeader {
            seq_num: le_nat(b.subrange(0, 4)) as u32,
            sending_time: le_nat(b.subrange(4, 12)) as u64,
        }
    }

    /// The twelve bytes of this header.
    pub open spec fn bytes(self) -> Seq<u8> {
        le_bytes(self.seq_num as nat, 4) + le_bytes(self.sending_time as nat, 8)
    }

    /// Parse the packet header from the front of `buf`, returning the header and
    /// the remaining bytes (the framed SBE messages). Returns `None` if `buf` is
    /// too short to contain a header.
    pub fn parse(buf: &[u8]) -> (r: Option<(PacketHeader, &[u8])>)
        ensures
            r is Some <==> buf@.len() >= 12,
            r matches Some((h, body)) ==> h == PacketHeader::read(buf@) && body@ == buf@.skip(12),
    {
        let (seq_num, b1) = match read_u32(buf) {
            Some(x) => x,
            None => return None,
        };
        let (sending_time, body) = match read_u64(b1) {
            Some(x) => x,
            None => return None,
        };
        assert(b1@.subrange(0, 8) =~= buf@.subrange(4, 12));
        assert(body@ =~= buf@.skip(12));
        Some((PacketHeader { seq_num, sending_time }, body))
    }

    /// Per-channel+feed packet sequence number.
    pub fn seq_num(&self) -> (v: u32)
        ensures
            v == self.seq_num,
    {
        self.seq_num
    }

    /// Sending time, nanoseconds since the Unix epoch.
    pub fn sending_time(&self) -> (v: u64)
        ensures
            v == self.sending_time,
    {
        self.sending_time
    }
}

} // verus!
