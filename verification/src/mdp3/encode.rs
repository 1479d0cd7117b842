//! Wire-faithful MDP 3.0 packet encoder.
//!
//! Synthetic packets are built by exactly this code, over the same description
//! of the wire that the decoder is specified against.
use crate::mdp3::book_refresh::{
    MdEntry, INCREMENTAL_ROOT_BLOCK_LEN, MD_ENTRY_BLOCK_LEN, TEMPLATE_INCREMENTAL_BOOK_46,
};
use crate::mdp3::header::{SbeHeader, CME_SCHEMA_ID, SBE_HEADER_LEN};
use crate::mdp3::packet::PacketHeader;
use crate::wire::{
    from_signed, le_bytes, push_i32, push_i64, push_u16, push_u32, push_u64, span32, span64,
};
use vstd::prelude::*;

verus! {

/// The 27 field bytes of one entry.
pub open spec fn entry_fields(e: MdEntry) -> Seq<u8> {
    le_bytes(from_signed(e.px_raw as int, span64()), 8) + le_bytes(
        from_signed(e.size as int, span32()),
        4,
    ) + le_bytes(from_signed(e.security_id as int, span32()), 4) + le_bytes(e.rpt_seq as nat, 4)
        + le_bytes(from_signed(e.num_orders as int, span32()), 4) + seq![
        e.price_level,
        e.update_action.code(),
        e.entry_type.code(),
    ]
}

/// The 32-byte block of one entry: its fields and five bytes of padding.
pub open spec fn entry_block(e: MdEntry) -> Seq<u8> {
    entry_fields(e) + seq![0u8, 0, 0, 0, 0]
}

/// The blocks of `entries`, one after another.
pub open spec fn entry_blocks(entries: Seq<MdEntry>) -> Seq<u8>
    decreases entries.len(),
{
    if entries.len() == 0 {
        Seq::empty()
    } else {
        entry_block(entries[0]) + entry_blocks(entries.skip(1))
    }
}

/// Root block and group dimension: transaction time, match event, two bytes of
/// padding, the entry width and the low byte of the number of entries.
pub open spec fn refresh_prefix(transact_time: u64, match_event: u8, count: nat) -> Seq<u8> {
    le_bytes(transact_time as nat, 8) + seq![match_event, 0u8, 0u8] + le_bytes(32, 2) + seq![
        (count % 256) as u8,
    ]
}

/// The body of an incremental-refresh message.
pub open spec fn refresh_body(
    transact_time: u64,
    match_event: u8,
    entries: Seq<MdEntry>,
) -> Seq<u8> {
    refresh_prefix(transact_time, match_event, entries.len()) + entry_blocks(entries)
}

/// The SBE header that the encoder puts before an incremental refresh.
pub open spec fn refresh_header() -> SbeHeader {
    SbeHeader { block_length: 11, template_id: 46, schema_id: 1, version: 0 }
}

/// One framed incremental-refresh message: the low two bytes of its size, its
/// header and its body.
pub open spec fn refresh_message(
    transact_time: u64,
    match_event: u8,
    entries: Seq<MdEntry>,
) -> Seq<u8> {
    let body = refresh_body(transact_time, match_event, entries);
    le_bytes((8 + body.len()) % 0x1_0000, 2) + refresh_header().bytes() + body
}

/// Appending one entry appends its block.
proof fn lemma_entry_blocks_push(entries: Seq<MdEntry>, e: MdEntry)
    ensures
        entry_blocks(entries.push(e)) == entry_blocks(entries) + entry_block(e),
    decreases entries.len(),
{
    if entries.len() == 0 {
        reveal_with_fuel(entry_blocks, 2);
        assert(entries.push(e).skip(1) =~= Seq::empty());
        assert(entry_blocks(entries.push(e)) =~= entry_block(e));
        assert(entry_blocks(entries) + entry_block(e) =~= entry_block(e));
    } else {
        assert(entries.push(e).skip(1) =~= entries.skip(1).push(e));
        lemma_entry_blocks_push(entries.skip(1), e);
        assert(entry_blocks(entries.push(e)) =~= entry_blocks(entries) + entry_block(e));
    }
}

/// Accumulates a single UDP payload: the 12-byte packet header followed by one
/// or more framed SBE messages.
pub struct PacketBuilder {
    buf: Vec<u8>,
}

impl View for PacketBuilder {
    type V = Seq<u8>;

    /// The bytes accumulated so far.
    closed spec fn view(&self) -> Seq<u8> {
        self.buf@
    }
}

impl PacketBuilder {
    /// Start a packet with the given sequence number and sending time (ns).
    pub fn new(seq: u32, sending_time: u64) -> (b: PacketBuilder)
        ensures
            b@ == (PacketHeader { seq_num: seq, sending_time }).bytes(),
    {
        let mut buf: Vec<u8> = Vec::with_capacity(256);
        push_u32(&mut buf, seq);
        push_u64(&mut buf, sending_time);
        assert(buf@ =~= (PacketHeader { seq_num: seq, sending_time }).bytes());
        PacketBuilder { buf }
    }

    /// Append an `MDIncrementalRefreshBook` (template 46) message.
    pub fn add_incremental_refresh(
        &mut self,
        transact_time: u64,
        match_event: u8,
        entries: &[MdEntry],
    ) -> (r: &mut PacketBuilder)
        ensures
            r@ == old(self)@ + refresh_message(transact_time, match_event, entries@),
            *final(self) == *final(r),
    {
        let ghost start = self.buf@;
        // Build the SBE message body: root block + group dimension + entries.
        let mut body: Vec<u8> = Vec::new();
        push_u64(&mut body, transact_time);
        body.push(match_event);
        body.push(0);
        body.push(0);
        push_u16(&mut body, MD_ENTRY_BLOCK_LEN);
        body.push((entries.len() % 256) as u8);
        let ghost prefix = refresh_prefix(transact_time, match_event, entries@.len());
        assert(body@ =~= prefix);
        let mut i: usize = 0;
        assert(body@ =~= prefix + entry_blocks(entries@.take(0)));
        while i < entries.len()
            invariant
                i <= entries@.len(),
                body@ == prefix + entry_blocks(entries@.take(i as int)),
            decreases entries@.len() - i,
        {
            encode_entry(&mut body, &entries[i]);
            proof {
                lemma_entry_blocks_push(entries@.take(i as int), entries@[i as int]);
                assert(entries@.take(i as int).push(entries@[i as int]) =~= entries@.take(i + 1));
                assert(body@ =~= prefix + entry_blocks(entries@.take(i + 1)));
            }
            i = i + 1;
        }
        assert(entries@.take(i as int) =~= entries@);

        // Frame: u16 MessageSize | SBE header | body.
        let sbe = SbeHeader::new(
            INCREMENTAL_ROOT_BLOCK_LEN,
            TEMPLATE_INCREMENTAL_BOOK_46,
            CME_SCHEMA_ID,
            0,
        );
        let size: u16 = ((SBE_HEADER_LEN + body.len() % 0x1_0000) % 0x1_0000) as u16;
        push_u16(&mut self.buf, size);
        sbe.write(&mut self.buf);
        self.buf.extend_from_slice(body.as_slice());
        assert(size as nat == (8 + body@.len()) % 0x1_0000);
        assert(self.buf@ =~= start + refresh_message(transact_time, match_event, entries@));
        self
    }

    /// Consume the builder and yield the full packet bytes.
    pub fn finish(self) -> (bytes: Vec<u8>)
        ensures
            bytes@ == self@,
    {
        self.buf
    }

    /// Borrow the bytes accumulated so far.
    pub fn as_bytes(&self) -> (bytes: &[u8])
        ensures
            bytes@ == self@,
    {
        self.buf.as_slice()
    }
}

/// Encode one `NoMDEntries` entry (27 field bytes + 5 trailing pad = 32).
fn encode_entry(out: &mut Vec<u8>, e: &MdEntry)
    ensures
        final(out)@ == old(out)@ + entry_block(*e),
{
    let ghost start = out@;
    push_i64(out, e.px_raw);
    push_i32(out, e.size);
    push_i32(out, e.security_id);
    push_u32(out, e.rpt_seq);
    push_i32(out, e.num_orders);
    out.push(e.price_level);
    out.push(e.update_action.as_u8());
    out.push(e.entry_type.as_byte());
    assert(out@ =~= start + entry_fields(*e));
    out.push(0);
    out.push(0);
    out.push(0);
    out.push(0);
    out.push(0);
    assert(out@ =~= start + entry_block(*e));
}

} // verus!
