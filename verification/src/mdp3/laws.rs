//! Decoding undoes encoding.
//!
//! What the encoder writes, the decoder reads back: entry by entry, message by
//! message, and for a whole packet of any number of messages.
use crate::mdp3::book_refresh::{
    entries_of, entry_of, is_refresh, refresh_of, MdEntry, Refresh,
};
use crate::mdp3::encode::{
    entry_block, entry_blocks, refresh_body, refresh_header, refresh_message,
};
use crate::mdp3::enums::{
    entry_type_round_trip, update_action_round_trip, MatchEventIndicator, MdEntryType,
    MdUpdateAction,
};
use crate::mdp3::header::{first_frame, frame_size, frames, Frame, SbeHeader};
use crate::mdp3::packet::PacketHeader;
use crate::wire::{
    from_signed, le_bytes, le_nat, le_round_trip, le_round_trip_bytes, lemma_le_bytes_len, lemma_span_values,
    signed_round_trip, span32, span64,
};
use vstd::prelude::*;

verus! {

/// The entries of one frame; a frame that is no whole incremental refresh has
/// none.
pub open spec fn frame_entries(f: Frame) -> Seq<MdEntry> {
    if is_refresh(f.header, f.body) {
        refresh_of(f.header, f.body).entries
    } else {
        Seq::empty()
    }
}

/// The entries of `fs`, frame after frame.
pub open spec fn all_entries(fs: Seq<Frame>) -> Seq<MdEntry>
    decreases fs.len(),
{
    if fs.len() == 0 {
        Seq::empty()
    } else {
        frame_entries(fs[0]) + all_entries(fs.skip(1))
    }
}

/// The entries of a packet: those of its frames; none when it is too short for
/// a packet header.
pub open spec fn packet_entries(packet: Seq<u8>) -> Seq<MdEntry> {
    if packet.len() < 12 {
        Seq::empty()
    } else {
        all_entries(frames(packet.skip(12)))
    }
}

/// The bytes of `msgs`, each framed as an incremental refresh.
pub open spec fn message_bytes(msgs: Seq<Refresh>) -> Seq<u8>
    decreases msgs.len(),
{
    if msgs.len() == 0 {
        Seq::empty()
    } else {
        refresh_message(msgs[0].transact_time, msgs[0].match_event.0, msgs[0].entries)
            + message_bytes(msgs.skip(1))
    }
}

/// The entries of `msgs`, message after message.
pub open spec fn message_entries(msgs: Seq<Refresh>) -> Seq<MdEntry>
    decreases msgs.len(),
{
    if msgs.len() == 0 {
        Seq::empty()
    } else {
        msgs[0].entries + message_entries(msgs.skip(1))
    }
}

/// The group dimension counts entries in one byte.
pub open spec fn countable(msgs: Seq<Refresh>) -> bool {
    forall|i: int| 0 <= i < msgs.len() ==> #[trigger] msgs[i].entries.len() <= 255
}

/// An unsigned field at `at` of `b` reads back as it was written.
proof fn lemma_field(b: Seq<u8>, at: int, v: nat, width: nat, modulus: nat)
    requires
        modulus == crate::wire::span(width),
        v < modulus,
        0 <= at,
        at + width <= b.len(),
        b.subrange(at, at + width) == le_bytes(v, width),
    ensures
        le_nat(b.subrange(at, at + width)) == v,
{
    le_round_trip(v, width);
}

/// Every entry survives its block: reading the block of an entry gives the
/// entry, whatever bytes follow.
pub proof fn entry_round_trip(e: MdEntry, tail: Seq<u8>)
    ensures
        entry_of(entry_block(e) + tail) == Some(e),
        entry_block(e).len() == 32,
{
    lemma_span_values();
    let px = from_signed(e.px_raw as int, span64());
    let size = from_signed(e.size as int, span32());
    let id = from_signed(e.security_id as int, span32());
    let orders = from_signed(e.num_orders as int, span32());
    signed_round_trip(e.px_raw as int, span64());
    signed_round_trip(e.size as int, span32());
    signed_round_trip(e.security_id as int, span32());
    signed_round_trip(e.num_orders as int, span32());
    lemma_le_bytes_len(px, 8);
    lemma_le_bytes_len(size, 4);
    lemma_le_bytes_len(id, 4);
    lemma_le_bytes_len(e.rpt_seq as nat, 4);
    lemma_le_bytes_len(orders, 4);
    let b = entry_block(e) + tail;
    assert(b.subrange(0, 8) =~= le_bytes(px, 8));
    assert(b.subrange(8, 12) =~= le_bytes(size, 4));
    assert(b.subrange(12, 16) =~= le_bytes(id, 4));
    assert(b.subrange(16, 20) =~= le_bytes(e.rpt_seq as nat, 4));
    assert(b.subrange(20, 24) =~= le_bytes(orders, 4));
    lemma_field(b, 0, px, 8, span64());
    lemma_field(b, 8, size, 4, span32());
    lemma_field(b, 12, id, 4, span32());
    lemma_field(b, 16, e.rpt_seq as nat, 4, span32());
    lemma_field(b, 20, orders, 4, span32());
    assert(b[24] == e.price_level);
    assert(b[25] == e.update_action.code());
    assert(b[26] == e.entry_type.code());
    update_action_round_trip(e.update_action);
    entry_type_round_trip(e.entry_type);
}

/// A group of entry blocks reads back as the entries, whatever bytes follow.
pub proof fn entries_round_trip(entries: Seq<MdEntry>, tail: Seq<u8>)
    ensures
        entries_of(entry_blocks(entries) + tail, 32, entries.len()) == entries,
        entry_blocks(entries).len() == 32 * entries.len(),
    decreases entries.len(),
{
    if entries.len() > 0 {
        let e = entries[0];
        let rest = entries.skip(1);
        let b = entry_blocks(entries) + tail;
        entry_round_trip(e, Seq::empty());
        entries_round_trip(rest, tail);
        assert(b.subrange(0, 32) =~= entry_block(e) + Seq::<u8>::empty());
        assert(b.skip(32) =~= entry_blocks(rest) + tail);
        assert(seq![e] + rest =~= entries);
    } else {
        assert(entries_of(entry_blocks(entries) + tail, 32, 0) =~= entries);
    }
}

/// The body of an encoded message decodes to the message, as long as the group
/// dimension can count its entries.
pub proof fn refresh_round_trip(msg: Refresh)
    requires
        msg.entries.len() <= 255,
    ensures
        is_refresh(
            refresh_header(),
            refresh_body(msg.transact_time, msg.match_event.0, msg.entries),
        ),
        refresh_of(
            refresh_header(),
            refresh_body(msg.transact_time, msg.match_event.0, msg.entries),
        ) == msg,
        refresh_body(msg.transact_time, msg.match_event.0, msg.entries).len() == 14 + 32
            * msg.entries.len(),
{
    lemma_span_values();
    let t = msg.transact_time as nat;
    let h = refresh_header();
    let body = refresh_body(msg.transact_time, msg.match_event.0, msg.entries);
    lemma_le_bytes_len(t, 8);
    lemma_le_bytes_len(32, 2);
    entries_round_trip(msg.entries, Seq::empty());
    assert(body.subrange(0, 8) =~= le_bytes(t, 8));
    lemma_field(body, 0, t, 8, span64());
    assert(body[8] == msg.match_event.0);
    assert(body.subrange(11, 13) =~= le_bytes(32, 2));
    lemma_field(body, 11, 32, 2, 0x1_0000);
    assert(body[13] == msg.entries.len() as u8);
    assert(body.skip(14) =~= entry_blocks(msg.entries) + Seq::<u8>::empty());
    assert(refresh_of(h, body).entries == msg.entries);
}

/// The frame at the front of an encoded message is the whole message.
proof fn encoded_frame_size(msg: Refresh, rest: Seq<u8>)
    requires
        msg.entries.len() <= 255,
    ensures
        ({
            let m = refresh_message(msg.transact_time, msg.match_event.0, msg.entries);
            &&& m.len() >= 10
            &&& frame_size(m + rest) == Some((m.len() - 2) as nat)
            &&& (m + rest).skip(m.len() as int) == rest
        }),
{
    lemma_span_values();
    refresh_round_trip(msg);
    let size = 8 + refresh_body(msg.transact_time, msg.match_event.0, msg.entries).len();
    let m = refresh_message(msg.transact_time, msg.match_event.0, msg.entries);
    let b = m + rest;
    lemma_le_bytes_len(size, 2);
    lemma_le_bytes_len(11, 2);
    lemma_le_bytes_len(46, 2);
    lemma_le_bytes_len(1, 2);
    lemma_le_bytes_len(0, 2);
    assert(b.subrange(0, 2) =~= le_bytes(size, 2));
    lemma_field(b, 0, size, 2, 0x1_0000);
    assert(b.skip(m.len() as int) =~= rest);
}

/// An encoded message is one whole frame, and the frames after it are those of
/// the bytes after it.
pub proof fn frame_round_trip(msg: Refresh, rest: Seq<u8>)
    requires
        msg.entries.len() <= 255,
    ensures
        frames(
            refresh_message(msg.transact_time, msg.match_event.0, msg.entries) + rest,
        ) == seq![
            Frame {
                header: refresh_header(),
                body: refresh_body(msg.transact_time, msg.match_event.0, msg.entries),
            },
        ] + frames(rest),
{
    lemma_span_values();
    refresh_round_trip(msg);
    let body = refresh_body(msg.transact_time, msg.match_event.0, msg.entries);
    let h = refresh_header();
    let size = 8 + body.len();
    let b = refresh_message(msg.transact_time, msg.match_event.0, msg.entries) + rest;
    encoded_frame_size(msg, rest);
    lemma_le_bytes_len(size, 2);
    lemma_le_bytes_len(11, 2);
    lemma_le_bytes_len(46, 2);
    lemma_le_bytes_len(1, 2);
    lemma_le_bytes_len(0, 2);
    let hb = b.subrange(2, 10);
    assert(hb.subrange(0, 2) =~= le_bytes(11, 2));
    assert(hb.subrange(2, 4) =~= le_bytes(46, 2));
    assert(hb.subrange(4, 6) =~= le_bytes(1, 2));
    assert(hb.subrange(6, 8) =~= le_bytes(0, 2));
    lemma_field(hb, 0, 11, 2, 0x1_0000);
    lemma_field(hb, 2, 46, 2, 0x1_0000);
    lemma_field(hb, 4, 1, 2, 0x1_0000);
    lemma_field(hb, 6, 0, 2, 0x1_0000);
    assert(SbeHeader::read(hb) == h);
    assert(b.subrange(10, 2 + size as int) =~= body);
    assert(first_frame(b, size) == Frame { header: h, body });
}

/// The frames of encoded messages are exactly those messages, in order.
proof fn lemma_messages(msgs: Seq<Refresh>)
    requires
        countable(msgs),
    ensures
        frames(message_bytes(msgs)).len() == msgs.len(),
        forall|i: int|
            0 <= i < msgs.len() ==> {
                let f = #[trigger] frames(message_bytes(msgs))[i];
                is_refresh(f.header, f.body) && refresh_of(f.header, f.body) == msgs[i]
            },
        all_entries(frames(message_bytes(msgs))) == message_entries(msgs),
    decreases msgs.len(),
{
    if msgs.len() == 0 {
        assert(frames(message_bytes(msgs)) =~= Seq::empty());
    } else {
        let msg = msgs[0];
        let rest = msgs.skip(1);
        assert(countable(rest)) by {
            assert forall|i: int| 0 <= i < rest.len() implies #[trigger] rest[i].entries.len()
                <= 255 by {
                assert(rest[i] == msgs[i + 1]);
            }
        }
        assert(msgs[0].entries.len() <= 255);
        lemma_messages(rest);
        frame_round_trip(msg, message_bytes(rest));
        refresh_round_trip(msg);
        let fs = frames(message_bytes(msgs));
        assert(fs.skip(1) =~= frames(message_bytes(rest)));
        assert forall|i: int| 0 <= i < msgs.len() implies {
            let f = #[trigger] fs[i];
            is_refresh(f.header, f.body) && refresh_of(f.header, f.body) == msgs[i]
        } by {
            if i > 0 {
                assert(fs[i] == frames(message_bytes(rest))[i - 1]);
                assert(msgs[i] == rest[i - 1]);
            }
        }
    }
}

/// A packet survives the wire: of a packet built from a header and any number
/// of messages, the decoder reads back the header, one whole refresh per
/// message in order, and so all entries in order.
pub proof fn packet_round_trip(header: PacketHeader, msgs: Seq<Refresh>)
    requires
        countable(msgs),
    ensures
        ({
            let packet = header.bytes() + message_bytes(msgs);
            let fs = frames(packet.skip(12));
            &&& packet.len() >= 12
            &&& PacketHeader::read(packet) == header
            &&& fs.len() == msgs.len()
            &&& forall|i: int|
                0 <= i < msgs.len() ==> {
                    &&& is_refresh((#[trigger] fs[i]).header, fs[i].body)
                    &&& refresh_of(fs[i].header, fs[i].body) == msgs[i]
                }
            &&& packet_entries(packet) == message_entries(msgs)
        }),
{
    lemma_span_values();
    let packet = header.bytes() + message_bytes(msgs);
    lemma_le_bytes_len(header.seq_num as nat, 4);
    lemma_le_bytes_len(header.sending_time as nat, 8);
    assert(packet.subrange(0, 4) =~= le_bytes(header.seq_num as nat, 4));
    assert(packet.subrange(4, 12) =~= le_bytes(header.sending_time as nat, 8));
    lemma_field(packet, 0, header.seq_num as nat, 4, span32());
    lemma_field(packet, 4, header.sending_time as nat, 8, span64());
    assert(packet.skip(12) =~= message_bytes(msgs));
    lemma_messages(msgs);
}

/// A builder that was given the messages `msgs` one after another holds
/// `header.bytes() + message_bytes(msgs)`: adding one more message appends
/// exactly its bytes.
pub proof fn message_bytes_append(msgs: Seq<Refresh>, msg: Refresh)
    ensures
        message_bytes(msgs.push(msg)) == message_bytes(msgs) + refresh_message(
            msg.transact_time,
            msg.match_event.0,
            msg.entries,
        ),
    decreases msgs.len(),
{
    reveal_with_fuel(message_bytes, 2);
    if msgs.len() == 0 {
        assert(msgs.push(msg).skip(1) =~= Seq::empty());
        assert(message_bytes(msgs.push(msg)) =~= message_bytes(msgs) + refresh_message(
            msg.transact_time,
            msg.match_event.0,
            msg.entries,
        ));
    } else {
        assert(msgs.push(msg).skip(1) =~= msgs.skip(1).push(msg));
        message_bytes_append(msgs.skip(1), msg);
        assert(message_bytes(msgs.push(msg)) =~= message_bytes(msgs) + refresh_message(
            msg.transact_time,
            msg.match_event.0,
            msg.entries,
        ));
    }
}

/// Whether bytes are whole frames, one after another, and nothing else.
pub open spec fn is_framed(b: Seq<u8>) -> bool
    decreases b.len(),
{
    b.len() == 0 || match frame_size(b) {
        Some(size) => is_framed(b.skip(2 + size as int)),
        None => false,
    }
}

/// Whole frames are read as if nothing followed them: the frames of joined bytes
/// are those of the whole frames in front and those of the rest.
pub proof fn frames_join(a: Seq<u8>, b: Seq<u8>)
    requires
        is_framed(a),
    ensures
        frames(a + b) == frames(a) + frames(b),
    decreases a.len(),
{
    if a.len() == 0 {
        assert(a + b =~= b);
        assert(frames(a) =~= Seq::empty());
        assert(frames(a) + frames(b) =~= frames(b));
    } else {
        let size = frame_size(a)->0;
        let rest = a.skip(2 + size as int);
        assert((a + b).subrange(0, 2) =~= a.subrange(0, 2));
        assert((a + b).subrange(2, 10) =~= a.subrange(2, 10));
        assert((a + b).subrange(10, 2 + size as int) =~= a.subrange(10, 2 + size as int));
        assert((a + b).skip(2 + size as int) =~= rest + b);
        frames_join(rest, b);
        assert(frames(a + b) =~= frames(a) + frames(b));
    }
}

/// A fragment at the end of a packet that is no whole frame adds nothing: the
/// whole frames before it are read as if it were not there.
pub proof fn trailing_fragment_is_ignored(a: Seq<u8>, fragment: Seq<u8>)
    requires
        is_framed(a),
        frame_size(fragment) is None,
    ensures
        frames(a + fragment) == frames(a),
{
    frames_join(a, fragment);
    assert(frames(fragment) =~= Seq::empty());
    assert(frames(a) + frames(fragment) =~= frames(a));
}

/// Encoded messages are whole frames.
pub proof fn messages_are_framed(msgs: Seq<Refresh>)
    requires
        countable(msgs),
    ensures
        is_framed(message_bytes(msgs)),
    decreases msgs.len(),
{
    if msgs.len() > 0 {
        let msg = msgs[0];
        let rest = msgs.skip(1);
        assert(countable(rest)) by {
            assert forall|i: int| 0 <= i < rest.len() implies #[trigger] rest[i].entries.len()
                <= 255 by {
                assert(rest[i] == msgs[i + 1]);
            }
        }
        assert(msgs[0].entries.len() <= 255);
        messages_are_framed(rest);
        encoded_frame_size(msg, message_bytes(rest));
    }
}

/// Entries are read frame by frame: those of joined frames are those of the
/// front followed by those of the rest.
pub proof fn entries_join(x: Seq<Frame>, y: Seq<Frame>)
    ensures
        all_entries(x + y) == all_entries(x) + all_entries(y),
    decreases x.len(),
{
    if x.len() == 0 {
        assert(x + y =~= y);
        assert(all_entries(x) + all_entries(y) =~= all_entries(y));
    } else {
        assert((x + y).skip(1) =~= x.skip(1) + y);
        entries_join(x.skip(1), y);
        assert(all_entries(x + y) =~= all_entries(x) + all_entries(y));
    }
}

/// The entries of one frame: a whole refresh gives its own, anything else gives
/// none.
pub proof fn one_frame_gives_its_own_entries(f: Frame)
    ensures
        is_refresh(f.header, f.body) ==> all_entries(seq![f]) == refresh_of(
            f.header,
            f.body,
        ).entries,
        !is_refresh(f.header, f.body) ==> all_entries(seq![f]).len() == 0,
        f.header.template_id != 46 && f.header.template_id != 32 ==> all_entries(seq![f]).len()
            == 0,
{
    reveal_with_fuel(all_entries, 2);
    assert(seq![f].skip(1) =~= Seq::empty());
    assert(all_entries(seq![f]) =~= frame_entries(f));
}

/// Messages of other templates are skipped: wherever one stands among the frames
/// of a packet, the entries are those of the frames around it.
pub proof fn other_templates_are_skipped(x: Seq<Frame>, other: Frame, y: Seq<Frame>)
    requires
        other.header.template_id != 46,
        other.header.template_id != 32,
    ensures
        all_entries(x + seq![other] + y) == all_entries(x) + all_entries(y),
        all_entries(x + seq![other] + y) == all_entries(x + y),
{
    one_frame_gives_its_own_entries(other);
    entries_join(x + seq![other], y);
    entries_join(x, seq![other]);
    entries_join(x, y);
    assert(all_entries(x) + all_entries(seq![other]) =~= all_entries(x));
}

/// The entries of a packet are those of its whole frames and those of what
/// follows them, whatever stands in the frames.
pub proof fn packets_join(header: Seq<u8>, a: Seq<u8>, b: Seq<u8>)
    requires
        header.len() == 12,
        is_framed(a),
    ensures
        packet_entries(header + a + b) == packet_entries(header + a) + packet_entries(header + b),
        packet_entries(header).len() == 0,
{
    assert((header + a + b).skip(12) =~= a + b);
    assert((header + a).skip(12) =~= a);
    assert((header + b).skip(12) =~= b);
    assert(header.skip(12) =~= Seq::empty());
    assert(frames(header.skip(12)) =~= Seq::empty());
    frames_join(a, b);
    entries_join(frames(a), frames(b));
}

/// A packet too short for its header has no entries; a longer one has the same
/// whatever its header says.
pub proof fn packet_headers_hold_no_entries(h1: Seq<u8>, h2: Seq<u8>, body: Seq<u8>)
    requires
        h1.len() == 12,
        h2.len() == 12,
    ensures
        packet_entries(h1 + body) == packet_entries(h2 + body),
        forall|short: Seq<u8>| short.len() < 12 ==> #[trigger] packet_entries(short).len() == 0,
{
    assert((h1 + body).skip(12) =~= body);
    assert((h2 + body).skip(12) =~= body);
}

/// A frame is its size, its header and its body: bytes so laid out are one whole
/// frame with that header and that body, whatever the template.
pub proof fn frames_are_size_header_body(header: SbeHeader, body: Seq<u8>)
    requires
        8 + body.len() < 0x1_0000,
    ensures
        is_framed(le_bytes(8 + body.len(), 2) + header.bytes() + body),
        frames(le_bytes(8 + body.len(), 2) + header.bytes() + body) == seq![Frame { header, body }],
{
    lemma_span_values();
    let size = 8 + body.len();
    let b = le_bytes(size, 2) + header.bytes() + body;
    lemma_le_bytes_len(size, 2);
    lemma_le_bytes_len(header.block_length as nat, 2);
    lemma_le_bytes_len(header.template_id as nat, 2);
    lemma_le_bytes_len(header.schema_id as nat, 2);
    lemma_le_bytes_len(header.version as nat, 2);
    assert(b.subrange(0, 2) =~= le_bytes(size, 2));
    lemma_field(b, 0, size, 2, 0x1_0000);
    let hb = b.subrange(2, 10);
    assert(hb.subrange(0, 2) =~= le_bytes(header.block_length as nat, 2));
    assert(hb.subrange(2, 4) =~= le_bytes(header.template_id as nat, 2));
    assert(hb.subrange(4, 6) =~= le_bytes(header.schema_id as nat, 2));
    assert(hb.subrange(6, 8) =~= le_bytes(header.version as nat, 2));
    lemma_field(hb, 0, header.block_length as nat, 2, 0x1_0000);
    lemma_field(hb, 2, header.template_id as nat, 2, 0x1_0000);
    lemma_field(hb, 4, header.schema_id as nat, 2, 0x1_0000);
    lemma_field(hb, 6, header.version as nat, 2, 0x1_0000);
    assert(SbeHeader::read(hb) == header);
    assert(b.subrange(10, 2 + size as int) =~= body);
    reveal_with_fuel(is_framed, 2);
    assert(b.skip(2 + size as int) =~= Seq::empty());
    assert(frame_size(b) == Some(size));
    assert(frames(b.skip(2 + size as int)) =~= Seq::empty());
    assert(frames(b) =~= seq![Frame { header, body }]);
}

/// Framing stops where no whole frame follows: at fewer than two bytes, at a size
/// too small for a header, and at a size beyond the bytes that are left.
pub proof fn truncated_frames_end_the_packet(b: Seq<u8>)
    requires
        b.len() < 2 || le_nat(b.subrange(0, 2)) < 8 || b.len() < 2 + le_nat(b.subrange(0, 2)),
    ensures
        frames(b).len() == 0,
{
}

/// The layout of a refresh: transaction time, match event, a root block filled up
/// to the length that the header gives, the width and number of the entry
/// blocks, and the blocks. So laid out, with either book template, with a root of
/// any length and with anything behind the blocks, a message is a whole refresh
/// that says just that.
pub proof fn refreshes_are_read_by_their_layout(
    header: SbeHeader,
    transact_time: u64,
    match_event: u8,
    padding: Seq<u8>,
    stride: u16,
    count: u8,
    blocks: Seq<u8>,
    tail: Seq<u8>,
)
    requires
        header.template_id == 46 || header.template_id == 32,
        header.block_length == 9 + padding.len(),
        stride > 0,
        blocks.len() == stride * count,
    ensures
        ({
            let body = le_bytes(transact_time as nat, 8) + seq![match_event] + padding + le_bytes(
                stride as nat,
                2,
            ) + seq![count] + blocks + tail;
            &&& is_refresh(header, body)
            &&& refresh_of(header, body).transact_time == transact_time
            &&& refresh_of(header, body).match_event == MatchEventIndicator(match_event)
            &&& refresh_of(header, body).entries == entries_of(
                blocks,
                stride as nat,
                count as nat,
            )
        }),
{
    lemma_span_values();
    let t = transact_time as nat;
    let n = header.block_length as int;
    let body = le_bytes(t, 8) + seq![match_event] + padding + le_bytes(stride as nat, 2) + seq![
        count,
    ] + blocks + tail;
    lemma_le_bytes_len(t, 8);
    lemma_le_bytes_len(stride as nat, 2);
    assert(body.subrange(0, 8) =~= le_bytes(t, 8));
    lemma_field(body, 0, t, 8, span64());
    assert(body[8] == match_event);
    assert(body.subrange(n, n + 2) =~= le_bytes(stride as nat, 2));
    lemma_field(body, n, stride as nat, 2, 0x1_0000);
    assert(body[n + 2] == count);
    assert(body.skip(n + 3) =~= blocks + tail);
    entries_ignore_what_follows(blocks, tail, stride as nat, count as nat);
}

/// A message cut off before the end of its blocks is no refresh.
pub proof fn truncated_groups_are_refused(
    header: SbeHeader,
    transact_time: u64,
    match_event: u8,
    padding: Seq<u8>,
    stride: u16,
    count: u8,
    blocks: Seq<u8>,
)
    requires
        header.block_length == 9 + padding.len(),
        stride == 0 || blocks.len() < stride * count || (header.template_id != 46
            && header.template_id != 32),
    ensures
        !is_refresh(
            header,
            le_bytes(transact_time as nat, 8) + seq![match_event] + padding + le_bytes(
                stride as nat,
                2,
            ) + seq![count] + blocks,
        ),
{
    lemma_span_values();
    let t = transact_time as nat;
    let n = header.block_length as int;
    let body = le_bytes(t, 8) + seq![match_event] + padding + le_bytes(stride as nat, 2) + seq![
        count,
    ] + blocks;
    lemma_le_bytes_len(t, 8);
    lemma_le_bytes_len(stride as nat, 2);
    assert(body.subrange(n, n + 2) =~= le_bytes(stride as nat, 2));
    lemma_field(body, n, stride as nat, 2, 0x1_0000);
    assert(body[n + 2] == count);
    assert(body.skip(n + 3) =~= blocks);
}

/// A message too short for its root fields, or for its root block and the group
/// dimension behind it, is no refresh.
pub proof fn short_messages_are_refused(header: SbeHeader, body: Seq<u8>)
    requires
        body.len() < 9 || body.len() < header.block_length + 3,
    ensures
        !is_refresh(header, body),
{
}

/// Bytes behind the blocks of a group do not matter.
proof fn entries_ignore_what_follows(raw: Seq<u8>, tail: Seq<u8>, stride: nat, n: nat)
    requires
        raw.len() == stride * n,
    ensures
        entries_of(raw + tail, stride, n) == entries_of(raw, stride, n),
    decreases n,
{
    if n > 0 && stride >= 27 {
        assert(stride * n == stride * (n - 1) + stride) by (nonlinear_arith)
            requires
                n > 0,
        ;
        assert(stride * (n - 1) >= 0) by (nonlinear_arith)
            requires
                n > 0,
        ;
        let w = stride as int;
        assert((raw + tail).subrange(0, w) =~= raw.subrange(0, w));
        assert((raw + tail).skip(w) =~= raw.skip(w) + tail);
        entries_ignore_what_follows(raw.skip(w), tail, stride, (n - 1) as nat);
    }
}

/// Entry blocks are read one by one: those of `m + n` blocks are those of the
/// first `m` followed by those of the next `n`.
pub proof fn blocks_join(a: Seq<u8>, b: Seq<u8>, stride: nat, m: nat, n: nat)
    requires
        a.len() == stride * m,
        b.len() == stride * n,
    ensures
        entries_of(a + b, stride, m + n) == entries_of(a, stride, m) + entries_of(b, stride, n),
    decreases m,
{
    if m == 0 {
        assert(stride * m == 0) by (nonlinear_arith)
            requires
                m == 0,
        ;
        assert(a + b =~= b);
        assert(entries_of(a, stride, 0) + entries_of(b, stride, n) =~= entries_of(b, stride, n));
    } else if stride < 27 {
        assert(entries_of(a, stride, m) + entries_of(b, stride, n) =~= Seq::empty());
    } else {
        assert(stride * m == stride * (m - 1) + stride) by (nonlinear_arith)
            requires
                m > 0,
        ;
        assert(stride * (m - 1) >= 0) by (nonlinear_arith)
            requires
                m > 0,
        ;
        let w = stride as int;
        assert((a + b).subrange(0, w) =~= a.subrange(0, w));
        assert((a + b).skip(w) =~= a.skip(w) + b);
        blocks_join(a.skip(w), b, stride, (m - 1) as nat, n);
        assert((m + n - 1) as nat == (m - 1) as nat + n);
        assert(entries_of(a + b, stride, m + n) =~= entries_of(a, stride, m) + entries_of(
            b,
            stride,
            n,
        ));
    }
}

/// The entry of one block stands in its bytes: price in 0 to 8, size in 8 to 12,
/// instrument in 12 to 16, report number in 16 to 20, orders in 20 to 24, then
/// level, action and type. A block with an unknown action or type is skipped, as
/// is one narrower than these fields.
pub proof fn blocks_hold_one_entry(block: Seq<u8>)
    ensures
        block.len() < 27 ==> entries_of(block, block.len(), 1).len() == 0,
        block.len() >= 27 && (block[25] > 5 || (block[26] != 0x30 && block[26] != 0x31 && block[26]
            != 0x45 && block[26] != 0x46 && block[26] != 0x4a)) ==> entries_of(
            block,
            block.len(),
            1,
        ).len() == 0,
        block.len() >= 27 && block[25] <= 5 && (block[26] == 0x30 || block[26] == 0x31 || block[26]
            == 0x45 || block[26] == 0x46 || block[26] == 0x4a) ==> ({
            let es = entries_of(block, block.len(), 1);
            let e = es[0];
            &&& es.len() == 1
            &&& from_signed(e.px_raw as int, 0x1_0000_0000_0000_0000) == le_nat(block.subrange(0, 8))
            &&& from_signed(e.size as int, 0x1_0000_0000) == le_nat(block.subrange(8, 12))
            &&& from_signed(e.security_id as int, 0x1_0000_0000) == le_nat(block.subrange(12, 16))
            &&& e.rpt_seq == le_nat(block.subrange(16, 20))
            &&& from_signed(e.num_orders as int, 0x1_0000_0000) == le_nat(block.subrange(20, 24))
            &&& e.price_level == block[24]
            &&& e.update_action == match block[25] {
                0u8 => MdUpdateAction::New,
                1u8 => MdUpdateAction::Change,
                2u8 => MdUpdateAction::Delete,
                3u8 => MdUpdateAction::DeleteThru,
                4u8 => MdUpdateAction::DeleteFrom,
                _ => MdUpdateAction::Overlay,
            }
            &&& e.entry_type == match block[26] {
                0x30u8 => MdEntryType::Bid,
                0x31u8 => MdEntryType::Offer,
                0x45u8 => MdEntryType::ImpliedBid,
                0x46u8 => MdEntryType::ImpliedOffer,
                _ => MdEntryType::BookReset,
            }
        }),
{
    if block.len() >= 27 {
        lemma_span_values();
        reveal_with_fuel(entries_of, 2);
        assert(block.subrange(0, block.len() as int) =~= block);
        le_round_trip_bytes(block.subrange(0, 8));
        le_round_trip_bytes(block.subrange(8, 12));
        le_round_trip_bytes(block.subrange(12, 16));
        le_round_trip_bytes(block.subrange(16, 20));
        le_round_trip_bytes(block.subrange(20, 24));
        update_action_round_trip(MdUpdateAction::New);
        update_action_round_trip(MdUpdateAction::Change);
        update_action_round_trip(MdUpdateAction::Delete);
        update_action_round_trip(MdUpdateAction::DeleteThru);
        update_action_round_trip(MdUpdateAction::DeleteFrom);
        update_action_round_trip(MdUpdateAction::Overlay);
        entry_type_round_trip(MdEntryType::Bid);
        entry_type_round_trip(MdEntryType::Offer);
        entry_type_round_trip(MdEntryType::ImpliedBid);
        entry_type_round_trip(MdEntryType::ImpliedOffer);
        entry_type_round_trip(MdEntryType::BookReset);
    }
}

/// Encoded messages carry the current book template of the schema and a root block
/// of eleven bytes, pad each entry with zeros to 32 bytes, and give their size and
/// the number of their entries as far as those fields hold them.
pub proof fn encoded_messages_are_laid_out(
    transact_time: u64,
    match_event: u8,
    entries: Seq<MdEntry>,
    e: MdEntry,
)
    ensures
        ({
            let m = refresh_message(transact_time, match_event, entries);
            &&& m.len() == 24 + 32 * entries.len()
            &&& m.subrange(0, 2) == le_bytes((22 + 32 * entries.len()) as nat % 0x1_0000, 2)
            &&& m.subrange(2, 10) == le_bytes(11, 2) + le_bytes(46, 2) + le_bytes(1, 2) + le_bytes(
                0,
                2,
            )
            &&& m[18] == match_event
            &&& m[19] == 0 && m[20] == 0
            &&& m[23] == entries.len() % 256
        }),
        forall|i: int| 27 <= i < 32 ==> #[trigger] entry_block(e)[i] == 0,
{
    let m = refresh_message(transact_time, match_event, entries);
    let body = refresh_body(transact_time, match_event, entries);
    lemma_le_bytes_len(transact_time as nat, 8);
    lemma_le_bytes_len(32, 2);
    entries_round_trip(entries, Seq::empty());
    entry_round_trip(e, Seq::empty());
    let size = 8 + body.len();
    lemma_le_bytes_len(size % 0x1_0000, 2);
    lemma_le_bytes_len(11, 2);
    lemma_le_bytes_len(46, 2);
    lemma_le_bytes_len(1, 2);
    lemma_le_bytes_len(0, 2);
    assert(m.subrange(0, 2) =~= le_bytes(size % 0x1_0000, 2));
    assert(m.subrange(2, 10) =~= refresh_header().bytes());
    assert(m[18] == body[8] && m[19] == body[9] && m[20] == body[10] && m[23] == body[13]);
}

/// Headers stand in their bytes: of a packet the sequence number in 0 to 4 and the
/// sending time in 4 to 12, of a message the block length in 0 to 2, the template
/// in 2 to 4, the schema in 4 to 6 and the version in 6 to 8.
pub proof fn headers_stand_in_their_bytes(b: Seq<u8>)
    requires
        b.len() >= 12,
    ensures
        PacketHeader::read(b).seq_num == le_nat(b.subrange(0, 4)),
        PacketHeader::read(b).sending_time == le_nat(b.subrange(4, 12)),
        SbeHeader::read(b).block_length == le_nat(b.subrange(0, 2)),
        SbeHeader::read(b).template_id == le_nat(b.subrange(2, 4)),
        SbeHeader::read(b).schema_id == le_nat(b.subrange(4, 6)),
        SbeHeader::read(b).version == le_nat(b.subrange(6, 8)),
{
    lemma_span_values();
    le_round_trip_bytes(b.subrange(0, 4));
    le_round_trip_bytes(b.subrange(4, 12));
    le_round_trip_bytes(b.subrange(0, 2));
    le_round_trip_bytes(b.subrange(2, 4));
    le_round_trip_bytes(b.subrange(4, 6));
    le_round_trip_bytes(b.subrange(6, 8));
}

/// The root fields are read from the front of a message, and the group from where
/// the header says that the root block ends, even if that is among the root
/// fields.
pub proof fn groups_start_where_the_root_ends(header: SbeHeader, body: Seq<u8>, at: int, stride: nat)
    requires
        header.template_id == 46 || header.template_id == 32,
        at == header.block_length,
        body.len() >= 9,
        body.len() >= at + 3,
        stride == le_nat(body.subrange(at, at + 2)),
        stride > 0,
        body.len() >= at + 3 + stride * body[at + 2],
    ensures
        is_refresh(header, body),
        refresh_of(header, body).transact_time == le_nat(body.subrange(0, 8)),
        refresh_of(header, body).match_event == MatchEventIndicator(body[8]),
        refresh_of(header, body).entries == entries_of(
            body.skip(at + 3),
            stride,
            body[at + 2] as nat,
        ),
{
    lemma_span_values();
    le_round_trip_bytes(body.subrange(0, 8));
}

} // verus!
