//! SBE message header and intra-packet message framing.
//!
//! After the 12-byte packet header, a UDP payload carries one or more SBE
//! messages, each framed as `u16 MessageSize` followed by `MessageSize` bytes
//! that begin with the 8-byte SBE message header.
use crate::wire::{le_bytes, le_nat, read_u16, u16_field};
use vstd::prelude::*;
use vstd::slice::slice_subrange;

verus! {

/// Length of the SBE message header in bytes.
pub const SBE_HEADER_LEN: usize = 8;

/// Length of the `MessageSize` framing prefix in bytes.
pub const MSG_SIZE_PREFIX_LEN: usize = 2;

/// CME MDP 3.0 SBE schema id.
pub const CME_SCHEMA_ID: u16 = 1;

/// The 8-byte SBE message header preceding each message's root block.
#[derive(Debug, Clone, Copy, PartialEq, Eq, Structural)]
pub struct SbeHeader {
    pub block_length: u16,
    pub template_id: u16,
    pub schema_id: u16,
    pub version: u16,
}

impl SbeHeader {
    /// The header that the first eight bytes of `b` hold.
    pub open spec fn read(b: Seq<u8>) -> SbeHeader {
        SbeHeader {
            block_length: le_nat(b.subrange(0, 2)) as u16,
            template_id: le_nat(b.subrange(2, 4)) as u16,
            schema_id: le_nat(b.subrange(4, 6)) as u16,
            version: le_nat(b.subrange(6, 8)) as u16,
        }
    }

    /// The eight bytes of this header.
    pub open spec fn bytes(self) -> Seq<u8> {
        le_bytes(self.block_length as nat, 2) + le_bytes(self.template_id as nat, 2) + le_bytes(
            self.schema_id as nat,
            2,
        ) + le_bytes(self.version as nat, 2)
    }

    /// Construct an SBE header.
    pub fn new(block_length: u16, template_id: u16, schema_id: u16, version: u16) -> (h: SbeHeader)
        ensures
            h == (SbeHeader { block_length, template_id, schema_id, version }),
    {
        SbeHeader { block_length, template_id, schema_id, version }
    }

    /// Size of the message root block (fixed fields), in bytes.
    pub fn block_length(&self) -> (v: u16)
        ensures
            v == self.block_length,
    {
        self.block_length
    }

    /// SBE template id identifying the message type (e.g. 46 = incremental book).
    pub fn template_id(&self) -> (v: u16)
        ensures
            v == self.template_id,
    {
        self.template_id
    }

    /// SBE schema id (1 for CME MDP 3.0).
    pub fn schema_id(&self) -> (v: u16)
        ensures
            v == self.schema_id,
    {
        self.schema_id
    }

    /// Schema version.
    pub fn version(&self) -> (v: u16)
        ensures
            v == self.version,
    {
        self.version
    }

    /// Take the header off the front of `buf`; `None` if it is too short.
    fn read_prefix(buf: &[u8]) -> (r: Option<(SbeHeader, &[u8])>)
        ensures
            r is Some <==> buf@.len() >= 8,
            r matches Some((h, rest)) ==> h == SbeHeader::read(buf@) && rest@ == buf@.skip(8),
    {
        let (block_length, b1) = match read_u16(buf) {
            Some(x) => x,
            None => return None,
        };
        let (template_id, b2) = match read_u16(b1) {
            Some(x) => x,
            None => return None,
        };
        let (schema_id, b3) = match read_u16(b2) {
            Some(x) => x,
            None => return None,
        };
        let (version, b4) = match read_u16(b3) {
            Some(x) => x,
            None => return None,
        };
        assert(b1@.subrange(0, 2) =~= buf@.subrange(2, 4));
        assert(b2@.subrange(0, 2) =~= buf@.subrange(4, 6));
        assert(b3@.subrange(0, 2) =~= buf@.subrange(6, 8));
        assert(b4@ =~= buf@.skip(8));
        Some((SbeHeader { block_length, template_id, schema_id, version }, b4))
    }

    /// Append this header to `out`.
    pub(crate) fn write(&self, out: &mut Vec<u8>)
        ensures
            final(out)@ == old(out)@ + self.bytes(),
    {
        let ghost start = out@;
        let f0 = u16_field(self.block_length);
        let f1 = u16_field(self.template_id);
        let f2 = u16_field(self.schema_id);
        let f3 = u16_field(self.version);
        out.extend_from_slice(f0.as_slice());
        out.extend_from_slice(f1.as_slice());
        out.extend_from_slice(f2.as_slice());
        out.extend_from_slice(f3.as_slice());
        assert(out@ =~= start + self.bytes());
    }
}

/// What one framed message holds: its header and the bytes after the header.
#[verifier::ext_equal]
pub struct Frame {
    pub header: SbeHeader,
    pub body: Seq<u8>,
}

/// One framed SBE message: its header plus the bytes after the header
/// (root block + repeating groups).
#[derive(Debug, Clone, Copy)]
pub struct SbeMessage<'a> {
    pub header: SbeHeader,
    /// Root block + groups (length == `MessageSize` - 8).
    pub body: &'a [u8],
}

impl<'a> View for SbeMessage<'a> {
    type V = Frame;

    open spec fn view(&self) -> Frame {
        Frame { header: self.header, body: self.body@ }
    }
}

/// The `MessageSize` of the frame at the front of `b`, when a whole frame is
/// there: two bytes of prefix, a size of at least one header, and that many
/// bytes after it.
pub open spec fn frame_size(b: Seq<u8>) -> Option<nat> {
    let size = le_nat(b.subrange(0, 2));
    if b.len() >= 2 && size >= 8 && b.len() >= 2 + size {
        Some(size)
    } else {
        None
    }
}

/// The frame at the front of `b`, whose `MessageSize` is `size`.
pub open spec fn first_frame(b: Seq<u8>, size: nat) -> Frame {
    Frame { header: SbeHeader::read(b.subrange(2, 10)), body: b.subrange(10, 2 + size as int) }
}

/// The frames of `b`, in order, up to the first point at which no whole frame
/// follows.
pub open spec fn frames(b: Seq<u8>) -> Seq<Frame>
    decreases b.len(),
{
    match frame_size(b) {
        Some(size) => seq![first_frame(b, size)] + frames(b.skip(2 + size as int)),
        None => Seq::empty(),
    }
}

/// Walks the SBE messages framed within a packet body.
///
/// Stops cleanly (yielding `None`) on truncation, so a malformed trailing
/// fragment never crashes the hot path.
pub struct SbeMessageIter<'a> {
    remaining: &'a [u8],
}

impl<'a> View for SbeMessageIter<'a> {
    type V = Seq<u8>;

    /// The bytes not yet consumed.
    closed spec fn view(&self) -> Seq<u8> {
        self.remaining@
    }
}

impl<'a> SbeMessageIter<'a> {
    /// The next framed message; `None`, with nothing consumed, when no whole
    /// frame is left.
    pub fn next(&mut self) -> (r: Option<SbeMessage<'a>>)
        ensures
            r is Some <==> frame_size(old(self)@) is Some,
            r is None ==> final(self)@ == old(self)@,
            r matches Some(m) ==> ({
                let size = frame_size(old(self)@)->0;
                &&& m@ == first_frame(old(self)@, size)
                &&& final(self)@ == old(self)@.skip(2 + size as int)
            }),
    {
        let buf = self.remaining;
        let (size_field, after) = match read_u16(buf) {
            Some(x) => x,
            None => return None,
        };
        let size: usize = size_field as usize;
        // A message must at least contain its own 8-byte SBE header.
        if size < SBE_HEADER_LEN {
            return None;
        }
        if after.len() < size {
            return None;
        }
        let msg_bytes = slice_subrange(after, 0, size);
        let (header, body) = match SbeHeader::read_prefix(msg_bytes) {
            Some(x) => x,
            None => return None,
        };
        self.remaining = slice_subrange(after, size, after.len());
        proof {
            assert(msg_bytes@.subrange(0, 2) =~= buf@.subrange(2, 10).subrange(0, 2));
            assert(msg_bytes@.subrange(2, 4) =~= buf@.subrange(2, 10).subrange(2, 4));
            assert(msg_bytes@.subrange(4, 6) =~= buf@.subrange(2, 10).subrange(4, 6));
            assert(msg_bytes@.subrange(6, 8) =~= buf@.subrange(2, 10).subrange(6, 8));
            assert(body@ =~= buf@.subrange(10, 2 + size as int));
            assert(self.remaining@ =~= buf@.skip(2 + size as int));
        }
        Some(SbeMessage { header, body })
    }
}

/// Iterate the SBE messages framed in `body` (the bytes after the packet header).
pub fn messages(body: &[u8]) -> (it: SbeMessageIter<'_>)
    ensures
        it@ == body@,
{
    SbeMessageIter { remaining: body }
}

} // verus!
