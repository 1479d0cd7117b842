//! `MDIncrementalRefreshBook` decode (templates 46 and legacy 32).
//!
//! Root block: `TransactTime u64 @0`, `MatchEventIndicator u8 @8`, padding to
//! `blockLength` (11). Then a `NoMDEntries` repeating group: a 3-byte dimension
//! (`u16 blockLength + u8 numInGroup`) followed by `numInGroup` entries, each
//! `blockLength` bytes (32) wide.
use crate::mdp3::enums::{MatchEventIndicator, MdEntryType, MdUpdateAction};
use crate::mdp3::header::SbeHeader;
use crate::wire::{le_nat, read_i32, read_i64, read_u16, read_u32, read_u64, span32, span64, to_signed};
use vstd::prelude::*;
use vstd::slice::slice_subrange;

verus! {

/// `MDIncrementalRefreshBook` (current SBE variant).
pub const TEMPLATE_INCREMENTAL_BOOK_46: u16 = 46;

/// `MDIncrementalRefreshBook` (legacy SBE variant, same field layout).
pub const TEMPLATE_INCREMENTAL_BOOK_32: u16 = 32;

/// Width of one `NoMDEntries` entry on the wire (group `blockLength`).
pub const MD_ENTRY_BLOCK_LEN: u16 = 32;

/// Root `blockLength` for the incremental-refresh message.
pub const INCREMENTAL_ROOT_BLOCK_LEN: u16 = 11;

/// Width of the fields of one entry; the rest of its block is padding.
pub const MD_ENTRY_FIELDS_LEN: usize = 27;

/// Width of the root fields read from a message; the rest of the root block is
/// padding.
pub const ROOT_FIELDS_LEN: usize = 9;

/// Width of the repeating-group dimension.
pub const GROUP_DIMENSION_LEN: usize = 3;

/// One decoded market-data entry from a `NoMDEntries` group.
#[derive(Debug, Clone, Copy, PartialEq, Eq, Structural)]
pub struct MdEntry {
    pub security_id: i32,
    pub rpt_seq: u32,
    /// `MDEntryPx` as a raw `PRICE9` integer (price * 1e9).
    pub px_raw: i64,
    pub size: i32,
    pub num_orders: i32,
    /// 1 = top of book.
    pub price_level: u8,
    pub update_action: MdUpdateAction,
    pub entry_type: MdEntryType,
}

/// The entry that the 27 field bytes at the front of `b` hold; `None` when its
/// action or its type is unknown.
pub open spec fn entry_of(b: Seq<u8>) -> Option<MdEntry> {
    match (MdUpdateAction::decoded(b[25]), MdEntryType::decoded(b[26])) {
        (Some(update_action), Some(entry_type)) => Some(
            MdEntry {
                px_raw: to_signed(le_nat(b.subrange(0, 8)), span64()) as i64,
                size: to_signed(le_nat(b.subrange(8, 12)), span32()) as i32,
                security_id: to_signed(le_nat(b.subrange(12, 16)), span32()) as i32,
                rpt_seq: le_nat(b.subrange(16, 20)) as u32,
                num_orders: to_signed(le_nat(b.subrange(20, 24)), span32()) as i32,
                price_level: b[24],
                update_action,
                entry_type,
            },
        ),
        _ => None,
    }
}

/// The known entries among the first `n` blocks of `stride` bytes of `raw`, in
/// order. Blocks too narrow for the entry fields hold none.
pub open spec fn entries_of(raw: Seq<u8>, stride: nat, n: nat) -> Seq<MdEntry>
    decreases n,
{
    if n == 0 || stride < 27 {
        Seq::empty()
    } else {
        let rest = entries_of(raw.skip(stride as int), stride, (n - 1) as nat);
        match entry_of(raw.subrange(0, stride as int)) {
            Some(e) => seq![e] + rest,
            None => rest,
        }
    }
}

/// What one incremental-refresh message says.
#[verifier::ext_equal]
pub struct Refresh {
    pub transact_time: u64,
    pub match_event: MatchEventIndicator,
    pub entries: Seq<MdEntry>,
}

/// Whether `header` announces an incremental book.
pub open spec fn is_incremental(header: SbeHeader) -> bool {
    header.template_id == 46 || header.template_id == 32
}

/// The width that the group dimension after the root block gives to one entry.
pub open spec fn group_stride(header: SbeHeader, body: Seq<u8>) -> nat {
    le_nat(body.subrange(header.block_length as int, header.block_length + 2))
}

/// The number of entries that the group dimension after the root block gives.
pub open spec fn group_count(header: SbeHeader, body: Seq<u8>) -> nat {
    body[header.block_length + 2] as nat
}

/// The bytes after the group dimension.
pub open spec fn group_bytes(header: SbeHeader, body: Seq<u8>) -> Seq<u8> {
    body.skip(header.block_length + 3)
}

/// Whether `body` is a whole incremental refresh: a book template, all root
/// fields, a group dimension with a positive width, and all entry blocks.
pub open spec fn is_refresh(header: SbeHeader, body: Seq<u8>) -> bool {
    &&& is_incremental(header)
    &&& body.len() >= 9
    &&& body.len() >= header.block_length + 3
    &&& group_stride(header, body) > 0
    &&& group_bytes(header, body).len() >= group_stride(header, body) * group_count(header, body)
}

/// The message that a whole incremental refresh holds.
pub open spec fn refresh_of(header: SbeHeader, body: Seq<u8>) -> Refresh {
    Refresh {
        transact_time: le_nat(body.subrange(0, 8)) as u64,
        match_event: MatchEventIndicator(body[8]),
        entries: entries_of(
            group_bytes(header, body),
            group_stride(header, body),
            group_count(header, body),
        ),
    }
}

/// A decoded `MDIncrementalRefreshBook` message: its root fields plus a
/// zero-copy view over the entry bytes.
pub struct IncrementalRefresh<'a> {
    transact_time: u64,
    match_event: MatchEventIndicator,
    entries_raw: &'a [u8],
    stride: usize,
    num_in_group: usize,
}

impl<'a> View for IncrementalRefresh<'a> {
    type V = Refresh;

    closed spec fn view(&self) -> Refresh {
        Refresh {
            transact_time: self.transact_time,
            match_event: self.match_event,
            entries: entries_of(self.entries_raw@, self.stride as nat, self.num_in_group as nat),
        }
    }
}

/// Only the blocks themselves matter to the entries of a group.
proof fn lemma_entries_of_prefix(raw: Seq<u8>, more: Seq<u8>, stride: nat, n: nat)
    requires
        raw.len() >= stride * n,
        more.len() >= raw.len(),
        forall|i: int| 0 <= i < raw.len() ==> raw[i] == more[i],
    ensures
        entries_of(raw, stride, n) == entries_of(more, stride, n),
    decreases n,
{
    if n > 0 && stride >= 27 {
        assert(stride * n == stride * (n - 1) + stride) by (nonlinear_arith)
            requires
                n > 0,
        ;
        assert(stride * (n - 1) >= 0) by (nonlinear_arith)
            requires
                n > 0,
        ;
        assert(raw.subrange(0, stride as int) =~= more.subrange(0, stride as int));
        lemma_entries_of_prefix(
            raw.skip(stride as int),
            more.skip(stride as int),
            stride,
            (n - 1) as nat,
        );
    }
}

impl<'a> IncrementalRefresh<'a> {
    /// The entry bytes are exactly the blocks of the group.
    #[verifier::type_invariant]
    spec fn whole(self) -> bool {
        &&& self.stride > 0
        &&& self.entries_raw@.len() == self.stride * self.num_in_group
    }

    /// Decode the message `body` (root + groups) given its SBE `header`.
    /// Returns `None` if the template is not an incremental book or the bytes
    /// are truncated/malformed.
    pub fn decode(header: &SbeHeader, body: &'a [u8]) -> (r: Option<IncrementalRefresh<'a>>)
        ensures
            r is Some <==> is_refresh(*header, body@),
            r matches Some(m) ==> m@ == refresh_of(*header, body@),
    {
        if header.template_id() != TEMPLATE_INCREMENTAL_BOOK_46 && header.template_id()
            != TEMPLATE_INCREMENTAL_BOOK_32 {
            return None;
        }
        // The root block is `blockLength` bytes wide, as the wire says, so a
        // schema that grows the root stays parseable.
        let root_len: usize = header.block_length() as usize;
        if body.len() < root_len {
            return None;
        }
        let (transact_time, after_time) = match read_u64(body) {
            Some(x) => x,
            None => return None,
        };
        if after_time.len() < 1 {
            return None;
        }
        let match_event = MatchEventIndicator(after_time[0]);

        let after_root = slice_subrange(body, root_len, body.len());
        let (stride_field, after_stride) = match read_u16(after_root) {
            Some(x) => x,
            None => return None,
        };
        if after_stride.len() < 1 {
            return None;
        }
        let stride: usize = stride_field as usize;
        let num_in_group: usize = after_stride[0] as usize;
        let rest = slice_subrange(after_stride, 1, after_stride.len());
        proof {
            assert(after_root@.subrange(0, 2) =~= body@.subrange(root_len as int, root_len + 2));
            assert(rest@ =~= group_bytes(*header, body@));
        }
        if stride == 0 {
            return None;
        }
        assert(0 <= stride * num_in_group <= 65535 * 255) by (nonlinear_arith)
            requires
                0 <= stride <= 65535,
                0 <= num_in_group <= 255,
        ;
        let needed: usize = stride * num_in_group;
        if rest.len() < needed {
            return None;
        }
        let entries_raw = slice_subrange(rest, 0, needed);
        proof {
            lemma_entries_of_prefix(entries_raw@, rest@, stride as nat, num_in_group as nat);
        }
        Some(IncrementalRefresh { transact_time, match_event, entries_raw, stride, num_in_group })
    }

    /// Transaction time, nanoseconds since the Unix epoch.
    pub fn transact_time(&self) -> (t: u64)
        ensures
            t == self@.transact_time,
    {
        self.transact_time
    }

    /// The match-event indicator (carries the end-of-event bit).
    pub fn match_event(&self) -> (m: MatchEventIndicator)
        ensures
            m == self@.match_event,
    {
        self.match_event
    }

    /// Walk the decoded entries, skipping any with unknown action/type.
    pub fn entries(&self) -> (it: MdEntryIter<'a>)
        ensures
            it@ == self@.entries,
    {
        proof {
            use_type_invariant(self);
        }
        MdEntryIter { raw: self.entries_raw, stride: self.stride, remaining: self.num_in_group }
    }
}

/// Walks the decoded `MdEntry` values within a refresh message.
pub struct MdEntryIter<'a> {
    raw: &'a [u8],
    stride: usize,
    remaining: usize,
}

impl<'a> View for MdEntryIter<'a> {
    type V = Seq<MdEntry>;

    /// The entries not yet handed out.
    closed spec fn view(&self) -> Seq<MdEntry> {
        entries_of(self.raw@, self.stride as nat, self.remaining as nat)
    }
}

/// Read one entry off the front of a block; the outer `None` is a block too
/// narrow for the fields.
fn read_entry(chunk: &[u8]) -> (r: Option<Option<MdEntry>>)
    ensures
        r is Some <==> chunk@.len() >= 27,
        r matches Some(e) ==> e == entry_of(chunk@),
{
    if chunk.len() < MD_ENTRY_FIELDS_LEN {
        return None;
    }
    let (px_raw, b1) = match read_i64(chunk) {
        Some(x) => x,
        None => return None,
    };
    let (size, b2) = match read_i32(b1) {
        Some(x) => x,
        None => return None,
    };
    let (security_id, b3) = match read_i32(b2) {
        Some(x) => x,
        None => return None,
    };
    let (rpt_seq, b4) = match read_u32(b3) {
        Some(x) => x,
        None => return None,
    };
    let (num_orders, b5) = match read_i32(b4) {
        Some(x) => x,
        None => return None,
    };
    proof {
        assert(b1@.subrange(0, 4) =~= chunk@.subrange(8, 12));
        assert(b2@.subrange(0, 4) =~= chunk@.subrange(12, 16));
        assert(b3@.subrange(0, 4) =~= chunk@.subrange(16, 20));
        assert(b4@.subrange(0, 4) =~= chunk@.subrange(20, 24));
        assert(b5@ =~= chunk@.skip(24));
    }
    let price_level = b5[0];
    match (MdUpdateAction::from_u8(b5[1]), MdEntryType::from_byte(b5[2])) {
        (Some(update_action), Some(entry_type)) => Some(
            Some(
                MdEntry {
                    security_id,
                    rpt_seq,
                    px_raw,
                    size,
                    num_orders,
                    price_level,
                    update_action,
                    entry_type,
                },
            ),
        ),
        _ => Some(None),
    }
}

impl<'a> MdEntryIter<'a> {
    /// The bytes left are exactly the blocks left.
    #[verifier::type_invariant]
    spec fn whole(self) -> bool {
        &&& self.stride > 0
        &&& self.raw@.len() == self.stride * self.remaining
    }

    /// The next known entry; `None` when there is none left.
    pub fn next(&mut self) -> (r: Option<MdEntry>)
        ensures
            r is Some <==> old(self)@.len() > 0,
            r is None ==> final(self)@ == old(self)@,
            r matches Some(e) ==> e == old(self)@[0] && final(self)@ == old(self)@.skip(1),
    {
        proof {
            use_type_invariant(&*self);
        }
        let ghost pending = self@;
        let mut raw = self.raw;
        let stride = self.stride;
        let mut remaining = self.remaining;
        while remaining > 0
            invariant
                stride > 0,
                raw@.len() == stride * remaining,
                pending == entries_of(raw@, stride as nat, remaining as nat),
                pending == old(self)@,
                stride == old(self).stride,
            decreases remaining,
        {
            proof {
                assert(stride * remaining == stride * (remaining - 1) + stride) by (nonlinear_arith)
                    requires
                        remaining > 0,
                ;
                assert(stride * (remaining - 1) >= 0) by (nonlinear_arith)
                    requires
                        remaining > 0,
                        stride > 0,
                ;
            }
            let chunk = slice_subrange(raw, 0, stride);
            let after = slice_subrange(raw, stride, raw.len());
            assert(after@ =~= raw@.skip(stride as int));
            raw = after;
            remaining = remaining - 1;
            match read_entry(chunk) {
                None => {
                    *self = MdEntryIter { raw, stride, remaining };
                    return None;
                },
                Some(Some(e)) => {
                    *self = MdEntryIter { raw, stride, remaining };
                    assert(pending.skip(1) =~= self@);
                    return Some(e);
                },
                // Unknown action or type: skip to the next block.
                Some(None) => {},
            }
        }
        *self = MdEntryIter { raw, stride, remaining };
        None
    }
}

} // verus!
