//! The entries of one packet, held inline: `arrayvec::ArrayVec` of `MdEntry`s.
//!
//! What a batch holds is named by `batch_of`, in the order of decoding; each
//! function below hands one `ArrayVec` method to the pipeline.
use arrayvec::ArrayVec;
use vstd::prelude::*;

use crate::mdp3::book_refresh::MdEntry;

verus! {

/// Max entries decoded from a single packet before overflow is dropped.
pub const MAX_ENTRIES_PER_PACKET: usize = 64;

/// The entries in a batch.
pub uninterp spec fn batch_of(batch: ArrayVec<MdEntry, MAX_ENTRIES_PER_PACKET>) -> Seq<MdEntry>;

/// `ArrayVec::new`: a batch without entries.
#[verifier::external_body]
pub(crate) fn empty_batch() -> (r: ArrayVec<MdEntry, MAX_ENTRIES_PER_PACKET>)
    ensures
        batch_of(r) == Seq::<MdEntry>::empty(),
{
    ArrayVec::new()
}

/// `ArrayVec::try_push`: appends an entry while there is room; a full batch
/// stays as it is. Says whether the entry was taken.
#[verifier::external_body]
pub(crate) fn batch_try_push(
    batch: &mut ArrayVec<MdEntry, MAX_ENTRIES_PER_PACKET>,
    e: MdEntry,
) -> (r: bool)
    ensures
        r == (batch_of(*old(batch)).len() < MAX_ENTRIES_PER_PACKET),
        batch_of(*final(batch)) == if batch_of(*old(batch)).len() < MAX_ENTRIES_PER_PACKET {
            batch_of(*old(batch)).push(e)
        } else {
            batch_of(*old(batch))
        },
{
    batch.try_push(e).is_ok()
}

/// `ArrayVec::as_slice`: the entries in order.
#[verifier::external_body]
pub(crate) fn batch_slice(batch: &ArrayVec<MdEntry, MAX_ENTRIES_PER_PACKET>) -> (r: &[MdEntry])
    ensures
        r@ == batch_of(*batch),
{
    batch.as_slice()
}

} // verus!
