//! The fixed-capacity price ladder: `arrayvec::ArrayVec` of `Level`s.
//!
//! A ladder never allocates. What it holds is named by `levels_of`, top of
//! book first; each function below hands one `ArrayVec` method to the books and
//! says what that method does to the levels.
use arrayvec::ArrayVec;
use vstd::prelude::*;

verus! {

/// Maximum tracked depth per side.
pub const MAX_DEPTH: usize = 10;

/// A single price level.
#[derive(Debug, Clone, Copy, PartialEq, Eq, Structural)]
pub struct Level {
    pub px_raw: i64,
    pub size: i32,
    pub num_orders: i32,
}

/// `arrayvec::ArrayVec`, an inline vector of at most `CAP` elements.
#[verifier::external_type_specification]
#[verifier::external_body]
#[verifier::reject_recursive_types(T)]
pub struct ExArrayVec<T, const CAP: usize>(ArrayVec<T, CAP>);

/// The levels of a ladder, index 0 being the top of the book.
pub uninterp spec fn levels_of(ladder: ArrayVec<Level, MAX_DEPTH>) -> Seq<Level>;

/// `ArrayVec::new`: a ladder without levels.
#[verifier::external_body]
pub(crate) fn empty_ladder() -> (r: ArrayVec<Level, MAX_DEPTH>)
    ensures
        levels_of(r) == Seq::<Level>::empty(),
{
    ArrayVec::new()
}

/// `ArrayVec::len`: the number of levels, which is at most the capacity.
#[verifier::external_body]
pub(crate) fn ladder_len(ladder: &ArrayVec<Level, MAX_DEPTH>) -> (r: usize)
    ensures
        r == levels_of(*ladder).len(),
        r <= MAX_DEPTH,
{
    ladder.len()
}

/// `ArrayVec::is_full`: whether the length has reached the capacity.
#[verifier::external_body]
pub(crate) fn ladder_is_full(ladder: &ArrayVec<Level, MAX_DEPTH>) -> (r: bool)
    ensures
        r == (levels_of(*ladder).len() == MAX_DEPTH),
{
    ladder.is_full()
}

/// `ArrayVec::pop`: removes and returns the deepest level; an empty ladder
/// stays empty and gives `None`.
#[verifier::external_body]
pub(crate) fn ladder_pop(ladder: &mut ArrayVec<Level, MAX_DEPTH>) -> (r: Option<Level>)
    ensures
        levels_of(*old(ladder)).len() == 0 ==> r is None && levels_of(*final(ladder)) == levels_of(
            *old(ladder),
        ),
        levels_of(*old(ladder)).len() > 0 ==> r == Some(levels_of(*old(ladder)).last())
            && levels_of(*final(ladder)) == levels_of(*old(ladder)).drop_last(),
{
    ladder.pop()
}

/// `ArrayVec::insert`: puts a level at `index` and moves the deeper ones down.
/// It panics on a full ladder and on an index past the end.
#[verifier::external_body]
pub(crate) fn ladder_insert(ladder: &mut ArrayVec<Level, MAX_DEPTH>, index: usize, level: Level)
    requires
        levels_of(*old(ladder)).len() < MAX_DEPTH,
        index <= levels_of(*old(ladder)).len(),
    ensures
        levels_of(*final(ladder)) == levels_of(*old(ladder)).insert(index as int, level),
{
    ladder.insert(index, level)
}

/// `ArrayVec::as_mut_slice`, written at one index: replaces the level there
/// and leaves the others. It panics on an index past the end.
#[verifier::external_body]
pub(crate) fn ladder_set(ladder: &mut ArrayVec<Level, MAX_DEPTH>, index: usize, level: Level)
    requires
        index < levels_of(*old(ladder)).len(),
    ensures
        levels_of(*final(ladder)) == levels_of(*old(ladder)).update(index as int, level),
{
    ladder.as_mut_slice()[index] = level
}

/// `ArrayVec::push`: appends a level. It panics on a full ladder.
#[verifier::external_body]
pub(crate) fn ladder_push(ladder: &mut ArrayVec<Level, MAX_DEPTH>, level: Level)
    requires
        levels_of(*old(ladder)).len() < MAX_DEPTH,
    ensures
        levels_of(*final(ladder)) == levels_of(*old(ladder)).push(level),
{
    ladder.push(level)
}

/// `ArrayVec::remove`: takes the level at `index` out and moves the deeper
/// ones up. It panics on an index past the end.
#[verifier::external_body]
pub(crate) fn ladder_remove(ladder: &mut ArrayVec<Level, MAX_DEPTH>, index: usize) -> (r: Level)
    requires
        index < levels_of(*old(ladder)).len(),
    ensures
        r == levels_of(*old(ladder))[index as int],
        levels_of(*final(ladder)) == levels_of(*old(ladder)).remove(index as int),
{
    ladder.remove(index)
}

/// `ArrayVec::clear`: removes every level.
#[verifier::external_body]
pub(crate) fn ladder_clear(ladder: &mut ArrayVec<Level, MAX_DEPTH>)
    ensures
        levels_of(*final(ladder)) == Seq::<Level>::empty(),
{
    ladder.clear()
}

/// `ArrayVec::truncate`: keeps the first `len` levels; a ladder that is not
/// longer than that stays as it is.
#[verifier::external_body]
pub(crate) fn ladder_truncate(ladder: &mut ArrayVec<Level, MAX_DEPTH>, len: usize)
    ensures
        levels_of(*final(ladder)) == if len < levels_of(*old(ladder)).len() {
            levels_of(*old(ladder)).take(len as int)
        } else {
            levels_of(*old(ladder))
        },
{
    ladder.truncate(len)
}

/// `ArrayVec::as_slice`: the levels in order.
#[verifier::external_body]
pub(crate) fn ladder_slice(ladder: &ArrayVec<Level, MAX_DEPTH>) -> (r: &[Level])
    ensures
        r@ == levels_of(*ladder),
{
    ladder.as_slice()
}

} // verus!
