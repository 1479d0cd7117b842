//! Sums over finite sets of keys, for totals across instruments.
use vstd::prelude::*;

verus! {

/// The sum of `f(k)` over the keys of a finite set.
pub open spec fn sum_over(keys: Set<i32>, f: spec_fn(i32) -> int) -> int
    decreases keys.len(),
    when keys.finite()
{
    if keys.len() == 0 {
        0
    } else {
        let k = keys.choose();
        f(k) + sum_over(keys.remove(k), f)
    }
}

/// Any key can be the one that a sum takes out first.
pub proof fn sum_over_remove(keys: Set<i32>, f: spec_fn(i32) -> int, k: i32)
    requires
        keys.finite(),
        keys.contains(k),
    ensures
        sum_over(keys, f) == f(k) + sum_over(keys.remove(k), f),
    decreases keys.len(),
{
    let c = keys.choose();
    assert(keys.contains(c));
    if c != k {
        sum_over_remove(keys.remove(c), f, k);
        sum_over_remove(keys.remove(k), f, c);
        assert(keys.remove(c).remove(k) =~= keys.remove(k).remove(c));
    }
}

/// The sum over the first `i + 1` of distinct keys is that over the first `i`
/// and the value at the next.
pub proof fn sum_over_prefix(keys: Seq<i32>, f: spec_fn(i32) -> int, i: int)
    requires
        keys.no_duplicates(),
        0 <= i < keys.len(),
    ensures
        sum_over(keys.take(i + 1).to_set(), f) == sum_over(keys.take(i).to_set(), f) + f(keys[i]),
{
    let longer = keys.take(i + 1);
    assert(longer[i] == keys[i]);
    assert(longer.to_set().contains(keys[i]));
    vstd::seq_lib::seq_to_set_is_finite(longer);
    sum_over_remove(longer.to_set(), f, keys[i]);
    assert forall|k: i32| #[trigger] longer.to_set().remove(keys[i]).contains(k) implies keys.take(
        i,
    ).to_set().contains(k) by {
        let j = choose|j: int| 0 <= j < longer.len() && longer[j] == k;
        assert(keys.take(i)[j] == k);
    }
    assert forall|k: i32| #[trigger] keys.take(i).to_set().contains(
        k,
    ) implies longer.to_set().remove(keys[i]).contains(k) by {
        let j = choose|j: int| 0 <= j < i && keys.take(i)[j] == k;
        assert(longer[j] == k);
    }
    assert(longer.to_set().remove(keys[i]) =~= keys.take(i).to_set());
}

/// One step of a walk over the distinct keys of a set: the next key is in the
/// set, its value is what the step adds to the sum so far, and after the last
/// step the sum is that over the set.
pub proof fn sum_over_step(walk: Seq<&i32>, keys: Set<i32>, f: spec_fn(i32) -> int, i: int)
    requires
        walk.unref().to_set() == keys,
        walk.no_duplicates(),
        0 <= i < walk.len(),
    ensures
        keys.contains(*walk[i]),
        sum_over(walk.unref().take(i + 1).to_set(), f) == sum_over(
            walk.unref().take(i).to_set(),
            f,
        ) + f(*walk[i]),
        i + 1 == walk.len() ==> walk.unref().take(i + 1).to_set() == keys,
{
    let seq = walk.unref();
    assert(seq.no_duplicates()) by {
        assert forall|a: int, b: int|
            0 <= a < seq.len() && 0 <= b < seq.len() && a != b implies seq[a] != seq[b] by {
            assert(walk[a] != walk[b]);
        }
    }
    assert(seq[i] == *walk[i]);
    assert(seq.to_set().contains(seq[i]));
    sum_over_prefix(seq, f, i);
    assert(seq.take(seq.len() as int) =~= seq);
}

/// A sum depends only on the function's values at the keys.
pub proof fn sum_over_ext(keys: Set<i32>, f: spec_fn(i32) -> int, g: spec_fn(i32) -> int)
    requires
        keys.finite(),
        forall|k: i32| keys.contains(k) ==> #[trigger] f(k) == g(k),
    ensures
        sum_over(keys, f) == sum_over(keys, g),
    decreases keys.len(),
{
    if keys.len() > 0 {
        let k = keys.choose();
        assert(keys.contains(k));
        assert(f(k) == g(k));
        sum_over_ext(keys.remove(k), f, g);
    }
}

/// Changing the value at one key changes the sum by the difference.
pub proof fn sum_over_change(
    keys: Set<i32>,
    f: spec_fn(i32) -> int,
    g: spec_fn(i32) -> int,
    k: i32,
)
    requires
        keys.finite(),
        keys.contains(k),
        forall|j: i32| keys.contains(j) && j != k ==> #[trigger] f(j) == g(j),
    ensures
        sum_over(keys, g) == sum_over(keys, f) - f(k) + g(k),
{
    sum_over_remove(keys, f, k);
    sum_over_remove(keys, g, k);
    sum_over_ext(keys.remove(k), f, g);
}

/// A sum of values no larger than `bound` either way is no larger than the
/// number of keys times `bound`.
pub proof fn sum_over_bound(keys: Set<i32>, f: spec_fn(i32) -> int, bound: int)
    requires
        keys.finite(),
        forall|k: i32| keys.contains(k) ==> -bound <= #[trigger] f(k) <= bound,
    ensures
        -(keys.len() * bound) <= sum_over(keys, f) <= keys.len() * bound,
    decreases keys.len(),
{
    if keys.len() > 0 {
        let k = keys.choose();
        assert(keys.contains(k));
        assert(-bound <= f(k) <= bound);
        sum_over_bound(keys.remove(k), f, bound);
        let n = keys.len() as int;
        assert(n * bound == (n - 1) * bound + bound) by (nonlinear_arith);
    } else {
        assert(0 * bound == 0);
    }
}

/// A sum over no keys is 0; one over a single key is its value.
pub proof fn sum_over_few(f: spec_fn(i32) -> int, k: i32)
    ensures
        sum_over(Set::empty(), f) == 0,
        sum_over(set![k], f) == f(k),
{
    sum_over_remove(set![k], f, k);
    assert(set![k].remove(k) =~= Set::empty());
}

} // verus!
