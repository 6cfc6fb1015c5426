//! Small verified vector utilities: summing, deduplication, filtering.

use vstd::prelude::*;

verus! {

/// The sum of the first `n` elements of `s`, as a mathematical integer.
pub open spec fn sum_prefix(s: Seq<i32>, n: int) -> int
    decreases n,
{
    if n <= 0 {
        0
    } else {
        sum_prefix(s, n - 1) + s[n - 1]
    }
}

/// Sums a slice left to right. Every prefix sum must fit in `i32`, which
/// is exactly the condition under which the running total cannot overflow.
pub fn sum(slice: &[i32]) -> (total: i32)
    requires
        forall|n: int|
            0 <= n <= slice@.len() ==> i32::MIN <= #[trigger] sum_prefix(slice@, n) <= i32::MAX,
    ensures
        total == sum_prefix(slice@, slice@.len() as int),
{
    let mut temp: i32 = 0;
    let mut i: usize = 0;
    while i < slice.len()
        invariant
            0 <= i <= slice@.len(),
            temp == sum_prefix(slice@, i as int),
            forall|n: int|
                0 <= n <= slice@.len() ==> i32::MIN <= #[trigger] sum_prefix(slice@, n)
                    <= i32::MAX,
        decreases slice@.len() - i,
    {
        proof {
            assert(sum_prefix(slice@, i as int + 1) == sum_prefix(slice@, i as int) + slice@[i as int]);
        }
        temp = temp + slice[i];
        i = i + 1;
    }
    temp
}

/// The deduplication of `s`: each value kept once, at its first
/// occurrence, in order.
pub open spec fn dedup_seq(s: Seq<i32>) -> Seq<i32>
    decreases s.len(),
{
    if s.len() == 0 {
        Seq::empty()
    } else {
        let prefix = dedup_seq(s.drop_last());
        if prefix.contains(s.last()) {
            prefix
        } else {
            prefix.push(s.last())
        }
    }
}

/// Whether `v` holds `x`.
pub fn vec_contains(v: &Vec<i32>, x: i32) -> (present: bool)
    ensures
        present == v@.contains(x),
{
    let mut i: usize = 0;
    while i < v.len()
        invariant
            0 <= i <= v@.len(),
            forall|j: int| 0 <= j < i ==> v@[j] != x,
        decreases v@.len() - i,
    {
        if v[i] == x {
            return true;
        }
        i = i + 1;
    }
    false
}

/// Returns the elements of `vs` with every repeated value dropped, keeping
/// first occurrences in order.
pub fn dedup(vs: &Vec<i32>) -> (deduped: Vec<i32>)
    ensures
        deduped@ == dedup_seq(vs@),
{
    let mut deduped: Vec<i32> = Vec::new();
    let mut i: usize = 0;
    while i < vs.len()
        invariant
            0 <= i <= vs@.len(),
            deduped@ == dedup_seq(vs@.subrange(0, i as int)),
        decreases vs@.len() - i,
    {
        proof {
            assert(vs@.subrange(0, i as int + 1).drop_last() =~= vs@.subrange(0, i as int));
        }
        if !vec_contains(&deduped, vs[i]) {
            deduped.push(vs[i]);
        }
        i = i + 1;
    }
    proof {
        assert(vs@.subrange(0, vs@.len() as int) =~= vs@);
    }
    deduped
}

/// The elements of `s` at the positions where `keep` is true, in order.
pub open spec fn mask_filter(s: Seq<i32>, keep: Seq<bool>) -> Seq<i32>
    decreases s.len(),
{
    if s.len() == 0 {
        Seq::empty()
    } else {
        let prefix = mask_filter(s.drop_last(), keep.drop_last());
        if keep.last() {
            prefix.push(s.last())
        } else {
            prefix
        }
    }
}

/// Keeps the elements of `vs` that the predicate accepts, in order.
///
/// The predicate's answers form a boolean mask over the input, each answer
/// allowed by the predicate's own postcondition, and the result is exactly
/// the input filtered by that mask; for a deterministic predicate this
/// pins the result completely.
pub fn filter<F: Fn(i32) -> bool>(vs: &Vec<i32>, pred: F) -> (kept: Vec<i32>)
    requires
        forall|x: i32| #[trigger] pred.requires((x,)),
    ensures
        exists|keep: Seq<bool>|
            {
                &&& keep.len() == vs@.len()
                &&& forall|n: int|
                    0 <= n < vs@.len() ==> #[trigger] pred.ensures((vs@[n],), keep[n])
                &&& kept@ == mask_filter(vs@, keep)
            },
{
    let mut kept: Vec<i32> = Vec::new();
    let ghost mut keep: Seq<bool> = Seq::empty();
    let mut i: usize = 0;
    while i < vs.len()
        invariant
            0 <= i <= vs@.len(),
            forall|x: i32| #[trigger] pred.requires((x,)),
            keep.len() == i,
            forall|n: int| 0 <= n < i ==> #[trigger] pred.ensures((vs@[n],), keep[n]),
            kept@ == mask_filter(vs@.subrange(0, i as int), keep),
        decreases vs@.len() - i,
    {
        let accepted = pred(vs[i]);
        proof {
            let keep_before = keep;
            keep = keep.push(accepted);
            assert(keep.drop_last() =~= keep_before);
            assert(vs@.subrange(0, i as int + 1).drop_last() =~= vs@.subrange(0, i as int));
        }
        if accepted {
            kept.push(vs[i]);
        }
        i = i + 1;
    }
    proof {
        assert(vs@.subrange(0, vs@.len() as int) =~= vs@);
    }
    kept
}

} // verus!
