//! Comparator-driven binary search over an implicit ordered index range.
//!
//! The comparator `f(index)` reports whether the target follows, equals, or
//! precedes the element at `index` (`Less`, `Equal`, `Greater` respectively,
//! reading "element compared to target"). Provided every possible outcome of
//! the comparator is monotone over the range, the search returns a matching
//! index or the insertion point that preserves order.

use core::cmp::Ordering;
use vstd::prelude::*;

verus! {

/// Rank of a comparator outcome in the order `Less < Equal < Greater`,
/// used to state that a comparator is monotone over an index range.
pub open spec fn ordering_rank(o: Ordering) -> int {
    match o {
        Ordering::Less => 0,
        Ordering::Equal => 1,
        Ordering::Greater => 2,
    }
}

/// Searches `0..size` with the three-way comparator `f`. Returns `Ok(i)` for
/// some index whose comparison came out `Equal`, or `Err(p)` where `p` is the
/// smallest index at which the target could be inserted while preserving
/// order: every index before `p` can only compare `Less`, every index from
/// `p` on can only compare `Greater`. Completes in O(log size) comparisons.
#[verifier::loop_isolation(false)]
pub fn binary_search_by<F: Fn(usize) -> Ordering>(size: usize, f: F) -> (r: Result<usize, usize>)
    requires
        forall|i: usize| i < size ==> #[trigger] call_requires(f, (i,)),
        forall|i: usize, j: usize, ri: Ordering, rj: Ordering|
            i <= j < size && #[trigger] call_ensures(f, (i,), ri) && #[trigger] call_ensures(
                f,
                (j,),
                rj,
            ) ==> ordering_rank(ri) <= ordering_rank(rj),
    ensures
        match r {
            Ok(i) => i < size && call_ensures(f, (i,), Ordering::Equal),
            Err(p) => p <= size && (forall|j: usize, rj: Ordering|
                j < p && #[trigger] call_ensures(f, (j,), rj) ==> rj == Ordering::Less) && (
            forall|j: usize, rj: Ordering|
                p <= j < size && #[trigger] call_ensures(f, (j,), rj) ==> rj == Ordering::Greater),
        },
{
    let mut left: usize = 0;
    let mut right: usize = size;
    let mut width: usize = size;

    while left < right
        invariant
            left <= right <= size,
            width == right - left,
            forall|j: usize, rj: Ordering|
                j < left && #[trigger] call_ensures(f, (j,), rj) ==> rj == Ordering::Less,
            forall|j: usize, rj: Ordering|
                right <= j < size && #[trigger] call_ensures(f, (j,), rj) ==> rj
                    == Ordering::Greater,
        decreases right - left,
    {
        let mid = left + width / 2;
        let cmp = f(mid);
        match cmp {
            Ordering::Less => {
                left = mid + 1;
            },
            Ordering::Greater => {
                right = mid;
            },
            Ordering::Equal => {
                return Ok(mid);
            },
        }
        width = right - left;
    }
    Err(left)
}

} // verus!
