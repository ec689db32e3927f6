//! Ranking of candidates by distance.
//!
//! A rank is a squared distance paired with the place of the candidate in
//! the roster. Ranks are ordered by distance first and by place second, so
//! that no two ranks of one roster tie.

use itertools::Itertools;
use std::cmp::Ordering;
use vstd::prelude::*;

verus! {

/// Whether rank `a` comes before rank `b`.
pub open spec fn rank_lt(a: (u128, usize), b: (u128, usize)) -> bool {
    a.0 < b.0 || (a.0 == b.0 && a.1 < b.1)
}

/// Whether rank `a` does not come after rank `b`.
pub open spec fn rank_le(a: (u128, usize), b: (u128, usize)) -> bool {
    rank_lt(a, b) || a == b
}

/// Whether every rank of `ranks` is followed only by ranks that do not
/// come before it.
pub open spec fn ascending(ranks: Seq<(u128, usize)>) -> bool {
    forall|i: int, j: int| 0 <= i < j < ranks.len() ==> rank_le(#[trigger] ranks[i], #[trigger] ranks[j])
}

/// Orders two ranks: by distance, then by place.
pub fn rank_order(a: &(u128, usize), b: &(u128, usize)) -> (o: Ordering)
    ensures
        o is Less <==> rank_lt(*a, *b),
        o is Equal <==> *a == *b,
        o is Greater <==> rank_lt(*b, *a),
{
    if a.0 < b.0 {
        Ordering::Less
    } else if a.0 > b.0 {
        Ordering::Greater
    } else if a.1 < b.1 {
        Ordering::Less
    } else if a.1 > b.1 {
        Ordering::Greater
    } else {
        Ordering::Equal
    }
}

/// Calls `itertools::Itertools::sorted_by` with `rank_order`. It collects
/// the items, sorts them with `slice::sort_by` and hands them back: the
/// same ranks, each as often as before, in ascending order.
#[verifier::external_body]
fn sorted_ranks(ranks: Vec<(u128, usize)>) -> (sorted: Vec<(u128, usize)>)
    ensures
        sorted@.to_multiset() == ranks@.to_multiset(),
        ascending(sorted@),
{
    ranks.into_iter().sorted_by(|a, b| rank_order(a, b)).collect()
}

/// The rank that comes before all others, if there is any rank at all.
pub fn lowest(ranks: Vec<(u128, usize)>) -> (first: Option<(u128, usize)>)
    ensures
        first is None <==> ranks@.len() == 0,
        first matches Some(r) ==> ranks@.contains(r) && forall|i: int|
            0 <= i < ranks@.len() ==> rank_le(r, #[trigger] ranks@[i]),
{
    let ghost given = ranks@;
    let sorted = sorted_ranks(ranks);
    proof {
        given.to_multiset_ensures();
        sorted@.to_multiset_ensures();
    }
    if sorted.len() == 0 {
        None
    } else {
        let r = sorted[0];
        proof {
            assert(given.to_multiset().count(r) > 0);
            assert forall|i: int| 0 <= i < given.len() implies rank_le(r, #[trigger] given[i]) by {
                assert(sorted@.to_multiset().count(given[i]) > 0);
            }
        }
        Some(r)
    }
}

} // verus!
