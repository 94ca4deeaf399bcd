//! Stable sorting of numbered entries.

use itertools::Itertools;
use std::cmp::Ordering;
use vstd::prelude::*;

verus! {

/// Compares two entries by their numbers alone.
pub fn by_index(a: &(usize, usize), b: &(usize, usize)) -> (order: Ordering)
    ensures
        order == Ordering::Less <==> a.0 < b.0,
        order == Ordering::Equal <==> a.0 == b.0,
        order == Ordering::Greater <==> a.0 > b.0,
{
    if a.0 < b.0 {
        Ordering::Less
    } else if a.0 == b.0 {
        Ordering::Equal
    } else {
        Ordering::Greater
    }
}

/// One entry stands before another: its number is smaller, or the numbers
/// are equal and its position is.
pub open spec fn stands_before(a: (usize, usize), b: (usize, usize)) -> bool {
    a.0 < b.0 || (a.0 == b.0 && a.1 < b.1)
}

/// Sorts entries of a number and a position by their numbers with
/// `Itertools::sorted_by`.
///
/// The sort keeps every entry, puts the numbers in ascending order and is
/// stable. The entries come in with ascending positions, so entries of
/// equal number leave with ascending positions too.
#[verifier::external_body]
pub(crate) fn sort_by_index(entries: Vec<(usize, usize)>) -> (sorted: Vec<(usize, usize)>)
    requires
        forall|i: int, j: int| 0 <= i < j < entries@.len() ==> entries@[i].1 < entries@[j].1,
    ensures
        sorted@.to_multiset() == entries@.to_multiset(),
        in_order(sorted@),
{
    entries.into_iter().sorted_by(|a, b| by_index(a, b)).collect()
}

/// Every two entries of `entries` stand in the order of their places.
pub open spec fn in_order(entries: Seq<(usize, usize)>) -> bool {
    forall|i: int, j: int|
        0 <= i < j < entries.len() ==> stands_before(#[trigger] entries[i], #[trigger] entries[j])
}

/// Two lists in order that hold the same entries are the same list.
pub proof fn lemma_order_unique(a: Seq<(usize, usize)>, b: Seq<(usize, usize)>)
    requires
        in_order(a),
        in_order(b),
        forall|e: (usize, usize)| a.contains(e) <==> b.contains(e),
    ensures
        a == b,
    decreases a.len(),
{
    if a.len() == 0 {
        if b.len() > 0 {
            assert(b.contains(b[0]));
        }
    } else {
        // Each list holds the first entry of the other, and nothing stands
        // before the first entry of a list in order: the first entries agree.
        assert(b.contains(a[0]));
        assert(a.contains(b[0]));
        assert(a[0] == b[0]);
        // What follows the first entries is in order and holds the same
        // entries again.
        let rest_a = a.drop_first();
        let rest_b = b.drop_first();
        assert(in_order(rest_a));
        assert(in_order(rest_b));
        assert forall|e: (usize, usize)| rest_a.contains(e) <==> rest_b.contains(e) by {
            if rest_a.contains(e) {
                assert(a.contains(e));
                let j = choose|j: int| 0 <= j < b.len() && b[j] == e;
                assert(rest_b[j - 1] == e);
            }
            if rest_b.contains(e) {
                assert(b.contains(e));
                let j = choose|j: int| 0 <= j < a.len() && a[j] == e;
                assert(rest_a[j - 1] == e);
            }
        }
        lemma_order_unique(rest_a, rest_b);
        assert(a =~= seq![a[0]] + rest_a);
        assert(b =~= seq![b[0]] + rest_b);
    }
}

} // verus!
