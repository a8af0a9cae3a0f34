//! The pruning pass: segments are taken in order of weakly descending
//! length, and a segment is kept exactly when it collides with none of the
//! segments after it in that order.

use vstd::prelude::*;
use crate::geometry::Line;
use crate::geometry::collides_spec;
use crate::geometry::collision_fits;
use crate::geometry::length_fits;
use crate::geometry::length_spec;
use crate::sorting::sort_desc_spec;
use crate::sorting::sorted_desc;
use crate::sorting::lemma_sort_desc_spec;
use crate::sorting::lemma_sort_of_sorted;
use crate::sorting::lemma_same_contents_elements;

verus! {

/// Every segment's length computation is free of overflow.
pub open spec fn all_lengths_fit(s: Seq<Line>) -> bool {
    forall|i: int| 0 <= i < s.len() ==> length_fits(#[trigger] s[i])
}

/// Every collision test between two of the segments is free of overflow.
pub open spec fn all_collisions_fit(s: Seq<Line>) -> bool {
    forall|i: int, j: int|
        0 <= i < s.len() && 0 <= j < s.len() ==> collision_fits(#[trigger] s[i], #[trigger] s[j])
}

/// The segment at position i survives the pruning of s: it collides with
/// none of the segments after it.
pub open spec fn keep_at(s: Seq<Line>, i: int) -> bool {
    forall|j: int| i < j < s.len() ==> !collides_spec(s[i], #[trigger] s[j])
}

/// The surviving segments among the first n of s, in order.
pub open spec fn prune_prefix(s: Seq<Line>, n: int) -> Seq<Line>
    decreases n,
{
    if n <= 0 {
        Seq::empty()
    } else if keep_at(s, n - 1) {
        prune_prefix(s, n - 1).push(s[n - 1])
    } else {
        prune_prefix(s, n - 1)
    }
}

/// The surviving segments of an already sorted sequence.
pub open spec fn prune_sorted(s: Seq<Line>) -> Seq<Line> {
    prune_prefix(s, s.len() as int)
}

/// The whole pruning pass: sort by weakly descending length (stably), then
/// keep each segment that collides with none of the segments after it.
pub open spec fn pruner_spec(s: Seq<Line>) -> Seq<Line> {
    prune_sorted(sort_desc_spec(s))
}

/// The positions of the surviving segments among the first n of s.
pub open spec fn kept_indices(s: Seq<Line>, n: int) -> Seq<int>
    decreases n,
{
    if n <= 0 {
        Seq::empty()
    } else if keep_at(s, n - 1) {
        kept_indices(s, n - 1).push(n - 1)
    } else {
        kept_indices(s, n - 1)
    }
}

/// The surviving segments are the segments at the kept positions: those
/// positions are strictly increasing, lie below n, and each satisfies
/// keep_at.
pub proof fn lemma_prune_prefix_struct(s: Seq<Line>, n: int)
    requires
        0 <= n <= s.len(),
    ensures
        prune_prefix(s, n).len() == kept_indices(s, n).len(),
        forall|k: int|
            0 <= k < kept_indices(s, n).len() ==> 0 <= #[trigger] kept_indices(s, n)[k] < n
                && keep_at(s, kept_indices(s, n)[k]) && prune_prefix(s, n)[k] == s[kept_indices(
                s,
                n,
            )[k]],
        forall|k1: int, k2: int|
            0 <= k1 < k2 < kept_indices(s, n).len() ==> #[trigger] kept_indices(s, n)[k1]
                < #[trigger] kept_indices(s, n)[k2],
    decreases n,
{
    if n > 0 {
        lemma_prune_prefix_struct(s, n - 1);
    }
}

/// When every segment survives, pruning changes nothing.
pub proof fn lemma_prune_all_kept(s: Seq<Line>, n: int)
    requires
        0 <= n <= s.len(),
        forall|i: int| 0 <= i < s.len() ==> keep_at(s, i),
    ensures
        prune_prefix(s, n) == s.take(n),
    decreases n,
{
    if n > 0 {
        lemma_prune_all_kept(s, n - 1);
        assert(s.take(n) =~= s.take(n - 1).push(s[n - 1]));
    }
}

/// The pruning of a sorted sequence is still sorted, and none of its
/// segments collides with a later one.
pub proof fn lemma_prune_sorted_props(s: Seq<Line>)
    requires
        sorted_desc(s),
    ensures
        sorted_desc(prune_sorted(s)),
        forall|i: int, j: int|
            0 <= i < j < prune_sorted(s).len() ==> !collides_spec(
                #[trigger] prune_sorted(s)[i],
                #[trigger] prune_sorted(s)[j],
            ),
{
    let n = s.len() as int;
    let r = prune_sorted(s);
    let idx = kept_indices(s, n);
    lemma_prune_prefix_struct(s, n);
    assert forall|i: int, j: int| 0 <= i < j < r.len() implies length_spec(#[trigger] r[i])
        >= length_spec(#[trigger] r[j]) && !collides_spec(r[i], r[j]) by {
        assert(idx[i] < idx[j]);
        assert(r[i] == s[idx[i]] && r[j] == s[idx[j]]);
        assert(keep_at(s, idx[i]));
        assert(!collides_spec(s[idx[i]], s[idx[j]]));
    }
}

/// LAW: the pruning pass is idempotent. Its result is already sorted by
/// weakly descending length and mutually collision-free in that order, so
/// running the pass again returns it unchanged.
pub proof fn lemma_pruner_idempotent(s: Seq<Line>)
    ensures
        pruner_spec(pruner_spec(s)) == pruner_spec(s),
{
    let t = sort_desc_spec(s);
    lemma_sort_desc_spec(s);
    let r = prune_sorted(t);
    lemma_prune_sorted_props(t);
    lemma_sort_of_sorted(r);
    assert(forall|i: int| 0 <= i < r.len() ==> keep_at(r, i)) by {
        assert forall|i: int| 0 <= i < r.len() implies keep_at(r, i) by {
            assert forall|j: int| i < j < r.len() implies !collides_spec(r[i], #[trigger] r[j]) by {
                assert(!collides_spec(r[i], r[j]));
            }
        }
    }
    lemma_prune_all_kept(r, r.len() as int);
    assert(r.take(r.len() as int) =~= r);
}

/// Overflow-freedom of lengths and collision tests carries over to any
/// reordering of the same segments.
pub proof fn lemma_fits_same_contents(s: Seq<Line>, t: Seq<Line>)
    requires
        s.to_multiset() == t.to_multiset(),
        all_lengths_fit(s),
        all_collisions_fit(s),
    ensures
        all_lengths_fit(t),
        all_collisions_fit(t),
{
    lemma_same_contents_elements(s, t);
    assert forall|i: int| 0 <= i < t.len() implies length_fits(#[trigger] t[i]) by {
        let wi = choose|w: int| 0 <= w < s.len() && s[w] == t[i];
        assert(length_fits(s[wi]));
    }
    assert forall|i: int, j: int| 0 <= i < t.len() && 0 <= j < t.len() implies collision_fits(
        #[trigger] t[i],
        #[trigger] t[j],
    ) by {
        let wi = choose|w: int| 0 <= w < s.len() && s[w] == t[i];
        let wj = choose|w: int| 0 <= w < s.len() && s[w] == t[j];
        assert(collision_fits(s[wi], s[wj]));
    }
}

} // verus!
