//! The pairwise construction: one line segment for every unordered pair of
//! distinct indices of a point sequence, in lexicographic index order.

use vstd::prelude::*;
use crate::geometry::Line;
use crate::geometry::Point;

verus! {

/// The row of pair segments with first index i: one segment from ps[i] to
/// each point after it, in index order.
pub open spec fn pair_row(ps: Seq<Point>, i: int) -> Seq<Line> {
    Seq::new((ps.len() - i - 1) as nat, |k: int| Line { a: ps[i], b: ps[i + 1 + k] })
}

/// Every pair segment whose first index is below i, rows in order of the
/// first index.
pub open spec fn pair_prefix(ps: Seq<Point>, i: int) -> Seq<Line>
    decreases i,
{
    if i <= 0 {
        Seq::empty()
    } else {
        pair_prefix(ps, i - 1) + pair_row(ps, i - 1)
    }
}

/// One pair segment for every index pair (i, j) with i < j, in
/// lexicographic order of (i, j).
pub open spec fn all_pair_lines(ps: Seq<Point>) -> Seq<Line> {
    pair_prefix(ps, ps.len() as int)
}

/// The number of index pairs (i', j') with i' < j' <= n - 1 and i' < i:
/// the position where row i starts.
pub open spec fn row_start(n: int, i: int) -> int
    decreases i,
{
    if i <= 0 {
        0
    } else {
        row_start(n, i - 1) + (n - i)
    }
}

/// The position of the segment for the index pair (i, j) among all pair
/// segments of n points.
pub open spec fn pair_pos(n: int, i: int, j: int) -> int {
    row_start(n, i) + (j - i - 1)
}

/// The prefix of rows below i holds row_start(n, i) segments.
pub proof fn lemma_pair_prefix_len(ps: Seq<Point>, i: int)
    requires
        0 <= i <= ps.len(),
    ensures
        pair_prefix(ps, i).len() == row_start(ps.len() as int, i),
    decreases i,
{
    if i > 0 {
        lemma_pair_prefix_len(ps, i - 1);
    }
}

/// Closed form of row_start, stated doubled to stay in whole numbers.
pub proof fn lemma_row_start_closed(n: int, i: int)
    requires
        0 <= i <= n,
    ensures
        2 * row_start(n, i) == i * (2 * n - i - 1),
    decreases i,
{
    if i == 0 {
        assert(i * (2 * n - i - 1) == 0) by (nonlinear_arith)
            requires
                i == 0,
        ;
    } else {
        lemma_row_start_closed(n, i - 1);
        assert(row_start(n, i) == row_start(n, i - 1) + (n - i));
        assert(2 * row_start(n, i) == i * (2 * n - i - 1)) by (nonlinear_arith)
            requires
                2 * row_start(n, i - 1) == (i - 1) * (2 * n - (i - 1) - 1),
                row_start(n, i) == row_start(n, i - 1) + (n - i),
        ;
    }
}

/// row_start grows with the row index.
pub proof fn lemma_row_start_mono(n: int, a: int, b: int)
    requires
        0 <= a <= b <= n,
    ensures
        row_start(n, a) <= row_start(n, b),
    decreases b - a,
{
    if a < b {
        lemma_row_start_mono(n, a, b - 1);
    }
}

/// Within the prefix of rows below m, the segment for the index pair
/// (i, j) stands at position pair_pos(n, i, j).
pub proof fn lemma_pair_prefix_index(ps: Seq<Point>, m: int, i: int, j: int)
    requires
        0 <= i < j < ps.len(),
        i < m <= ps.len(),
    ensures
        0 <= pair_pos(ps.len() as int, i, j) < pair_prefix(ps, m).len(),
        pair_prefix(ps, m)[pair_pos(ps.len() as int, i, j)] == (Line {
            a: ps[i],
            b: ps[j],
        }),
    decreases m,
{
    let n = ps.len() as int;
    lemma_pair_prefix_len(ps, m);
    lemma_pair_prefix_len(ps, m - 1);
    if m == i + 1 {
        assert(row_start(n, i) >= 0) by {
            lemma_row_start_mono(n, 0, i);
        }
        assert(pair_row(ps, i)[j - i - 1] == (Line { a: ps[i], b: ps[j] }));
    } else {
        lemma_pair_prefix_index(ps, m - 1, i, j);
    }
}

/// LAW: for n points the pairwise builder yields exactly n * (n - 1) / 2
/// segments, and the segment for the index pair (i, j) with i < j stands at
/// position pair_pos(n, i, j), which lies within range. Together with
/// lemma_pair_pos_injective this says that each unordered index pair is
/// used exactly once.
pub proof fn lemma_all_pair_lines(ps: Seq<Point>, i: int, j: int)
    requires
        0 <= i < j < ps.len(),
    ensures
        all_pair_lines(ps).len() == ps.len() as int * (ps.len() as int - 1) / 2,
        0 <= pair_pos(ps.len() as int, i, j) < all_pair_lines(ps).len(),
        all_pair_lines(ps)[pair_pos(ps.len() as int, i, j)] == (Line {
            a: ps[i],
            b: ps[j],
        }),
{
    lemma_pair_line_count(ps);
    lemma_pair_prefix_index(ps, ps.len() as int, i, j);
}

/// LAW: the pairwise builder yields exactly n * (n - 1) / 2 segments for
/// n points.
pub proof fn lemma_pair_line_count(ps: Seq<Point>)
    ensures
        all_pair_lines(ps).len() == ps.len() as int * (ps.len() as int - 1) / 2,
{
    let n = ps.len() as int;
    lemma_pair_prefix_len(ps, n);
    lemma_row_start_closed(n, n);
    assert(n * (2 * n - n - 1) == n * (n - 1)) by (nonlinear_arith);
}

/// LAW: distinct index pairs stand at distinct positions among the pair
/// segments, so no unordered index pair is used twice.
pub proof fn lemma_pair_pos_injective(n: int, i: int, j: int, i2: int, j2: int)
    requires
        0 <= i < j < n,
        0 <= i2 < j2 < n,
        !(i == i2 && j == j2),
    ensures
        pair_pos(n, i, j) != pair_pos(n, i2, j2),
{
    if i == i2 {
    } else if i < i2 {
        lemma_pair_pos_order(n, i, j, i2, j2);
    } else {
        lemma_pair_pos_order(n, i2, j2, i, j);
    }
}

/// A pair with a smaller first index stands strictly earlier.
proof fn lemma_pair_pos_order(n: int, i: int, j: int, i2: int, j2: int)
    requires
        0 <= i < j < n,
        0 <= i2 < j2 < n,
        i < i2,
    ensures
        pair_pos(n, i, j) < pair_pos(n, i2, j2),
{
    assert(row_start(n, i + 1) == row_start(n, i) + (n - i - 1));
    lemma_row_start_mono(n, i + 1, i2);
}

} // verus!
