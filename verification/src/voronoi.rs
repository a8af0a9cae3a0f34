//! The pipeline: sample random points, connect every pair, connect every
//! pair of midpoints of those segments, and prune the result by the
//! length-sorted collision filter.

use vstd::prelude::*;
use crate::geometry::Line;
use crate::geometry::Point;
use crate::geometry::Rect;
use crate::geometry::collision_fits;
use crate::geometry::cross_fits;
use crate::geometry::div2_trunc;
use crate::geometry::length_fits;
use crate::geometry::mid_fits;
use crate::geometry::mid_spec;
use crate::geometry::sgn;
use crate::pairs::all_pair_lines;
use crate::pairs::pair_prefix;
use crate::pairs::pair_row;
use crate::prune::all_collisions_fit;
use crate::prune::all_lengths_fit;
use crate::prune::keep_at;
use crate::prune::prune_prefix;
use crate::prune::pruner_spec;
use crate::prune::lemma_fits_same_contents;
use crate::sampling::coord_of_raw;
use crate::sampling::coord_from_raw;
use crate::sampling::draw_raw;
use crate::sorting::sort_desc_spec;
use crate::sorting::sort_lines_desc;
use crate::sorting::lemma_sort_desc_spec;

verus! {

/// A coordinate produced by the sampler, or by taking midpoints of
/// segments between sampled points: it lies in 0 ..= 14.
pub open spec fn coord_small(c: int) -> bool {
    0 <= c <= 14
}

/// Both coordinates of p are small.
pub open spec fn point_small(p: Point) -> bool {
    coord_small(p.x as int) && coord_small(p.y as int)
}

/// Every point of the sequence is small.
pub open spec fn points_small(s: Seq<Point>) -> bool {
    forall|i: int| 0 <= i < s.len() ==> point_small(#[trigger] s[i])
}

/// Both endpoints of l are small.
pub open spec fn line_small(l: Line) -> bool {
    point_small(l.a) && point_small(l.b)
}

/// Every segment of the sequence has small endpoints.
pub open spec fn lines_small(s: Seq<Line>) -> bool {
    forall|i: int| 0 <= i < s.len() ==> line_small(#[trigger] s[i])
}

/// For a segment with small endpoints, the length and midpoint
/// computations cannot overflow, and the midpoint is itself small.
proof fn lemma_small_line_fits(l: Line)
    requires
        line_small(l),
    ensures
        length_fits(l),
        mid_fits(l),
        point_small(mid_spec(l)),
{
    let dx = l.a.x - l.b.x;
    let dy = l.a.y - l.b.y;
    assert(0 <= dx * dx <= 196 && 0 <= dy * dy <= 196) by (nonlinear_arith)
        requires
            -14 <= dx <= 14,
            -14 <= dy <= 14,
    ;
    assert(0 <= div2_trunc(l.a.x + l.b.x) <= 14);
    assert(0 <= div2_trunc(l.a.y + l.b.y) <= 14);
}

/// For a line and a point with small coordinates, the orientation scalar
/// cannot overflow.
proof fn lemma_small_cross_fits(l: Line, p: Point)
    requires
        line_small(l),
        point_small(p),
    ensures
        cross_fits(l, p),
{
    let dx = l.a.x - l.b.x;
    let ty = p.y - l.a.y;
    let dy = l.a.y - l.b.y;
    let sg = sgn(p.y - l.a.x);
    assert(-196 <= dx * ty <= 196) by (nonlinear_arith)
        requires
            -14 <= dx <= 14,
            -14 <= ty <= 14,
    ;
    assert(-14 <= dy * sg <= 14) by (nonlinear_arith)
        requires
            -14 <= dy <= 14,
            -1 <= sg <= 1,
    ;
}

/// For segments with small endpoints, no length or collision computation
/// can overflow.
proof fn lemma_small_lines_fit(s: Seq<Line>)
    requires
        lines_small(s),
    ensures
        all_lengths_fit(s),
        all_collisions_fit(s),
        forall|i: int| 0 <= i < s.len() ==> mid_fits(#[trigger] s[i]),
{
    assert forall|i: int| 0 <= i < s.len() implies length_fits(#[trigger] s[i]) && mid_fits(
        s[i],
    ) by {
        lemma_small_line_fits(s[i]);
    }
    assert forall|i: int, j: int| 0 <= i < s.len() && 0 <= j < s.len() implies collision_fits(
        #[trigger] s[i],
        #[trigger] s[j],
    ) by {
        lemma_small_cross_fits(s[i], s[j].a);
        lemma_small_cross_fits(s[i], s[j].b);
    }
}

/// Pair segments of small points have small endpoints.
proof fn lemma_pair_prefix_small(ps: Seq<Point>, i: int)
    requires
        points_small(ps),
        0 <= i <= ps.len(),
    ensures
        lines_small(pair_prefix(ps, i)),
    decreases i,
{
    if i > 0 {
        lemma_pair_prefix_small(ps, i - 1);
        let pre = pair_prefix(ps, i - 1);
        let row = pair_row(ps, i - 1);
        assert forall|k: int| 0 <= k < pair_prefix(ps, i).len() implies line_small(
            #[trigger] pair_prefix(ps, i)[k],
        ) by {
            if k < pre.len() {
                assert(pair_prefix(ps, i)[k] == pre[k]);
            } else {
                assert(pair_prefix(ps, i)[k] == row[k - pre.len()]);
                assert(row[k - pre.len()] == (Line {
                    a: ps[i - 1],
                    b: ps[i + (k - pre.len())],
                }));
            }
        }
    }
}

/// Midpoints of segments with small endpoints are small points.
proof fn lemma_mids_small(s: Seq<Line>)
    requires
        lines_small(s),
    ensures
        points_small(s.map_values(|l: Line| mid_spec(l))),
{
    let mps = s.map_values(|l: Line| mid_spec(l));
    assert forall|i: int| 0 <= i < mps.len() implies point_small(#[trigger] mps[i]) by {
        lemma_small_line_fits(s[i]);
    }
}

/// A polygonal cell boundary: an ordered sequence of segments. The cell
/// assembly step is absent; nothing ever fills one in.
pub struct Polygon {
    pub lines: Vec<Line>,
}

/// The result of the pipeline: a collection of polygonal cells. Cell
/// assembly is a non-goal, so the collection stays empty; the pipeline's
/// real product is the pruned segment collection it hands back beside it.
pub struct Voronoi {
    pub polygons: Vec<Polygon>,
}

impl Voronoi {
    /// Runs the whole pipeline on point_count random points: sample,
    /// connect all pairs, connect all pairs of midpoints, prune. The
    /// bounding rectangle is accepted but not enforced: sampling does not
    /// clamp to it. Returns the (empty) cell collection and the pruned
    /// segments, longest first, for the caller to emit.
    pub fn new(point_count: u64, _point_space: Rect, rng: &mut rand::rngs::StdRng) -> (result: (
        Voronoi,
        Vec<Line>,
    ))
        requires
            point_count <= usize::MAX,
        ensures
            result.0.polygons@.len() == 0,
            exists|ps: Seq<Point>|
                #[trigger] points_small(ps) && ps.len() == point_count && result.1@ == pruner_spec(
                    all_pair_lines(all_pair_lines(ps).map_values(|l: Line| mid_spec(l))),
                ),
    {
        let points = Voronoi::gen_points(point_count, rng);
        let ghost ps = points@;
        let lines = Voronoi::gen_lines_initial(points);
        proof {
            lemma_pair_prefix_small(ps, ps.len() as int);
            lemma_small_lines_fit(lines@);
        }
        let lines = Voronoi::gen_lines_midpoint(lines);
        proof {
            lemma_mids_small(all_pair_lines(ps));
            let mps = all_pair_lines(ps).map_values(|l: Line| mid_spec(l));
            lemma_pair_prefix_small(mps, mps.len() as int);
            lemma_small_lines_fit(lines@);
        }
        let lines = Voronoi::prune_lines(lines);
        let result = (Voronoi { polygons: Vec::new() }, lines);
        proof {
            assert(points_small(ps) && ps.len() == point_count && result.1@ == pruner_spec(
                all_pair_lines(all_pair_lines(ps).map_values(|l: Line| mid_spec(l))),
            ));
        }
        result
    }

    /// Produces exactly point_count points, each coordinate drawn from the
    /// generator and mapped through the base-2 logarithm (see
    /// coord_of_raw), so each coordinate lies in 0 ..= 14.
    pub fn gen_points(point_count: u64, rng: &mut rand::rngs::StdRng) -> (points: Vec<Point>)
        requires
            point_count <= usize::MAX,
        ensures
            points@.len() == point_count,
            points_small(points@),
    {
        let mut points: Vec<Point> = Vec::new();
        let mut c: u64 = 0;
        while c < point_count
            invariant
                c <= point_count,
                point_count <= usize::MAX,
                points@.len() == c,
                points_small(points@),
            decreases point_count - c,
        {
            let rx = draw_raw(rng);
            let ry = draw_raw(rng);
            points.push(Point::new(coord_from_raw(rx), coord_from_raw(ry)));
            c = c + 1;
        }
        points
    }

    /// Builds one segment for every unordered pair of distinct point
    /// indices (i, j) with i < j, each pair used exactly once, in
    /// lexicographic order of (i, j). No index is paired with itself,
    /// though an output segment may still be degenerate when two input
    /// points coincide. The output order is not load-bearing downstream:
    /// the pruning pass re-sorts by length.
    pub fn gen_lines_initial(points: Vec<Point>) -> (lines: Vec<Line>)
        ensures
            lines@ == all_pair_lines(points@),
    {
        let ghost ps = points@;
        let mut lines: Vec<Line> = Vec::new();
        let mut i: usize = 0;
        while i < points.len()
            invariant
                i <= ps.len(),
                points@ == ps,
                lines@ == pair_prefix(ps, i as int),
            decreases ps.len() - i,
        {
            let mut j: usize = i + 1;
            while j < points.len()
                invariant
                    i < ps.len(),
                    i + 1 <= j <= ps.len(),
                    points@ == ps,
                    lines@ == pair_prefix(ps, i as int) + Seq::new(
                        (j - i - 1) as nat,
                        |k: int| (Line { a: ps[i as int], b: ps[i as int + 1 + k] }),
                    ),
                decreases ps.len() - j,
            {
                lines.push(Line::new(points[i], points[j]));
                proof {
                    assert(lines@ == pair_prefix(ps, i as int) + Seq::new(
                        (j + 1 - i - 1) as nat,
                        |k: int| (Line { a: ps[i as int], b: ps[i as int + 1 + k] }),
                    )) by {
                        assert(pair_prefix(ps, i as int) + Seq::new(
                            (j + 1 - i - 1) as nat,
                            |k: int| (Line { a: ps[i as int], b: ps[i as int + 1 + k] }),
                        ) =~= (pair_prefix(ps, i as int) + Seq::new(
                            (j - i - 1) as nat,
                            |k: int| (Line { a: ps[i as int], b: ps[i as int + 1 + k] }),
                        )).push(Line { a: ps[i as int], b: ps[j as int] }));
                    }
                }
                j = j + 1;
            }
            proof {
                assert(Seq::new(
                    (ps.len() - i - 1) as nat,
                    |k: int| (Line { a: ps[i as int], b: ps[i as int + 1 + k] }),
                ) =~= pair_row(ps, i as int));
                assert(lines@ == pair_prefix(ps, i as int + 1));
            }
            i = i + 1;
        }
        lines
    }

    /// Computes the midpoint of every segment and builds one segment for
    /// every unordered pair of distinct midpoint indices, as
    /// gen_lines_initial does for points.
    pub fn gen_lines_midpoint(lines: Vec<Line>) -> (mids: Vec<Line>)
        requires
            forall|t: int| 0 <= t < lines@.len() ==> mid_fits(#[trigger] lines@[t]),
        ensures
            mids@ == all_pair_lines(lines@.map_values(|l: Line| mid_spec(l))),
    {
        let ghost mps = lines@.map_values(|l: Line| mid_spec(l));
        let mut mids: Vec<Line> = Vec::new();
        let mut i: usize = 0;
        while i < lines.len()
            invariant
                i <= mps.len(),
                mps == lines@.map_values(|l: Line| mid_spec(l)),
                forall|t: int| 0 <= t < lines@.len() ==> mid_fits(#[trigger] lines@[t]),
                mids@ == pair_prefix(mps, i as int),
            decreases mps.len() - i,
        {
            let mut j: usize = i + 1;
            while j < lines.len()
                invariant
                    i < mps.len(),
                    i + 1 <= j <= mps.len(),
                    mps == lines@.map_values(|l: Line| mid_spec(l)),
                    forall|t: int| 0 <= t < lines@.len() ==> mid_fits(#[trigger] lines@[t]),
                    mids@ == pair_prefix(mps, i as int) + Seq::new(
                        (j - i - 1) as nat,
                        |k: int| (Line { a: mps[i as int], b: mps[i as int + 1 + k] }),
                    ),
                decreases mps.len() - j,
            {
                mids.push(Line::new(lines[i].mid_point(), lines[j].mid_point()));
                proof {
                    assert(mids@ == pair_prefix(mps, i as int) + Seq::new(
                        (j + 1 - i - 1) as nat,
                        |k: int| (Line { a: mps[i as int], b: mps[i as int + 1 + k] }),
                    )) by {
                        assert(pair_prefix(mps, i as int) + Seq::new(
                            (j + 1 - i - 1) as nat,
                            |k: int| (Line { a: mps[i as int], b: mps[i as int + 1 + k] }),
                        ) =~= (pair_prefix(mps, i as int) + Seq::new(
                            (j - i - 1) as nat,
                            |k: int| (Line { a: mps[i as int], b: mps[i as int + 1 + k] }),
                        )).push(Line { a: mps[i as int], b: mps[j as int] }));
                    }
                }
                j = j + 1;
            }
            proof {
                assert(Seq::new(
                    (mps.len() - i - 1) as nat,
                    |k: int| (Line { a: mps[i as int], b: mps[i as int + 1 + k] }),
                ) =~= pair_row(mps, i as int));
                assert(mids@ == pair_prefix(mps, i as int + 1));
            }
            i = i + 1;
        }
        proof {
            assert(mids@ == pair_prefix(mps, mps.len() as int));
        }
        mids
    }

    /// The pruning pass: sorts the segments by weakly descending length
    /// (stably, so equal lengths keep their order) and keeps each segment
    /// exactly when it collides with none of the segments after it in that
    /// order. An empty input gives an empty output.
    pub fn prune_lines(lines: Vec<Line>) -> (pruned: Vec<Line>)
        requires
            all_lengths_fit(lines@),
            all_collisions_fit(lines@),
        ensures
            pruned@ == pruner_spec(lines@),
    {
        let sorted = sort_lines_desc(&lines);
        proof {
            lemma_sort_desc_spec(lines@);
            lemma_fits_same_contents(lines@, sorted@);
        }
        let mut pruned: Vec<Line> = Vec::new();
        let mut i: usize = 0;
        while i < sorted.len()
            invariant
                i <= sorted@.len(),
                sorted@ == sort_desc_spec(lines@),
                all_lengths_fit(sorted@),
                all_collisions_fit(sorted@),
                pruned@ == prune_prefix(sorted@, i as int),
            decreases sorted@.len() - i,
        {
            let line_i = sorted[i];
            let mut keep = true;
            let mut j: usize = i + 1;
            while j < sorted.len()
                invariant_except_break
                    i < sorted@.len(),
                    i + 1 <= j <= sorted@.len(),
                    all_collisions_fit(sorted@),
                    line_i == sorted@[i as int],
                    keep,
                    forall|t: int|
                        i < t < j ==> !crate::geometry::collides_spec(
                            sorted@[i as int],
                            #[trigger] sorted@[t],
                        ),
                ensures
                    keep == keep_at(sorted@, i as int),
                decreases sorted@.len() - j,
            {
                if line_i.collides(sorted[j]) {
                    keep = false;
                    proof {
                        assert(crate::geometry::collides_spec(sorted@[i as int], sorted@[j as int]));
                    }
                    break;
                }
                j = j + 1;
            }
            if keep {
                pruned.push(line_i);
            }
            i = i + 1;
        }
        pruned
    }
}

} // verus!
