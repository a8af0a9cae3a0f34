//! Geometric primitives: points, line segments, and axis-aligned rectangles
//! over signed 16-bit integer coordinates.

use vstd::prelude::*;

verus! {

/// Whether the mathematical integer x fits in the coordinate type i16.
pub open spec fn fits_i16(x: int) -> bool {
    i16::MIN <= x <= i16::MAX
}

/// Sign of an integer: 1, -1 or 0.
pub open spec fn sgn(x: int) -> int {
    if x > 0 {
        1
    } else if x < 0 {
        -1
    } else {
        0
    }
}

/// Integer square root, floor-valued: the greatest r with r * r <= n
/// (and 0 for negative n). This is the truncation policy chosen for
/// segment lengths: the exact Euclidean length is rounded down to the
/// coordinate type.
pub open spec fn isqrt_spec(n: int) -> int
    decreases n,
{
    if n < 1 {
        0
    } else {
        let r = isqrt_spec(n - 1);
        if (r + 1) * (r + 1) <= n {
            r + 1
        } else {
            r
        }
    }
}

/// isqrt_spec(n) is the floor of the square root of n.
pub proof fn lemma_isqrt_bounds(n: int)
    requires
        n >= 0,
    ensures
        isqrt_spec(n) >= 0,
        isqrt_spec(n) * isqrt_spec(n) <= n,
        n < (isqrt_spec(n) + 1) * (isqrt_spec(n) + 1),
    decreases n,
{
    if n == 0 {
    } else {
        lemma_isqrt_bounds(n - 1);
        let r = isqrt_spec(n - 1);
        if (r + 1) * (r + 1) <= n {
            assert((r + 2) * (r + 2) > n) by (nonlinear_arith)
                requires
                    r >= 0,
                    n - 1 < (r + 1) * (r + 1),
                    (r + 1) * (r + 1) <= n,
            ;
        }
    }
}

/// A non-negative r whose square brackets n is exactly isqrt_spec(n).
pub proof fn lemma_isqrt_unique(n: int, r: int)
    requires
        n >= 0,
        r >= 0,
        r * r <= n,
        n < (r + 1) * (r + 1),
    ensures
        r == isqrt_spec(n),
{
    lemma_isqrt_bounds(n);
    let q = isqrt_spec(n);
    assert(r == q) by (nonlinear_arith)
        requires
            r >= 0,
            q >= 0,
            r * r <= n,
            n < (r + 1) * (r + 1),
            q * q <= n,
            n < (q + 1) * (q + 1),
    ;
}

/// Integer square root of n <= 32767, by linear search from 0.
fn isqrt_u16(n: u16) -> (r: u16)
    requires
        n <= 32767,
    ensures
        r as int == isqrt_spec(n as int),
        r <= 181,
{
    let mut r: u16 = 0;
    loop
        invariant
            n <= 32767,
            r <= 181,
            r as int * r as int <= n as int,
        ensures
            r <= 181,
            r as int * r as int <= n as int,
            (n as int) < (r as int + 1) * (r as int + 1),
        decreases 182 - r as int,
    {
        let next = r + 1;
        proof {
            assert(next as int * next as int <= 33124) by (nonlinear_arith)
                requires
                    0 <= next as int <= 182,
            ;
        }
        let sq = next * next;
        if sq <= n {
            proof {
                assert(next as int <= 181) by (nonlinear_arith)
                    requires
                        next as int >= 1,
                        next as int * next as int <= 32767,
                ;
            }
            r = next;
        } else {
            break;
        }
    }
    proof {
        lemma_isqrt_unique(n as int, r as int);
    }
    r
}

/// Truncating halving: s / 2 rounded toward zero, the policy chosen for
/// midpoint coordinates.
pub open spec fn div2_trunc(s: int) -> int {
    if s >= 0 {
        s / 2
    } else {
        -((-s) / 2)
    }
}

/// The average of two coordinates, rounded toward zero.
fn mid_coord(a: i16, b: i16) -> (m: i16)
    requires
        fits_i16(a + b),
    ensures
        m as int == div2_trunc(a + b),
{
    let s: i32 = a as i32 + b as i32;
    if s >= 0 {
        let q: u32 = (s as u32) / 2;
        q as i16
    } else {
        let q: u32 = ((-s) as u32) / 2;
        let qi: i32 = q as i32;
        (-qi) as i16
    }
}

/// A 2D point with signed integer coordinates.
#[derive(Copy, Clone, Debug, PartialEq, Eq, PartialOrd, Ord, Structural)]
pub struct Point {
    pub x: i16,
    pub y: i16,
}

impl Point {
    /// Builds the point (x, y).
    #[inline]
    pub fn new(x: i16, y: i16) -> (p: Point)
        ensures
            p == (Point { x, y }),
    {
        Point { x, y }
    }
}

/// A line segment given by its two endpoints. The two endpoints may
/// coincide; such a degenerate, zero-length segment is not forbidden.
#[derive(Copy, Clone, Debug, PartialEq, Eq, PartialOrd, Ord, Structural)]
pub struct Line {
    pub a: Point,
    pub b: Point,
}

impl Line {
    /// Builds the segment from (x0, y0) to (x1, y1).
    #[inline]
    pub fn new_from_coords(x0: i16, y0: i16, x1: i16, y1: i16) -> (l: Line)
        ensures
            l == (Line { a: Point { x: x0, y: y0 }, b: Point { x: x1, y: y1 } }),
    {
        Line::new(Point::new(x0, y0), Point::new(x1, y1))
    }

    /// Builds the segment from a to b.
    #[inline]
    pub fn new(a: Point, b: Point) -> (l: Line)
        ensures
            l == (Line { a, b }),
    {
        Line { a, b }
    }

    /// Whether l1 and l2 collide: the orientation scalars of l2's two
    /// endpoints against l1 are equal.
    #[inline]
    pub fn collides_static(l1: Line, l2: Line) -> (c: bool)
        requires
            collision_fits(l1, l2),
        ensures
            c == collides_spec(l1, l2),
    {
        Line::cross_signum_static(l1, l2.a) == Line::cross_signum_static(l1, l2.b)
    }

    /// The orientation scalar of p against l; see cross_spec.
    #[inline]
    pub fn cross_signum_static(l: Line, p: Point) -> (r: i16)
        requires
            cross_fits(l, p),
        ensures
            r as int == cross_spec(l, p),
    {
        let dx = l.a.x - l.b.x;
        let ty = p.y - l.a.y;
        let prod1 = dx * ty;
        let dy = l.a.y - l.b.y;
        let s = p.y - l.a.x;
        let sg: i16 = if s > 0 {
            1
        } else if s < 0 {
            -1
        } else {
            0
        };
        let prod2 = dy * sg;
        prod1 - prod2
    }

    /// The length of l, rounded down to the coordinate type; see
    /// length_spec.
    pub fn length_static(l: Line) -> (len: i16)
        requires
            length_fits(l),
        ensures
            len as int == length_spec(l),
            0 <= len <= 181,
    {
        let dx = l.a.x - l.b.x;
        let dy = l.a.y - l.b.y;
        let dx2 = dx * dx;
        let dy2 = dy * dy;
        proof {
            assert(dx as int * dx as int >= 0 && dy as int * dy as int >= 0)
                by (nonlinear_arith);
        }
        let sum = dx2 + dy2;
        let r = isqrt_u16(sum as u16);
        r as i16
    }

    /// The midpoint of l, each coordinate rounded toward zero; see
    /// mid_spec.
    #[inline]
    pub fn mid_point_static(l: Line) -> (m: Point)
        requires
            mid_fits(l),
        ensures
            m == mid_spec(l),
    {
        Point::new(mid_coord(l.a.x, l.b.x), mid_coord(l.a.y, l.b.y))
    }

    /// Whether self collides with other; see collides_spec.
    #[inline]
    pub fn collides(&self, other: Line) -> (c: bool)
        requires
            collision_fits(*self, other),
        ensures
            c == collides_spec(*self, other),
    {
        Line::collides_static(*self, other)
    }

    /// The length of self; see length_spec.
    #[inline]
    pub fn length(&self) -> (len: i16)
        requires
            length_fits(*self),
        ensures
            len as int == length_spec(*self),
            0 <= len <= 181,
    {
        Line::length_static(*self)
    }

    /// The midpoint of self; see mid_spec.
    #[inline]
    pub fn mid_point(&self) -> (m: Point)
        requires
            mid_fits(*self),
        ensures
            m == mid_spec(*self),
    {
        Line::mid_point_static(*self)
    }
}

/// The orientation scalar of point p against line l: a cross-product-like
/// term minus a signum term. The signum term reads p.y against l.a.x, a
/// mixing of coordinates kept deliberately: the pruning pass is defined by
/// exactly this scalar, so it is reproduced as it stands rather than
/// replaced by a standard orientation test.
pub open spec fn cross_spec(l: Line, p: Point) -> int {
    (l.a.x - l.b.x) * (p.y - l.a.y) - (l.a.y - l.b.y) * sgn(p.y - l.a.x)
}

/// Whether every intermediate value of the orientation scalar of p
/// against l fits in the coordinate type, so that the computation cannot
/// overflow.
pub open spec fn cross_fits(l: Line, p: Point) -> bool {
    &&& fits_i16(l.a.x - l.b.x)
    &&& fits_i16(p.y - l.a.y)
    &&& fits_i16((l.a.x - l.b.x) * (p.y - l.a.y))
    &&& fits_i16(l.a.y - l.b.y)
    &&& fits_i16(p.y - l.a.x)
    &&& fits_i16((l.a.y - l.b.y) * sgn(p.y - l.a.x))
    &&& fits_i16(cross_spec(l, p))
}

/// Two segments collide exactly when the orientation scalars of the second
/// segment's two endpoints against the first segment are equal.
pub open spec fn collides_spec(l1: Line, l2: Line) -> bool {
    cross_spec(l1, l2.a) == cross_spec(l1, l2.b)
}

/// Whether the collision test of l2 against l1 is free of overflow.
pub open spec fn collision_fits(l1: Line, l2: Line) -> bool {
    cross_fits(l1, l2.a) && cross_fits(l1, l2.b)
}

/// Whether the length computation of l is free of overflow: the two
/// coordinate differences, their squares and the sum of the squares all
/// fit in the coordinate type.
pub open spec fn length_fits(l: Line) -> bool {
    &&& fits_i16(l.a.x - l.b.x)
    &&& fits_i16(l.a.y - l.b.y)
    &&& fits_i16((l.a.x - l.b.x) * (l.a.x - l.b.x))
    &&& fits_i16((l.a.y - l.b.y) * (l.a.y - l.b.y))
    &&& fits_i16(
        (l.a.x - l.b.x) * (l.a.x - l.b.x) + (l.a.y - l.b.y) * (l.a.y - l.b.y),
    )
}

/// The length of a segment: the Euclidean distance between its endpoints,
/// rounded down to the coordinate type.
pub open spec fn length_spec(l: Line) -> int {
    isqrt_spec(
        (l.a.x - l.b.x) * (l.a.x - l.b.x) + (l.a.y - l.b.y) * (l.a.y - l.b.y),
    )
}

/// Whether the midpoint computation of l is free of overflow.
pub open spec fn mid_fits(l: Line) -> bool {
    fits_i16(l.a.x + l.b.x) && fits_i16(l.a.y + l.b.y)
}

/// The midpoint of a segment: each coordinate is the average of the two
/// endpoint coordinates, rounded toward zero.
pub open spec fn mid_spec(l: Line) -> Point {
    Point {
        x: div2_trunc(l.a.x + l.b.x) as i16,
        y: div2_trunc(l.a.y + l.b.y) as i16,
    }
}

/// An axis-aligned rectangular region, stored as the segment joining two
/// opposite corners.
#[derive(Copy, Clone, Debug)]
pub struct Rect {
    pub corners: Line,
}

impl Rect {
    /// Builds the rectangle with corners (x0, y0) and (x1, y1).
    #[inline]
    pub fn new_from_coords(x0: i16, y0: i16, x1: i16, y1: i16) -> (r: Rect)
        ensures
            r.corners == (Line { a: Point { x: x0, y: y0 }, b: Point { x: x1, y: y1 } }),
    {
        Rect::new(Line::new_from_coords(x0, y0, x1, y1))
    }

    /// Builds the rectangle with corners p0 and p1.
    #[inline]
    pub fn new_from_points(p0: Point, p1: Point) -> (r: Rect)
        ensures
            r.corners == (Line { a: p0, b: p1 }),
    {
        Rect::new(Line::new(p0, p1))
    }

    /// Builds the rectangle from the segment joining two opposite corners.
    #[inline]
    pub fn new(corners: Line) -> (r: Rect)
        ensures
            r.corners == corners,
    {
        Rect { corners }
    }

    /// The x coordinate of the first corner.
    #[inline]
    pub fn get_x0(&self) -> (c: i16)
        ensures
            c == self.corners.a.x,
    {
        self.corners.a.x
    }

    /// The x coordinate of the second corner.
    #[inline]
    pub fn get_x1(&self) -> (c: i16)
        ensures
            c == self.corners.b.x,
    {
        self.corners.b.x
    }

    /// The y coordinate of the first corner.
    #[inline]
    pub fn get_y0(&self) -> (c: i16)
        ensures
            c == self.corners.a.y,
    {
        self.corners.a.y
    }

    /// The y coordinate of the second corner.
    #[inline]
    pub fn get_y1(&self) -> (c: i16)
        ensures
            c == self.corners.b.y,
    {
        self.corners.b.y
    }
}

} // verus!
