//! Cubic Bezier segments over fixed-point points: de Casteljau style
//! evaluation at rational parameters and sampled arc length.

use vstd::prelude::*;
use crate::geom::{Vec2i, in_range, lerp, lerp_spec, lerp1_spec, dist, dist_spec,
    DEN_LIMIT, DIST_LIMIT};
use crate::geom;

verus! {

/// A control point of the track description: an anchor position with the
/// two tangent handles of the curves that leave it.
#[derive(Clone, Copy, PartialEq, Eq, Structural, Debug)]
pub struct BezierPoint {
    pub left: Vec2i,
    pub right: Vec2i,
    pub pos: Vec2i,
}

/// All three points of a control point are in scene range.
pub open spec fn point_wf(p: BezierPoint) -> bool {
    in_range(p.left) && in_range(p.right) && in_range(p.pos)
}

impl Default for BezierPoint {
    /// A control point resting at the origin.
    fn default() -> (r: BezierPoint)
        ensures
            r.left == (Vec2i { x: 0, y: 0 }),
            r.right == (Vec2i { x: 0, y: 0 }),
            r.pos == (Vec2i { x: 0, y: 0 }),
    {
        let z = Vec2i { x: 0, y: 0 };
        BezierPoint { left: z, right: z, pos: z }
    }
}

impl BezierPoint {
    /// A control point whose handles coincide with its anchor.
    pub fn centered(p: Vec2i) -> (r: BezierPoint)
        ensures
            r.left == p,
            r.right == p,
            r.pos == p,
    {
        BezierPoint { left: p, right: p, pos: p }
    }

    pub fn right(&self) -> (r: Vec2i)
        ensures
            r == self.right,
    {
        self.right
    }

    pub fn left(&self) -> (r: Vec2i)
        ensures
            r == self.left,
    {
        self.left
    }

    pub fn pos(&self) -> (r: Vec2i)
        ensures
            r == self.pos,
    {
        self.pos
    }
}

/// One cubic Bezier segment: a start point, two interior control points and
/// an end point.
#[derive(Clone, Copy, PartialEq, Eq, Structural, Debug)]
pub struct BezierCurve {
    pub start: Vec2i,
    pub left: Vec2i,
    pub right: Vec2i,
    pub end: Vec2i,
}

/// All four points of a segment are in scene range.
pub open spec fn curve_wf(c: BezierCurve) -> bool {
    in_range(c.start) && in_range(c.left) && in_range(c.right) && in_range(c.end)
}

/// How a segment is built from two consecutive control points: it starts at
/// the first anchor, leaves along the first point's right handle, arrives
/// along the second point's left handle and ends at the second anchor.
pub open spec fn curve_of_points(start: BezierPoint, end: BezierPoint) -> BezierCurve {
    BezierCurve { start: start.pos, left: start.right, right: end.left, end: end.pos }
}

/// Two chained interpolations over three points at the same parameter.
pub open spec fn thlerp_spec(p0: Vec2i, p1: Vec2i, p2: Vec2i, num: int, den: int) -> Vec2i {
    lerp_spec(lerp_spec(p0, p1, num, den), lerp_spec(p1, p2, num, den), num, den)
}

/// The segment evaluated at the rational parameter `num / den`: the
/// interpolation of the two three-point interpolations, exactly as the
/// fixed-point code computes it.
#[verifier::opaque]
pub open spec fn curve_point_spec(c: BezierCurve, num: int, den: int) -> Vec2i {
    lerp_spec(
        thlerp_spec(c.start, c.left, c.right, num, den),
        thlerp_spec(c.left, c.right, c.end, num, den),
        num,
        den,
    )
}

impl BezierCurve {
    /// Builds the segment between two consecutive control points.
    pub fn new(start: BezierPoint, end: BezierPoint) -> (r: BezierCurve)
        ensures
            r == curve_of_points(start, end),
    {
        BezierCurve { start: start.pos(), left: start.right(), right: end.left(), end: end.pos() }
    }

    /// Evaluates the segment at the parameter `num / den` of `[0, 1]`.
    /// The ends of the parameter interval hit the segment's endpoints
    /// exactly.
    pub fn point(&self, num: i64, den: i64) -> (r: Vec2i)
        requires
            curve_wf(*self),
            1 <= den < DEN_LIMIT,
            0 <= num <= den,
        ensures
            r == curve_point_spec(*self, num as int, den as int),
            in_range(r),
            num == 0 ==> r == self.start,
            num == den ==> r == self.end,
    {
        proof {
            reveal(curve_point_spec);
        }
        let a = lerp(self.start, self.left, num, den);
        let b = lerp(self.left, self.right, num, den);
        let c = lerp(self.right, self.end, num, den);
        let ab = lerp(a, b, num, den);
        let bc = lerp(b, c, num, den);
        lerp(ab, bc, num, den)
    }
}

/// How many evenly spaced parameter steps the arc-length estimate takes.
pub const ARC_SAMPLES: i64 = 50;

/// An upper bound on any sampled arc length of an in-range segment.
pub const SEG_LEN_LIMIT: i64 = 157286400;

/// The sample point with index `k` of the arc-length walk.
pub open spec fn curve_sample(c: BezierCurve, k: int) -> Vec2i {
    curve_point_spec(c, k, ARC_SAMPLES as int)
}

/// The length of the sampled polyline up to sample `k`: the sum of the
/// rounded distances between consecutive samples.
pub open spec fn arc_len_partial(c: BezierCurve, k: int) -> int
    decreases k,
{
    if k <= 0 {
        0
    } else {
        arc_len_partial(c, k - 1) + dist_spec(curve_sample(c, k - 1), curve_sample(c, k))
    }
}

/// The sampled arc length of a segment.
pub open spec fn arc_len_spec(c: BezierCurve) -> int {
    arc_len_partial(c, ARC_SAMPLES as int)
}

/// Every curve point of a well-formed segment is in scene range.
pub proof fn lemma_curve_point_in_range(c: BezierCurve, num: int, den: int)
    requires
        curve_wf(c),
        0 < den,
        0 <= num <= den,
    ensures
        in_range(curve_point_spec(c, num, den)),
{
    reveal(curve_point_spec);
    geom::lemma_lerp_in_range(c.start, c.left, num, den);
    geom::lemma_lerp_in_range(c.left, c.right, num, den);
    geom::lemma_lerp_in_range(c.right, c.end, num, den);
    let a = lerp_spec(c.start, c.left, num, den);
    let b = lerp_spec(c.left, c.right, num, den);
    let d = lerp_spec(c.right, c.end, num, den);
    geom::lemma_lerp_in_range(a, b, num, den);
    geom::lemma_lerp_in_range(b, d, num, den);
    geom::lemma_lerp_in_range(lerp_spec(a, b, num, den), lerp_spec(b, d, num, den), num, den);
}

/// A segment evaluated at the ends of the parameter interval yields its
/// start and end points exactly.
pub proof fn lemma_curve_point_ends(c: BezierCurve, den: int)
    requires
        0 < den,
    ensures
        curve_point_spec(c, 0, den) == c.start,
        curve_point_spec(c, den, den) == c.end,
{
    reveal(curve_point_spec);
    geom::lemma_lerp_ends(c.start, c.left, den);
    geom::lemma_lerp_ends(c.left, c.right, den);
    geom::lemma_lerp_ends(c.right, c.end, den);
}

/// Partial arc lengths of a well-formed segment are never negative and grow
/// by less than `DIST_LIMIT` per sample.
pub proof fn lemma_arc_len_partial_bounds(c: BezierCurve, k: int)
    requires
        curve_wf(c),
        0 <= k <= ARC_SAMPLES as int,
    ensures
        0 <= arc_len_partial(c, k),
        arc_len_partial(c, k) <= k * DIST_LIMIT,
    decreases k,
{
    if k > 0 {
        lemma_arc_len_partial_bounds(c, k - 1);
        lemma_curve_point_in_range(c, k - 1, ARC_SAMPLES as int);
        lemma_curve_point_in_range(c, k, ARC_SAMPLES as int);
        geom::lemma_dist_bound(curve_sample(c, k - 1), curve_sample(c, k));
    }
}

impl BezierCurve {
    /// The sampled arc length of the segment: the sum of the distances
    /// between `ARC_SAMPLES + 1` evenly spaced curve samples. Never
    /// negative; zero for a segment whose samples all coincide.
    #[verifier::rlimit(100)]
    pub fn len(&self) -> (r: i64)
        requires
            curve_wf(*self),
        ensures
            r == arc_len_spec(*self),
            0 <= r < SEG_LEN_LIMIT,
    {
        let mut total: i64 = 0;
        let mut prev = self.point(0, ARC_SAMPLES);
        let mut k: i64 = 1;
        while k <= ARC_SAMPLES
            invariant
                1 <= k <= ARC_SAMPLES + 1,
                curve_wf(*self),
                prev == curve_sample(*self, k - 1),
                in_range(prev),
                total == arc_len_partial(*self, k - 1),
                0 <= total <= (k - 1) * 3145727,
            decreases ARC_SAMPLES + 1 - k,
        {
            let here = self.point(k, ARC_SAMPLES);
            let step = dist(prev, here);
            total = total + step;
            prev = here;
            k = k + 1;
        }
        proof {
            assert(50 * 3145727 < SEG_LEN_LIMIT);
        }
        total
    }
}

/// A segment whose four control points coincide keeps every sample at that
/// point, so its sampled arc length is exactly zero.
pub proof fn lemma_degenerate_arc_len(c: BezierCurve)
    requires
        c.left == c.start,
        c.right == c.start,
        c.end == c.start,
    ensures
        arc_len_spec(c) == 0,
{
    assert forall|k: int| 0 <= k <= ARC_SAMPLES as int implies curve_sample(c, k) == c.start by {
        reveal(curve_point_spec);
        lemma_lerp_self(c.start, k, ARC_SAMPLES as int);
    }
    lemma_degenerate_partial(c, ARC_SAMPLES as int);
}

/// Interpolating a point with itself returns it unchanged.
proof fn lemma_lerp_self(p: Vec2i, num: int, den: int)
    requires
        0 < den,
    ensures
        lerp_spec(p, p, num, den) == p,
{
    assert(p.x * (den - num) + p.x * num == p.x * den) by (nonlinear_arith);
    assert(p.y * (den - num) + p.y * num == p.y * den) by (nonlinear_arith);
    geom::lemma_mul_div_exact(p.x as int, den);
    geom::lemma_mul_div_exact(p.y as int, den);
}

proof fn lemma_degenerate_partial(c: BezierCurve, k: int)
    requires
        forall|j: int| 0 <= j <= k ==> curve_sample(c, j) == c.start,
    ensures
        arc_len_partial(c, k) == 0,
    decreases k,
{
    if k > 0 {
        lemma_degenerate_partial(c, k - 1);
        assert(dist_spec(curve_sample(c, k - 1), curve_sample(c, k)) == 0) by {
            assert(curve_sample(c, k - 1) == curve_sample(c, k));
            lemma_dist_self(curve_sample(c, k));
        }
    }
}

/// The rounded distance from a point to itself is zero.
pub proof fn lemma_dist_self(p: Vec2i)
    ensures
        dist_spec(p, p) == 0,
{
    assert(geom::sq_dist(p, p) == 0) by (nonlinear_arith);
}

/// An interpolation step whose span is an exact multiple of the
/// denominator lands without rounding.
proof fn lemma_lerp1_exact(a: int, m: int, num: int, den: int)
    requires
        0 < den,
    ensures
        lerp1_spec(a, a + m * den, num, den) == a + m * num,
{
    assert(a * (den - num) + (a + m * den) * num == (a + m * num) * den) by (nonlinear_arith);
    geom::lemma_mul_div_exact(a + m * num, den);
}

/// The floor square root of a perfect square is its root.
proof fn lemma_isqrt_perfect_square(t: int)
    requires
        0 <= t,
    ensures
        geom::isqrt_spec((t * t) as nat) == t,
{
    assert(t * t < (t + 1) * (t + 1)) by (nonlinear_arith)
        requires t >= 0;
    geom::lemma_isqrt_unique((t * t) as nat, t as nat);
}

/// A horizontal segment whose four control points are evenly spaced, a
/// whole sample step apart, is sampled without rounding: its arc length is
/// exactly the distance between its endpoints. One instance of the wider
/// convergence story that survives the fixed-point rounding intact.
pub proof fn lemma_straight_line_arc_len(c: BezierCurve, m: int)
    requires
        curve_wf(c),
        c.left.y == c.start.y,
        c.right.y == c.start.y,
        c.end.y == c.start.y,
        c.left.x == c.start.x + 50 * m,
        c.right.x == c.start.x + 100 * m,
        c.end.x == c.start.x + 150 * m,
    ensures
        arc_len_spec(c) == dist_spec(c.start, c.end),
{
    let x0 = c.start.x as int;
    let y0 = c.start.y;
    let am: int = if m < 0 { -m } else { m };
    assert forall|k: int| 0 <= k <= 50 implies #[trigger] curve_sample(c, k)
        == (Vec2i { x: (c.start.x + 3 * (m * k)) as i64, y: c.start.y }) by {
        reveal(curve_point_spec);
        lemma_straight_coord_bounds(x0, m, k);
        lemma_lerp1_exact(x0, m, k, 50);
        lemma_lerp1_exact(x0 + 50 * m, m, k, 50);
        lemma_lerp1_exact(x0 + 100 * m, m, k, 50);
        lemma_lerp1_exact(y0 as int, 0, k, 50);
        let a = x0 + m * k;
        let b = x0 + 50 * m + m * k;
        assert(b == a + m * 50);
        lemma_lerp1_exact(a, m, k, 50);
        lemma_lerp1_exact(b, m, k, 50);
        let ab = a + m * k;
        let bc = b + m * k;
        assert(bc == ab + m * 50);
        lemma_lerp1_exact(ab, m, k, 50);
    }
    lemma_straight_partial(c, m, am, 50);
    assert((c.end.x as int) - (c.start.x as int) == 150 * m);
    assert((c.start.x - c.end.x) * (c.start.x - c.end.x) == (150 * am) * (150 * am))
        by (nonlinear_arith)
        requires (c.end.x as int) - (c.start.x as int) == 150 * m,
            am == if m < 0 { -m } else { m };
    assert((c.start.y - c.end.y) * (c.start.y - c.end.y) == 0) by (nonlinear_arith)
        requires c.start.y == c.end.y;
    assert(geom::sq_dist(c.start, c.end) == (150 * am) * (150 * am));
    lemma_isqrt_perfect_square(150 * am);
    assert(arc_len_spec(c) == 50 * (3 * am));
    assert(50 * (3 * am) == 150 * am) by (nonlinear_arith);
}

/// Every coordinate a straight-line sample walk touches stays between the
/// segment's in-range endpoints.
proof fn lemma_straight_coord_bounds(x0: int, m: int, k: int)
    requires
        0 <= k <= 50,
        -1048576 <= x0 <= 1048576,
        -1048576 <= x0 + 150 * m <= 1048576,
    ensures
        -1048576 <= x0 + m * k <= 1048576,
        -1048576 <= x0 + 50 * m + m * k <= 1048576,
        -1048576 <= x0 + 100 * m + m * k <= 1048576,
        -1048576 <= x0 + m * k + m * k <= 1048576,
        -1048576 <= x0 + 50 * m + m * k + m * k <= 1048576,
        -1048576 <= x0 + m * k + m * k + m * k <= 1048576,
        -1048576 <= x0 + 3 * (m * k) <= 1048576,
{
    assert((-1048576 <= x0 + m * k <= 1048576)
        && (-1048576 <= x0 + 50 * m + m * k <= 1048576)
        && (-1048576 <= x0 + 100 * m + m * k <= 1048576)
        && (-1048576 <= x0 + m * k + m * k <= 1048576)
        && (-1048576 <= x0 + 50 * m + m * k + m * k <= 1048576)
        && (-1048576 <= x0 + m * k + m * k + m * k <= 1048576)) by (nonlinear_arith)
        requires 0 <= k <= 50, -1048576 <= x0 <= 1048576,
            -1048576 <= x0 + 150 * m <= 1048576;
}

/// Sums the constant straight-line sample steps.
proof fn lemma_straight_partial(c: BezierCurve, m: int, am: int, k: int)
    requires
        0 <= k <= 50,
        am == if m < 0 { -m } else { m },
        forall|j: int| 0 <= j <= 50 ==> #[trigger] curve_sample(c, j)
            == (Vec2i { x: (c.start.x + 3 * (m * j)) as i64, y: c.start.y }),
        curve_wf(c),
        -1048576 <= c.start.x + 150 * m <= 1048576,
    ensures
        arc_len_partial(c, k) == k * (3 * am),
    decreases k,
{
    if k > 0 {
        lemma_straight_partial(c, m, am, k - 1);
        let p = curve_sample(c, k - 1);
        let q = curve_sample(c, k);
        lemma_straight_coord_bounds(c.start.x as int, m, k - 1);
        lemma_straight_coord_bounds(c.start.x as int, m, k);
        assert(m * (k - 1) == m * k - m) by (nonlinear_arith);
        assert((q.x as int) - (p.x as int) == 3 * m);
        assert((p.x - q.x) * (p.x - q.x) == (3 * am) * (3 * am)) by (nonlinear_arith)
            requires (q.x as int) - (p.x as int) == 3 * m,
                am == if m < 0 { -m } else { m };
        assert((p.y - q.y) * (p.y - q.y) == 0) by (nonlinear_arith)
            requires p.y == q.y;
        assert(geom::sq_dist(p, q) == (3 * am) * (3 * am));
        lemma_isqrt_perfect_square(3 * am);
        assert(dist_spec(p, q) == 3 * am);
        assert((k - 1) * (3 * am) + 3 * am == k * (3 * am)) by (nonlinear_arith);
    } else {
        assert(k * (3 * am) == 0) by (nonlinear_arith)
            requires k == 0;
    }
}

} // verus!
