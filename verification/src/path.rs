//! Runtime path following: resolving a travelled distance to a ground
//! position on the polyline of sampled track points.

use vstd::prelude::*;
use crate::geom::{Vec2i, in_range, dist, dist_spec, lerp, lerp_spec, lemma_lerp_ends,
    lemma_dist_spec_zero, DIST_LIMIT, DEN_LIMIT};

verus! {

/// A usable polyline: at least one point, all of them in scene range.
pub open spec fn polyline_wf(pts: Seq<Vec2i>) -> bool {
    pts.len() >= 1 && forall|i: int| 0 <= i < pts.len() ==> in_range(#[trigger] pts[i])
}

/// The summed rounded length of the first `k` polyline edges.
pub open spec fn poly_len_partial(pts: Seq<Vec2i>, k: int) -> int
    decreases k,
{
    if k <= 0 {
        0
    } else {
        poly_len_partial(pts, k - 1) + dist_spec(pts[k - 1], pts[k])
    }
}

/// The total rounded length of the polyline.
pub open spec fn poly_len_spec(pts: Seq<Vec2i>) -> int {
    poly_len_partial(pts, pts.len() - 1)
}

/// Partial polyline lengths are never negative and never shrink.
pub proof fn lemma_poly_len_monotone(pts: Seq<Vec2i>, a: int, b: int)
    requires
        0 <= a <= b,
    ensures
        0 <= poly_len_partial(pts, a) <= poly_len_partial(pts, b),
    decreases b,
{
    if b > 0 {
        if a == b {
            lemma_poly_len_monotone(pts, a - 1, b - 1);
        } else {
            lemma_poly_len_monotone(pts, a, b - 1);
        }
    }
}

/// The point the walk yields from vertex `i` with `d` distance still to
/// travel: the first edge longer than the remaining distance is
/// interpolated; a distance beyond the final vertex clamps there.
pub open spec fn poly_walk(pts: Seq<Vec2i>, i: int, d: int) -> Vec2i
    decreases pts.len() - i,
{
    if i < 0 || i >= pts.len() {
        Vec2i { x: 0, y: 0 }
    } else if i == pts.len() - 1 {
        pts[i]
    } else {
        let l = dist_spec(pts[i], pts[i + 1]);
        if d < l {
            lerp_spec(pts[i], pts[i + 1], d, l)
        } else {
            poly_walk(pts, i + 1, d - l)
        }
    }
}

/// The ground position `distance` along the polyline. Distances are clamped
/// into `[0, length]`: a negative distance resolves to the first vertex and
/// one beyond the total length to the last.
pub open spec fn poly_point_spec(pts: Seq<Vec2i>, distance: int) -> Vec2i {
    poly_walk(pts, 0, if distance < 0 { 0 } else { distance })
}

/// Resolves a travelled distance to a ground position: walks consecutive
/// vertex pairs, spending each edge's rounded length, and interpolates
/// within the first edge that covers the remainder. The distance is clamped
/// into the polyline: negative distances resolve to the first vertex, and
/// distances past the total length to the last.
pub fn track_point(points: &Vec<Vec2i>, distance: i64) -> (r: Vec2i)
    requires
        polyline_wf(points@),
    ensures
        r == poly_point_spec(points@, distance as int),
        in_range(r),
{
    let n = points.len();
    let mut d: i64 = if distance < 0 { 0 } else { distance };
    let ghost d0 = d as int;
    let mut i: usize = 0;
    while i + 1 < n
        invariant
            i < n,
            n == points@.len(),
            polyline_wf(points@),
            0 <= d,
            d0 == if distance < 0 { 0int } else { distance as int },
            poly_walk(points@, i as int, d as int) == poly_walk(points@, 0, d0),
        decreases n - i,
    {
        let l = dist(points[i], points[i + 1]);
        if d < l {
            return lerp(points[i], points[i + 1], d, l);
        }
        d = d - l;
        i = i + 1;
    }
    points[i]
}

/// Resolving a distance is deterministic: any two results of the walk over
/// the same polyline and distance are the same point.
pub proof fn lemma_track_point_deterministic(pts: Seq<Vec2i>, distance: int, r1: Vec2i, r2: Vec2i)
    requires
        r1 == poly_point_spec(pts, distance),
        r2 == poly_point_spec(pts, distance),
    ensures
        r1 == r2,
{
}

/// Distance zero resolves to the first vertex of the polyline.
pub proof fn lemma_track_point_zero(pts: Seq<Vec2i>)
    requires
        polyline_wf(pts),
    ensures
        poly_point_spec(pts, 0) == pts[0],
{
    lemma_poly_walk_zero(pts, 0);
}

/// With no distance left to spend, the walk stays at its vertex: later
/// zero-length edges can only pass between coincident points.
proof fn lemma_poly_walk_zero(pts: Seq<Vec2i>, i: int)
    requires
        polyline_wf(pts),
        0 <= i < pts.len(),
    ensures
        poly_walk(pts, i, 0) == pts[i],
    decreases pts.len() - i,
{
    if i < pts.len() - 1 {
        let l = dist_spec(pts[i], pts[i + 1]);
        if 0 < l {
            lemma_lerp_ends(pts[i], pts[i + 1], l);
        } else {
            assert(l >= 0);
            lemma_dist_spec_zero(pts[i], pts[i + 1]);
            lemma_poly_walk_zero(pts, i + 1);
        }
    }
}

/// A distance that lands exactly on a vertex boundary resolves to that
/// vertex: the walk has no gap or jump at edge ends.
pub proof fn lemma_track_point_boundary(pts: Seq<Vec2i>, k: int)
    requires
        polyline_wf(pts),
        0 <= k < pts.len(),
    ensures
        poly_point_spec(pts, poly_len_partial(pts, k)) == pts[k],
{
    lemma_poly_len_monotone(pts, 0, k);
    lemma_poly_walk_boundary(pts, 0, k);
}

/// Walking from vertex `i` with exactly the summed edge lengths between
/// `i` and `k` left to travel ends on vertex `k`.
proof fn lemma_poly_walk_boundary(pts: Seq<Vec2i>, i: int, k: int)
    requires
        polyline_wf(pts),
        0 <= i <= k < pts.len(),
    ensures
        poly_walk(pts, i, poly_len_partial(pts, k) - poly_len_partial(pts, i)) == pts[k],
    decreases k - i,
{
    let d = poly_len_partial(pts, k) - poly_len_partial(pts, i);
    if i == k {
        lemma_poly_walk_zero(pts, i);
    } else {
        let l = dist_spec(pts[i], pts[i + 1]);
        lemma_poly_len_monotone(pts, i + 1, k);
        assert(poly_len_partial(pts, i + 1) == poly_len_partial(pts, i) + l);
        assert(d >= l);
        lemma_poly_walk_boundary(pts, i + 1, k);
    }
}

} // verus!
