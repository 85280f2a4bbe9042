//! The track: an ordered run of Bezier segments built from consecutive
//! control points, walked by arc-length fraction.

use vstd::prelude::*;
use vstd::arithmetic::mul::{lemma_mul_inequality, lemma_mul_is_commutative,
    lemma_mul_nonnegative};
use vstd::arithmetic::div_mod::{lemma_div_is_ordered, lemma_fundamental_div_mod_converse};
use crate::geom::{Vec2i, in_range, div_floor};
use crate::geom;
use crate::curve::{BezierCurve, BezierPoint, curve_wf, point_wf, curve_of_points,
    curve_point_spec, arc_len_spec, lemma_curve_point_ends, lemma_arc_len_partial_bounds,
    SEG_LEN_LIMIT, ARC_SAMPLES};

verus! {

/// The most segments a track may carry; keeps every cumulative length
/// comfortably inside `i64`.
pub const MAX_SEGMENTS: usize = 4096;

/// An upper bound on the total sampled length of any well-formed track:
/// `MAX_SEGMENTS * SEG_LEN_LIMIT`.
pub const TRACK_LEN_LIMIT: i64 = 644245094400;

/// The greatest denominator accepted for a track parameter fraction.
pub const PARAM_LIMIT: i64 = 1048576;

/// Why a track could not be built.
#[derive(Clone, Copy, PartialEq, Eq, Structural, Debug)]
pub enum TrackError {
    /// Fewer control points were supplied than the requested segment count
    /// needs: `n` segments take `n + 1` points.
    NotEnoughPoints,
}

/// An ordered run of connected cubic Bezier segments.
#[derive(Clone, Debug)]
pub struct Track {
    pub segments: Vec<BezierCurve>,
}

impl Default for Track {
    /// A track of `TRACK_SEGMENTS` degenerate segments resting at the
    /// origin, as an empty scene carries it.
    fn default() -> (r: Track)
        ensures
            r.wf(),
            r.segments@.len() == crate::art::TRACK_SEGMENTS,
            forall|i: int| 0 <= i < r.segments@.len()
                ==> #[trigger] r.segments@[i] == crate::art::zero_curve(),
    {
        let z = Vec2i { x: 0, y: 0 };
        let seg = BezierCurve { start: z, left: z, right: z, end: z };
        let mut segments: Vec<BezierCurve> = Vec::new();
        segments.push(seg);
        segments.push(seg);
        segments.push(seg);
        Track { segments }
    }
}

/// Every segment of a well-formed sequence is made of in-range points.
pub open spec fn segs_wf(segs: Seq<BezierCurve>) -> bool {
    forall|i: int| 0 <= i < segs.len() ==> curve_wf(#[trigger] segs[i])
}

/// The summed arc length of the first `k` segments.
pub open spec fn track_len_partial(segs: Seq<BezierCurve>, k: int) -> int
    decreases k,
{
    if k <= 0 {
        0
    } else {
        track_len_partial(segs, k - 1) + arc_len_spec(segs[k - 1])
    }
}

/// The summed arc length of the whole track.
pub open spec fn track_len_spec(t: Track) -> int {
    track_len_partial(t.segments@, t.segments@.len() as int)
}

/// The point the walk yields starting at segment `i` with `target` length
/// still to travel: the first segment of positive length whose span covers
/// the remaining target is evaluated at the matching local fraction;
/// a target beyond every remaining span clamps to the final segment's end
/// point.
pub open spec fn walk_point(segs: Seq<BezierCurve>, i: int, target: int) -> Vec2i
    decreases segs.len() - i,
{
    if i < 0 || i >= segs.len() {
        Vec2i { x: 0, y: 0 }
    } else {
        let l = arc_len_spec(segs[i]);
        if l > 0 && target <= l {
            curve_point_spec(segs[i], target, l)
        } else if i == segs.len() - 1 {
            segs[i].end
        } else {
            walk_point(segs, i + 1, target - l)
        }
    }
}

/// The distance along the track that the fraction `num / den` stands for.
pub open spec fn track_target(t: Track, num: int, den: int) -> int {
    num * track_len_spec(t) / den
}

/// The point of the track at the fraction `num / den` of its total length.
pub open spec fn track_point_spec(t: Track, num: int, den: int) -> Vec2i {
    walk_point(t.segments@, 0, track_target(t, num, den))
}

impl Track {
    /// Well-formed tracks hold at most `MAX_SEGMENTS` segments, all of them
    /// made of in-range points.
    pub open spec fn wf(self) -> bool {
        self.segments@.len() <= MAX_SEGMENTS && segs_wf(self.segments@)
    }

    /// Builds the track with `n` segments from `n + 1` consecutive control
    /// points: segment `i` runs from anchor `i` to anchor `i + 1`, leaving
    /// along the right handle and arriving along the left one. Reports an
    /// error, and builds nothing, when fewer points are supplied.
    pub fn from_points(points: &Vec<BezierPoint>, n: usize) -> (r: Result<Track, TrackError>)
        requires
            n <= MAX_SEGMENTS,
            forall|i: int| 0 <= i < points@.len() ==> point_wf(#[trigger] points@[i]),
        ensures
            match r {
                Ok(t) => {
                    &&& points@.len() >= n + 1
                    &&& t.wf()
                    &&& t.segments@.len() == n
                    &&& forall|i: int| 0 <= i < n ==>
                        #[trigger] t.segments@[i] == curve_of_points(points@[i], points@[i + 1])
                    &&& forall|i: int| 0 <= i < n ==>
                        (#[trigger] t.segments@[i]).start == points@[i].pos
                },
                Err(e) => points@.len() < n + 1 && e == TrackError::NotEnoughPoints,
            },
    {
        if points.len() < n + 1 {
            return Err(TrackError::NotEnoughPoints);
        }
        let mut segments: Vec<BezierCurve> = Vec::new();
        let mut i: usize = 0;
        while i < n
            invariant
                i <= n,
                n + 1 <= points@.len(),
                forall|j: int| 0 <= j < points@.len() ==> point_wf(#[trigger] points@[j]),
                segments@.len() == i,
                forall|j: int| 0 <= j < i ==>
                    #[trigger] segments@[j] == curve_of_points(points@[j], points@[j + 1]),
            decreases n - i,
        {
            let seg = BezierCurve::new(points[i], points[i + 1]);
            segments.push(seg);
            i = i + 1;
        }
        assert forall|j: int| 0 <= j < n implies curve_wf(#[trigger] segments@[j]) by {
            assert(segments@[j] == curve_of_points(points@[j], points@[j + 1]));
            assert(point_wf(points@[j]) && point_wf(points@[j + 1]));
        }
        Ok(Track { segments })
    }

    /// The total sampled length of the track: the sum of the segments'
    /// sampled arc lengths. Never negative.
    pub fn len(&self) -> (r: i64)
        requires
            self.wf(),
        ensures
            r == track_len_spec(*self),
            0 <= r <= TRACK_LEN_LIMIT,
    {
        let n = self.segments.len();
        let mut total: i64 = 0;
        let mut i: usize = 0;
        while i < n
            invariant
                i <= n,
                n == self.segments@.len(),
                self.wf(),
                total == track_len_partial(self.segments@, i as int),
                0 <= total <= (i as int) * 157286400,
                n <= 4096,
            decreases n - i,
        {
            let l = self.segments[i].len();
            total = total + l;
            i = i + 1;
        }
        proof {
            assert(4096 * 157286400 == TRACK_LEN_LIMIT);
        }
        total
    }

    /// The track point at the fraction `num / den` of the total length.
    /// Walks the segments in order, spending each segment's sampled length
    /// before moving on; zero-length segments are passed over, and a
    /// fraction that no segment's span covers clamps to the final segment's
    /// end point.
    #[verifier::rlimit(100)]
    pub fn point(&self, num: i64, den: i64) -> (r: Vec2i)
        requires
            self.wf(),
            self.segments@.len() > 0,
            1 <= den <= PARAM_LIMIT,
            0 <= num <= den,
        ensures
            r == track_point_spec(*self, num as int, den as int),
            in_range(r),
    {
        let total = self.len();
        proof {
            lemma_target_bounds(num as int, den as int, total as int);
        }
        let target0 = div_floor(num * total, den);
        let n = self.segments.len();
        let mut i: usize = 0;
        let mut tgt = target0;
        while i + 1 < n
            invariant
                i < n,
                n == self.segments@.len(),
                self.wf(),
                0 <= tgt <= TRACK_LEN_LIMIT,
                target0 as int == track_target(*self, num as int, den as int),
                walk_point(self.segments@, i as int, tgt as int)
                    == walk_point(self.segments@, 0, target0 as int),
            decreases n - i,
        {
            let l = self.segments[i].len();
            if l > 0 && tgt <= l {
                return self.segments[i].point(tgt, l);
            }
            tgt = tgt - l;
            i = i + 1;
        }
        let l = self.segments[i].len();
        if l > 0 && tgt <= l {
            self.segments[i].point(tgt, l)
        } else {
            self.segments[i].end
        }
    }
}

/// The scaled target distance of a fraction of `[0, 1]` lies between zero
/// and the total length.
proof fn lemma_target_bounds(num: int, den: int, total: int)
    requires
        1 <= den,
        0 <= num <= den <= PARAM_LIMIT,
        0 <= total <= TRACK_LEN_LIMIT,
    ensures
        0 <= num * total / den <= total,
        num * total <= 0x2000000000000000,
{
    assert(num * total <= 0x2000000000000000) by (nonlinear_arith)
        requires 0 <= num <= 1048576, 0 <= total <= 644245094400;
    lemma_mul_nonnegative(num, total);
    lemma_mul_inequality(num, den, total);
    lemma_mul_is_commutative(den, total);
    geom::lemma_mul_div_exact(total, den);
    lemma_div_is_ordered(0, num * total, den);
    lemma_div_is_ordered(num * total, den * total, den);
    lemma_fundamental_div_mod_converse(0, den, 0, 0);
}

/// The walk started at the fraction 0 of a track whose first segment has
/// positive sampled length lands exactly on that segment's start point.
pub proof fn lemma_track_point_at_zero(t: Track, den: int)
    requires
        t.wf(),
        t.segments@.len() > 0,
        0 < den,
        arc_len_spec(t.segments@[0]) > 0,
    ensures
        track_point_spec(t, 0, den) == t.segments@[0].start,
{
    assert(0 * track_len_spec(t) == 0) by (nonlinear_arith);
    lemma_fundamental_div_mod_converse(0, den, 0, 0);
    assert(track_target(t, 0, den) == 0);
    lemma_curve_point_ends(t.segments@[0], arc_len_spec(t.segments@[0]));
}

/// The walk started at the fraction 1 of a track whose last segment has
/// positive sampled length lands exactly on that segment's end point.
pub proof fn lemma_track_point_at_one(t: Track, den: int)
    requires
        t.wf(),
        t.segments@.len() > 0,
        0 < den,
        arc_len_spec(t.segments@.last()) > 0,
    ensures
        track_point_spec(t, den, den) == t.segments@.last().end,
{
    let segs = t.segments@;
    let total = track_len_spec(t);
    lemma_mul_is_commutative(den, total);
    geom::lemma_mul_div_exact(total, den);
    assert(track_target(t, den, den) == total);
    lemma_walk_to_end(segs, 0);
}

/// Walking with exactly the remaining suffix length as the target ends on
/// the last segment's end point, provided that segment has positive length.
proof fn lemma_walk_to_end(segs: Seq<BezierCurve>, i: int)
    requires
        segs_wf(segs),
        segs.len() <= MAX_SEGMENTS,
        0 <= i < segs.len(),
        arc_len_spec(segs.last()) > 0,
    ensures
        walk_point(segs, i, track_len_partial(segs, segs.len() as int)
            - track_len_partial(segs, i)) == segs.last().end,
    decreases segs.len() - i,
{
    let n = segs.len() as int;
    let target = track_len_partial(segs, n) - track_len_partial(segs, i);
    let l = arc_len_spec(segs[i]);
    if i == n - 1 {
        assert(target == l);
        lemma_curve_point_ends(segs[i], l);
    } else {
        lemma_partial_monotone(segs, i + 1, n - 1);
        lemma_arc_len_partial_bounds(segs[i], ARC_SAMPLES as int);
        assert(track_len_partial(segs, n) == track_len_partial(segs, n - 1)
            + arc_len_spec(segs[n - 1]));
        assert(target - l == track_len_partial(segs, n) - track_len_partial(segs, i + 1));
        assert(target > l);
        lemma_walk_to_end(segs, i + 1);
    }
}

/// Partial track lengths grow with the prefix they sum.
proof fn lemma_partial_monotone(segs: Seq<BezierCurve>, a: int, b: int)
    requires
        segs_wf(segs),
        0 <= a <= b <= segs.len(),
    ensures
        track_len_partial(segs, a) <= track_len_partial(segs, b),
    decreases b - a,
{
    if a < b {
        lemma_partial_monotone(segs, a, b - 1);
        lemma_arc_len_partial_bounds(segs[b - 1], ARC_SAMPLES as int);
    }
}

} // verus!
