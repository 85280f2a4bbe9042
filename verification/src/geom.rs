//! Fixed-point plane geometry: bounded integer vectors, floor division,
//! integer square roots and Euclidean distances. Everything downstream
//! (curves, tracks, car placement) is built on these primitives.

use vstd::prelude::*;
use vstd::arithmetic::div_mod::{lemma_div_is_ordered, lemma_fundamental_div_mod,
    lemma_fundamental_div_mod_converse};
use vstd::arithmetic::mul::lemma_mul_inequality;
use crate::COORD_LIMIT;

verus! {

/// Denominators of interpolation fractions stay below this bound so that
/// `coordinate * denominator` fits comfortably in `i64`.
pub const DEN_LIMIT: i64 = 0x80000000;

/// Distances may also be taken between rail-quad corners, which sit a
/// little outside the scene range; this wider bound covers them.
pub const WIDE_LIMIT: i64 = 16777216;

/// A plane point or direction in fixed-point milliunits.
#[derive(Clone, Copy, PartialEq, Eq, Structural, Debug)]
pub struct Vec2i {
    pub x: i64,
    pub y: i64,
}

/// Scene coordinates the library computes with: bounded so that squared
/// distances and interpolation products never overflow `i64`.
pub open spec fn in_range(v: Vec2i) -> bool {
    -COORD_LIMIT <= v.x <= COORD_LIMIT && -COORD_LIMIT <= v.y <= COORD_LIMIT
}

impl Vec2i {
    pub fn new(x: i64, y: i64) -> (r: Vec2i)
        ensures
            r.x == x,
            r.y == y,
    {
        Vec2i { x, y }
    }

    /// Componentwise sum.
    pub fn add(self, other: Vec2i) -> (r: Vec2i)
        requires
            self.x + other.x <= i64::MAX,
            self.x + other.x >= i64::MIN,
            self.y + other.y <= i64::MAX,
            self.y + other.y >= i64::MIN,
        ensures
            r.x == self.x + other.x,
            r.y == self.y + other.y,
    {
        Vec2i { x: self.x + other.x, y: self.y + other.y }
    }

    /// Componentwise difference.
    pub fn sub(self, other: Vec2i) -> (r: Vec2i)
        requires
            self.x - other.x <= i64::MAX,
            self.x - other.x >= i64::MIN,
            self.y - other.y <= i64::MAX,
            self.y - other.y >= i64::MIN,
        ensures
            r.x == self.x - other.x,
            r.y == self.y - other.y,
    {
        Vec2i { x: self.x - other.x, y: self.y - other.y }
    }

    /// The perpendicular of a direction, a quarter turn counter-clockwise:
    /// `(x, y)` becomes `(-y, x)`.
    pub fn perp(self) -> (r: Vec2i)
        requires
            self.y > i64::MIN,
        ensures
            r.x == -self.y,
            r.y == self.x,
    {
        Vec2i { x: -self.y, y: self.x }
    }
}

/// The componentwise sum, as a spec value.
pub open spec fn add_spec(a: Vec2i, b: Vec2i) -> Vec2i {
    Vec2i { x: (a.x + b.x) as i64, y: (a.y + b.y) as i64 }
}

/// The componentwise difference, as a spec value.
pub open spec fn sub_spec(a: Vec2i, b: Vec2i) -> Vec2i {
    Vec2i { x: (a.x - b.x) as i64, y: (a.y - b.y) as i64 }
}

/// Floor of the integer square root: the greatest `r` with `r * r <= n`.
pub open spec fn isqrt_spec(n: nat) -> nat
    decreases n,
{
    if n == 0 {
        0
    } else {
        let r = isqrt_spec((n - 1) as nat);
        if (r + 1) * (r + 1) <= n {
            r + 1
        } else {
            r
        }
    }
}

/// `isqrt_spec(n)` really is the floor of the square root of `n`.
pub proof fn lemma_isqrt_bounds(n: nat)
    ensures
        isqrt_spec(n) * isqrt_spec(n) <= n,
        n < (isqrt_spec(n) + 1) * (isqrt_spec(n) + 1),
    decreases n,
{
    if n > 0 {
        lemma_isqrt_bounds((n - 1) as nat);
        let r = isqrt_spec((n - 1) as nat);
        assert(r * r <= n - 1);
        assert(n - 1 < (r + 1) * (r + 1));
        if (r + 1) * (r + 1) <= n {
            assert(isqrt_spec(n) == r + 1);
            assert(isqrt_spec(n) * isqrt_spec(n) <= n);
            assert(n < (r + 1 + 1) * (r + 1 + 1)) by (nonlinear_arith)
                requires n <= (r + 1) * (r + 1), r >= 0;
            assert(n < (isqrt_spec(n) + 1) * (isqrt_spec(n) + 1));
        } else {
            assert(isqrt_spec(n) == r);
            assert(isqrt_spec(n) * isqrt_spec(n) <= n);
            assert(n < (isqrt_spec(n) + 1) * (isqrt_spec(n) + 1));
        }
    } else {
        let s = isqrt_spec(n);
        assert(n == 0);
        assert(s == 0);
        assert(s * s <= n);
        assert((s + 1) * (s + 1) == 1) by (nonlinear_arith)
            requires s == 0;
        assert(n < (s + 1) * (s + 1));
    }
}

/// Any `r` bracketed by `r * r <= n < (r + 1) * (r + 1)` is the floor square
/// root of `n`.
pub proof fn lemma_isqrt_unique(n: nat, r: nat)
    requires
        r * r <= n,
        n < (r + 1) * (r + 1),
    ensures
        r == isqrt_spec(n),
{
    lemma_isqrt_bounds(n);
    let s = isqrt_spec(n);
    if r < s {
        assert((r + 1) * (r + 1) <= s * s) by (nonlinear_arith)
            requires r + 1 <= s;
    }
    if s < r {
        assert((s + 1) * (s + 1) <= r * r) by (nonlinear_arith)
            requires s + 1 <= r;
    }
}

/// Floor of the square root of `x`, by bisection.
pub fn isqrt(x: u64) -> (r: u64)
    ensures
        r == isqrt_spec(x as nat),
        r * r <= x,
        x < (r + 1) * (r + 1),
{
    let mut lo: u64 = 0;
    let mut hi: u64 = 0x100000000;
    proof {
        assert(x < hi * hi) by (nonlinear_arith)
            requires x <= u64::MAX, hi == 0x100000000i64;
    }
    while lo + 1 < hi
        invariant
            lo < hi <= 0x100000000,
            lo * lo <= x,
            x < hi * hi,
        decreases hi - lo,
    {
        let mid = lo + (hi - lo) / 2;
        assert(lo < mid < hi);
        assert(mid * mid < 0x10000000000000000) by (nonlinear_arith)
            requires 0 < mid <= 0xffffffffi64;
        if mid * mid <= x {
            lo = mid;
        } else {
            hi = mid;
        }
    }
    proof {
        lemma_isqrt_unique(x as nat, lo as nat);
    }
    lo
}

/// Floor division of `a` by a positive `b`: rounds toward negative infinity,
/// exactly the mathematical `a / b` on `int`.
pub fn div_floor(a: i64, b: i64) -> (r: i64)
    requires
        1 <= b <= 0x2000000000000000,
        -0x2000000000000000 <= a <= 0x2000000000000000,
    ensures
        r == a as int / b as int,
        a >= 0 ==> 0 <= r <= a,
        a < 0 ==> a <= r <= 0,
{
    proof {
        lemma_div_bounds(a as int, b as int);
    }
    if a >= 0 {
        let q = (a as u64) / (b as u64);
        q as i64
    } else {
        let n = (-a) as u64;
        let q = (n + (b as u64) - 1) / (b as u64);
        proof {
            lemma_div_floor_neg(n as int, b as int);
        }
        -(q as i64)
    }
}

/// For positive `n` and `b`, the floor of `-n / b` is the negated ceiling
/// `-((n + b - 1) / b)`.
proof fn lemma_div_floor_neg(n: int, b: int)
    requires
        0 < n,
        0 < b,
    ensures
        -((n + b - 1) / b) == (-n) / b,
{
    let q = (n + b - 1) / b;
    lemma_fundamental_div_mod(n + b - 1, b);
    let rem = (n + b - 1) % b;
    assert(n + b - 1 == b * q + rem);
    // q * b lands in [n, n + b), so -n == (-q) * b + (q * b - n) with a
    // remainder in [0, b).
    assert(b * q == q * b) by (nonlinear_arith);
    assert(-n == (-q) * b + (q * b - n)) by (nonlinear_arith);
    lemma_fundamental_div_mod_converse(-n, b, -q, q * b - n);
}

/// Floor division by a positive divisor never grows the magnitude of the
/// dividend and never flips its sign.
pub proof fn lemma_div_bounds(a: int, b: int)
    requires
        1 <= b,
    ensures
        a >= 0 ==> 0 <= a / b <= a,
        a < 0 ==> a <= a / b <= 0,
{
    lemma_fundamental_div_mod(a, b);
    let q = a / b;
    let r = a % b;
    assert(a == b * q + r);
    assert(0 <= r < b);
    if a >= 0 {
        if q < 0 {
            assert(b * q <= -b) by (nonlinear_arith)
                requires q <= -1, b >= 1;
        }
        assert(q >= 0);
        assert(q <= b * q) by (nonlinear_arith)
            requires q >= 0, b >= 1;
    } else {
        if q > 0 {
            assert(b * q >= b) by (nonlinear_arith)
                requires q >= 1, b >= 1;
        }
        assert(q <= 0);
        if q <= -1 {
            assert(q * (b - 1) <= -(b - 1)) by (nonlinear_arith)
                requires q <= -1, b - 1 >= 0;
            assert(a - q == q * (b - 1) + r) by (nonlinear_arith)
                requires a == b * q + r;
        }
        assert(a <= q);
    }
}

/// Squared Euclidean distance between two points.
pub open spec fn sq_dist(a: Vec2i, b: Vec2i) -> int {
    (a.x - b.x) * (a.x - b.x) + (a.y - b.y) * (a.y - b.y)
}

/// Euclidean distance between two points, rounded down to an integer.
pub open spec fn dist_spec(a: Vec2i, b: Vec2i) -> int {
    isqrt_spec(sq_dist(a, b) as nat) as int
}

/// An upper bound on any distance between in-range points.
pub const DIST_LIMIT: i64 = 3145728;

/// Distance between two points of at most `WIDE_LIMIT` magnitude: never
/// negative, zero exactly when the points coincide, and below `DIST_LIMIT`
/// whenever both points are in scene range.
pub fn dist(a: Vec2i, b: Vec2i) -> (r: i64)
    requires
        -WIDE_LIMIT <= a.x <= WIDE_LIMIT,
        -WIDE_LIMIT <= a.y <= WIDE_LIMIT,
        -WIDE_LIMIT <= b.x <= WIDE_LIMIT,
        -WIDE_LIMIT <= b.y <= WIDE_LIMIT,
    ensures
        r == dist_spec(a, b),
        0 <= r <= 0x4000000,
        in_range(a) && in_range(b) ==> r < DIST_LIMIT,
        r == 0 <==> a == b,
{
    let dx = a.x - b.x;
    let dy = a.y - b.y;
    proof {
        assert(dx * dx >= 0 && dy * dy >= 0) by (nonlinear_arith);
        assert(dx * dx <= 0x4000000000000 && dy * dy <= 0x4000000000000)
            by (nonlinear_arith)
            requires -33554432 <= dx <= 33554432, -33554432 <= dy <= 33554432;
    }
    let s = (dx * dx + dy * dy) as u64;
    let r = isqrt(s);
    proof {
        lemma_dist_spec_zero(a, b);
        if in_range(a) && in_range(b) {
            lemma_dist_bound(a, b);
        }
        if r > 0x4000000 {
            assert(0x4000000 * 0x4000000 <= r * r) by (nonlinear_arith)
                requires 0x4000000 <= r;
        }
    }
    r as i64
}

/// Neither coordinate of the separation between two points can exceed their
/// rounded distance.
pub proof fn lemma_dist_dominates_components(a: Vec2i, b: Vec2i)
    ensures
        -dist_spec(a, b) <= a.x - b.x <= dist_spec(a, b),
        -dist_spec(a, b) <= a.y - b.y <= dist_spec(a, b),
{
    let dx = a.x - b.x;
    let dy = a.y - b.y;
    let s = sq_dist(a, b) as nat;
    assert(dx * dx >= 0 && dy * dy >= 0) by (nonlinear_arith);
    lemma_isqrt_bounds(s);
    let r = isqrt_spec(s);
    if dx > r || -dx > r || dy > r || -dy > r {
        assert((r + 1) * (r + 1) <= dx * dx + dy * dy) by (nonlinear_arith)
            requires dx * dx >= 0, dy * dy >= 0,
                dx > r || -dx > r || dy > r || -dy > r;
    }
}

/// The rounded distance vanishes exactly between coincident points.
pub proof fn lemma_dist_spec_zero(a: Vec2i, b: Vec2i)
    ensures
        dist_spec(a, b) == 0 <==> a == b,
{
    let dx = a.x - b.x;
    let dy = a.y - b.y;
    assert(dx * dx >= 0 && dy * dy >= 0) by (nonlinear_arith);
    let s = sq_dist(a, b) as nat;
    assert(s == dx * dx + dy * dy);
    lemma_isqrt_bounds(s);
    let r = isqrt_spec(s);
    if a == b {
        assert(dx == 0 && dy == 0);
        assert(s == 0) by (nonlinear_arith)
            requires dx == 0, dy == 0, s == dx * dx + dy * dy;
        assert(r == 0) by (nonlinear_arith)
            requires r * r <= 0;
    }
    if r == 0 {
        assert(s < (r + 1) * (r + 1));
        assert(s < 1) by (nonlinear_arith)
            requires r == 0, s < (r + 1) * (r + 1);
        assert(dx == 0 && dy == 0) by (nonlinear_arith)
            requires dx * dx + dy * dy == 0, dx * dx >= 0, dy * dy >= 0;
        assert(a == b);
    }
}

/// Floor-rounded linear interpolation of scalars: walks the fraction
/// `num / den` of the way from `a` to `b`.
pub open spec fn lerp1_spec(a: int, b: int, num: int, den: int) -> int {
    (a * (den - num) + b * num) / den
}

/// Interpolated scalars never leave the closed interval spanned by the
/// endpoints.
pub proof fn lemma_lerp1_bounds(a: int, b: int, num: int, den: int, lo: int, hi: int)
    requires
        0 < den,
        0 <= num <= den,
        lo <= a <= hi,
        lo <= b <= hi,
    ensures
        lo <= lerp1_spec(a, b, num, den) <= hi,
{
    lemma_mul_inequality(lo, a, den - num);
    lemma_mul_inequality(lo, b, num);
    lemma_mul_inequality(a, hi, den - num);
    lemma_mul_inequality(b, hi, num);
    assert(lo * (den - num) + lo * num == lo * den) by (nonlinear_arith);
    assert(hi * (den - num) + hi * num == hi * den) by (nonlinear_arith);
    lemma_div_is_ordered(lo * den, a * (den - num) + b * num, den);
    lemma_div_is_ordered(a * (den - num) + b * num, hi * den, den);
    lemma_mul_div_exact(lo, den);
    lemma_mul_div_exact(hi, den);
}

/// `(a * d) / d == a` for positive `d`.
pub proof fn lemma_mul_div_exact(a: int, d: int)
    requires
        0 < d,
    ensures
        (a * d) / d == a,
{
    lemma_fundamental_div_mod_converse(a * d, d, a, 0);
}

/// Any rounded distance between in-range points stays below `DIST_LIMIT`.
pub proof fn lemma_dist_bound(a: Vec2i, b: Vec2i)
    requires
        in_range(a),
        in_range(b),
    ensures
        0 <= dist_spec(a, b) < DIST_LIMIT,
{
    let dx = a.x - b.x;
    let dy = a.y - b.y;
    assert(0 <= dx * dx + dy * dy <= 8 * COORD_LIMIT * COORD_LIMIT) by (nonlinear_arith)
        requires -2097152 <= dx <= 2097152, -2097152 <= dy <= 2097152,
            COORD_LIMIT == 1048576i64;
    let s = sq_dist(a, b) as nat;
    lemma_isqrt_bounds(s);
    let r = isqrt_spec(s);
    if r >= DIST_LIMIT {
        assert(DIST_LIMIT * DIST_LIMIT <= r * r) by (nonlinear_arith)
            requires DIST_LIMIT <= r;
    }
}

/// Interpolation of in-range points stays in range (the spec-level twin of
/// the bound `lerp` itself ensures).
pub proof fn lemma_lerp_in_range(a: Vec2i, b: Vec2i, num: int, den: int)
    requires
        0 < den,
        0 <= num <= den,
        in_range(a),
        in_range(b),
    ensures
        in_range(lerp_spec(a, b, num, den)),
        lerp_spec(a, b, num, den).x == lerp1_spec(a.x as int, b.x as int, num, den),
        lerp_spec(a, b, num, den).y == lerp1_spec(a.y as int, b.y as int, num, den),
{
    lemma_lerp1_bounds(a.x as int, b.x as int, num, den, -COORD_LIMIT as int, COORD_LIMIT as int);
    lemma_lerp1_bounds(a.y as int, b.y as int, num, den, -COORD_LIMIT as int, COORD_LIMIT as int);
}

/// The ends of the parameter interval interpolate to the endpoints exactly,
/// with no rounding.
pub proof fn lemma_lerp_ends(a: Vec2i, b: Vec2i, den: int)
    requires
        0 < den,
    ensures
        lerp_spec(a, b, 0, den) == a,
        lerp_spec(a, b, den, den) == b,
{
    assert(a.x * (den - 0) + b.x * 0 == a.x * den) by (nonlinear_arith);
    assert(a.y * (den - 0) + b.y * 0 == a.y * den) by (nonlinear_arith);
    assert(a.x * (den - den) + b.x * den == b.x * den) by (nonlinear_arith);
    assert(a.y * (den - den) + b.y * den == b.y * den) by (nonlinear_arith);
    lemma_mul_div_exact(a.x as int, den);
    lemma_mul_div_exact(a.y as int, den);
    lemma_mul_div_exact(b.x as int, den);
    lemma_mul_div_exact(b.y as int, den);
}

/// Floor-rounded linear interpolation of scalars.
pub fn lerp1(a: i64, b: i64, num: i64, den: i64) -> (r: i64)
    requires
        1 <= den < DEN_LIMIT,
        0 <= num <= den,
        -COORD_LIMIT <= a <= COORD_LIMIT,
        -COORD_LIMIT <= b <= COORD_LIMIT,
    ensures
        r == lerp1_spec(a as int, b as int, num as int, den as int),
        -COORD_LIMIT <= r <= COORD_LIMIT,
        num == 0 ==> r == a,
        num == den ==> r == b,
    {
    proof {
        assert(-0x8000000000000 <= a * (den - num) <= 0x8000000000000
            && -0x8000000000000 <= b * num <= 0x8000000000000)
            by (nonlinear_arith)
            requires -1048576 <= a <= 1048576, -1048576 <= b <= 1048576,
                0 <= num <= den, den <= 0x80000000;
        lemma_lerp1_bounds(a as int, b as int, num as int, den as int,
            -COORD_LIMIT as int, COORD_LIMIT as int);
        if num == 0 {
            lemma_mul_div_exact(a as int, den as int);
        }
        if num == den {
            lemma_mul_div_exact(b as int, den as int);
            assert(a * (den - num) + b * num == b * den) by (nonlinear_arith)
                requires num == den;
        }
    }
    let numerator = a * (den - num) + b * num;
    div_floor(numerator, den)
}

/// Floor-rounded linear interpolation of points, componentwise.
pub open spec fn lerp_spec(a: Vec2i, b: Vec2i, num: int, den: int) -> Vec2i {
    Vec2i {
        x: lerp1_spec(a.x as int, b.x as int, num, den) as i64,
        y: lerp1_spec(a.y as int, b.y as int, num, den) as i64,
    }
}

/// Floor-rounded linear interpolation of in-range points: the result is
/// in range again, and the endpoints are hit exactly.
pub fn lerp(a: Vec2i, b: Vec2i, num: i64, den: i64) -> (r: Vec2i)
    requires
        1 <= den < DEN_LIMIT,
        0 <= num <= den,
        in_range(a),
        in_range(b),
    ensures
        r == lerp_spec(a, b, num as int, den as int),
        in_range(r),
        num == 0 ==> r == a,
        num == den ==> r == b,
{
    let x = lerp1(a.x, b.x, num, den);
    let y = lerp1(a.y, b.y, num, den);
    Vec2i { x, y }
}

} // verus!
