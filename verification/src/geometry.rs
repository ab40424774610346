//! Integer lattice geometry: points, exact squared distances, floor division
//! and floor square roots.
//!
//! Every coordinate is a lattice step count held in an `i32`. How many steps
//! make up one pixel is the embedding program's choice; all arithmetic here
//! is exact on wide integers and the final result is saturated to the
//! coordinate range.
use vstd::prelude::*;
use vstd::arithmetic::div_mod::lemma_fundamental_div_mod_converse;
use vstd::arithmetic::div_mod::lemma_fundamental_div_mod;
use vstd::arithmetic::div_mod::lemma_mod_bound;

verus! {

/// Smallest coordinate value.
pub const COORD_MIN: i32 = -2147483648;

/// Largest coordinate value.
pub const COORD_MAX: i32 = 2147483647;

/// A point (or displacement) on the integer lattice.
#[derive(Clone, Copy, Debug, PartialEq, Eq, Structural)]
pub struct Point {
    pub x: i32,
    pub y: i32,
}

/// Whether `v` is a representable coordinate.
pub open spec fn fits(v: int) -> bool {
    COORD_MIN <= v <= COORD_MAX
}

/// `v` saturated to the coordinate range.
pub open spec fn clamp_coord(v: int) -> int {
    if v < COORD_MIN {
        COORD_MIN as int
    } else if v > COORD_MAX {
        COORD_MAX as int
    } else {
        v
    }
}

/// The lattice point whose coordinates are `x` and `y` saturated to the
/// coordinate range.
pub open spec fn clamped_point(x: int, y: int) -> Point {
    Point { x: clamp_coord(x) as i32, y: clamp_coord(y) as i32 }
}

/// Squared Euclidean distance between two points.
pub open spec fn dist2(a: Point, b: Point) -> int {
    (a.x - b.x) * (a.x - b.x) + (a.y - b.y) * (a.y - b.y)
}

/// Whether `r` is the floor of the square root of `n`.
pub open spec fn is_floor_sqrt(n: int, r: int) -> bool {
    0 <= r && r * r <= n && n < (r + 1) * (r + 1)
}

/// Floor of the square root of `n` (for `n >= 0`).
pub open spec fn floor_sqrt(n: int) -> int {
    choose|r: int| is_floor_sqrt(n, r)
}

/// At most one integer is the floor square root of `n`.
pub proof fn lemma_floor_sqrt_unique(n: int, a: int, b: int)
    requires
        is_floor_sqrt(n, a),
        is_floor_sqrt(n, b),
    ensures
        a == b,
{
    if a < b {
        assert((a + 1) * (a + 1) <= b * b) by (nonlinear_arith)
            requires
                0 <= a,
                a + 1 <= b,
        ;
    } else if b < a {
        assert((b + 1) * (b + 1) <= a * a) by (nonlinear_arith)
            requires
                0 <= b,
                b + 1 <= a,
        ;
    }
}

/// Every natural number has a floor square root.
pub proof fn lemma_floor_sqrt_exists(n: int)
    requires
        n >= 0,
    ensures
        is_floor_sqrt(n, floor_sqrt(n)),
    decreases n,
{
    if n == 0 {
        assert(is_floor_sqrt(0, 0));
    } else {
        lemma_floor_sqrt_exists(n - 1);
        let r = floor_sqrt(n - 1);
        if (r + 1) * (r + 1) <= n {
            assert((r + 2) * (r + 2) > (r + 1) * (r + 1)) by (nonlinear_arith)
                requires
                    r >= 0,
            ;
            assert(is_floor_sqrt(n, r + 1));
        } else {
            assert(is_floor_sqrt(n, r));
        }
    }
}

/// The share `|along| * scale / (root * length)` of a vector of squared
/// length `d2`, rounded down. The quotient under the root is the square of
/// the exact share with its fraction dropped, which leaves the root's whole
/// part as it is: the result is the exact share rounded down.
pub open spec fn share_size(along: int, d2: int, scale: int, root: int) -> int {
    floor_sqrt(((along * scale) * (along * scale)) / (root * root * d2))
}

/// A share is the exact value rounded down: `root` times the share times the
/// length is at most `|along| * scale`, and one step more exceeds it. Both
/// sides are compared by their squares.
pub proof fn lemma_share_size_accurate(along: int, d2: int, scale: int, root: int)
    requires
        d2 > 0,
        root > 0,
    ensures
        ({
            let m = share_size(along, d2, scale, root);
            &&& m >= 0
            &&& (root * m) * (root * m) * d2 <= (along * scale) * (along * scale)
            &&& (along * scale) * (along * scale) < (root * m + root) * (root * m + root) * d2
        }),
{
    let b = along * scale;
    let bb = b * b;
    assert(bb >= 0) by (nonlinear_arith)
        requires
            bb == b * b,
    ;
    let p = root * root * d2;
    assert(p > 0) by (nonlinear_arith)
        requires
            p == root * root * d2,
            root > 0,
            d2 > 0,
    ;
    let q = bb / p;
    let r = bb % p;
    lemma_fundamental_div_mod(bb, p);
    lemma_mod_bound(bb, p);
    assert(q >= 0) by (nonlinear_arith)
        requires
            bb == p * q + r,
            bb >= 0,
            0 <= r < p,
    ;
    lemma_floor_sqrt_exists(q);
    let m = floor_sqrt(q);
    assert(m * m * p <= bb) by (nonlinear_arith)
        requires
            m * m <= q,
            bb == p * q + r,
            0 <= r,
            p > 0,
    ;
    assert(bb < (m + 1) * (m + 1) * p) by (nonlinear_arith)
        requires
            q + 1 <= (m + 1) * (m + 1),
            bb == p * q + r,
            r < p,
            p > 0,
    ;
    assert((root * m) * (root * m) * d2 == m * m * p) by (nonlinear_arith)
        requires
            p == root * root * d2,
    ;
    assert((root * m + root) * (root * m + root) * d2 == (m + 1) * (m + 1) * p) by (nonlinear_arith)
        requires
            p == root * root * d2,
    ;
}

/// The squared distance between two lattice points is bounded by what two
/// full-range coordinate differences can give.
pub proof fn lemma_dist2_bounds(a: Point, b: Point)
    ensures
        0 <= dist2(a, b) <= 2 * 4294967295 * 4294967295,
        (a.x - b.x) * (a.x - b.x) <= 4294967295 * 4294967295,
        (a.y - b.y) * (a.y - b.y) <= 4294967295 * 4294967295,
        dist2(a, b) == 0 <==> a == b,
{
    let dx = a.x - b.x;
    let dy = a.y - b.y;
    assert(0 <= dx * dx <= 4294967295 * 4294967295) by (nonlinear_arith)
        requires
            -4294967295 <= dx <= 4294967295,
    ;
    assert(0 <= dy * dy <= 4294967295 * 4294967295) by (nonlinear_arith)
        requires
            -4294967295 <= dy <= 4294967295,
    ;
    assert(dx * dx == 0 <==> dx == 0) by (nonlinear_arith);
    assert(dy * dy == 0 <==> dy == 0) by (nonlinear_arith);
    if dx == 0 && dy == 0 {
        assert(a.x == b.x && a.y == b.y);
        assert(a == b);
    }
}

impl Point {
    /// The point with the given coordinates.
    pub fn new(x: i32, y: i32) -> (p: Point)
        ensures
            p == (Point { x, y }),
    {
        Point { x, y }
    }

    /// The origin.
    pub fn zero() -> (p: Point)
        ensures
            p == (Point { x: 0, y: 0 }),
    {
        Point { x: 0, y: 0 }
    }
}

/// Saturates a wide integer to the coordinate range.
pub fn saturate(v: i128) -> (r: i32)
    ensures
        r == clamp_coord(v as int),
{
    if v < -2147483648 {
        -2147483648
    } else if v > 2147483647 {
        2147483647
    } else {
        v as i32
    }
}

/// Division rounding toward negative infinity.
pub fn div_floor(n: i128, d: i128) -> (q: i128)
    requires
        d > 0,
    ensures
        q == n as int / d as int,
{
    if n >= 0 {
        n / d
    } else {
        let m: i128 = -(n + 1);
        let q0: i128 = m / d;
        proof {
            let r0 = m as int % d as int;
            lemma_fundamental_div_mod(m as int, d as int);
            lemma_mod_bound(m as int, d as int);
            assert(n as int == (-(q0 as int) - 1) * d as int + (d as int - 1 - r0)) by (nonlinear_arith)
                requires
                    m as int == d as int * (q0 as int) + r0,
                    n as int == -(m as int) - 1,
            ;
            lemma_fundamental_div_mod_converse(n as int, d as int, -(q0 as int) - 1, d as int - 1 - r0);
        }
        -q0 - 1
    }
}

/// Squared Euclidean distance between two points, computed exactly.
pub fn distance_squared(a: Point, b: Point) -> (d: i128)
    ensures
        d == dist2(a, b),
{
    proof {
        lemma_dist2_bounds(a, b);
    }
    let dx: i128 = a.x as i128 - b.x as i128;
    let dy: i128 = a.y as i128 - b.y as i128;
    dx * dx + dy * dy
}

/// Computes a share of a vector between two lattice points, as `share_size`
/// states.
pub(crate) fn share(along: i128, d2: i128, scale: u32, root: u32) -> (m: i128)
    requires
        -4294967295 <= along <= 4294967295,
        0 < d2 <= 2 * 4294967295 * 4294967295,
        2 <= root <= 256,
    ensures
        m == share_size(along as int, d2 as int, scale as int, root as int),
        0 <= m <= 13043817825332782212,
{
    let a: u128 = if along < 0 {
        (-along) as u128
    } else {
        along as u128
    };
    let t: u128 = scale as u128;
    assert(a * t <= 4294967295 * 4294967295) by (nonlinear_arith)
        requires
            0 <= a <= 4294967295,
            0 <= t <= 4294967295,
    ;
    let b: u128 = a * t;
    assert(b * b <= 18446744065119617025 * 18446744065119617025) by (nonlinear_arith)
        requires
            0 <= b <= 18446744065119617025,
    ;
    let bb: u128 = b * b;
    let w: u128 = root as u128;
    assert(4 <= w * w <= 65536) by (nonlinear_arith)
        requires
            2 <= w <= 256,
    ;
    let rr: u128 = w * w;
    assert(4 <= rr * d2 <= 65536 * (2 * 4294967295 * 4294967295)) by (nonlinear_arith)
        requires
            4 <= rr <= 65536,
            1 <= d2 <= 2 * 4294967295 * 4294967295,
    ;
    let p: u128 = rr * (d2 as u128);
    let q: u128 = bb / p;
    proof {
        assert(bb == (along * scale) * (along * scale)) by (nonlinear_arith)
            requires
                bb == (a * t) * (a * t),
                a == along || a == -along,
                t == scale,
        ;
        lemma_fundamental_div_mod(bb as int, p as int);
        lemma_mod_bound(bb as int, p as int);
        assert(4 * q <= bb) by (nonlinear_arith)
            requires
                bb == p * q + (bb as int % p as int),
                0 <= bb as int % p as int,
                p >= 4,
                q >= 0,
        ;
    }
    let m: i128 = isqrt(q as i128);
    m
}

/// Floor of the square root, by bisection.
pub fn isqrt(n: i128) -> (r: i128)
    requires
        0 <= n,
    ensures
        r == floor_sqrt(n as int),
        is_floor_sqrt(n as int, r as int),
        r <= 13043817825332782212,
{
    let mut lo: i128 = 0;
    let mut hi: i128 = 13043817825332782213;
    assert(n < hi * hi) by (nonlinear_arith)
        requires
            n <= 0x7fff_ffff_ffff_ffff_ffff_ffff_ffff_ffff,
            hi == 13043817825332782213,
    ;
    while hi - lo > 1
        invariant
            0 <= lo < hi <= 13043817825332782213,
            lo * lo <= n,
            n < hi * hi,
        decreases hi - lo,
    {
        let mid: i128 = lo + (hi - lo) / 2;
        assert(0 <= mid * mid <= 13043817825332782212 * 13043817825332782212) by (nonlinear_arith)
            requires
                0 <= mid <= 13043817825332782212,
        ;
        if mid * mid <= n {
            lo = mid;
        } else {
            hi = mid;
        }
    }
    proof {
        assert(is_floor_sqrt(n as int, lo as int));
        lemma_floor_sqrt_unique(n as int, lo as int, floor_sqrt(n as int));
    }
    lo
}

} // verus!
