//! Stroke resampling: a sparse polyline is replaced by a dense one that
//! follows a smooth curve through the same points.
//!
//! Each segment of the input is sampled at `SAMPLES_PER_SEGMENT` evenly
//! spaced parameters from 0 to 1, both ends included, so that every input
//! point appears in the output. A curve is evaluated exactly over the
//! integers: the parameter `k / n` is multiplied through by `n` cubed, and
//! one floor division at the end rounds the value to the lattice.
use vstd::prelude::*;
use crate::geometry::{
    clamp_coord, clamped_point, dist2, distance_squared, div_floor, lemma_dist2_bounds,
    lemma_share_size_accurate, saturate, share, share_size, Point,
};

verus! {

/// Number of output points per input segment.
pub const SAMPLES_PER_SEGMENT: usize = 100;

/// The curve that a stroke is resampled along.
#[derive(Clone, Copy, Debug, PartialEq, Eq, Structural)]
pub enum Smoothing {
    /// Catmull-Rom spline through the points.
    CatmullRom,
    /// Cubic Bézier segments with control points along the neighbouring
    /// chords, a third of a world unit from the end points. `unit` is the
    /// number of lattice steps that make up one world unit.
    Bezier { unit: u32 },
}

/// One coordinate of the Catmull-Rom curve between `p1` and `p2`, with
/// neighbours `p0` and `p3`, at parameter `k / n` where `n` is the last
/// sample's number.
pub open spec fn catmull_rom_coord(p0: int, p1: int, p2: int, p3: int, k: int) -> int {
    let n = SAMPLES_PER_SEGMENT - 1;
    (2 * p1 * (n * n * n) + (p2 - p0) * (k * n * n) + (2 * p0 - 5 * p1 + 4 * p2 - p3) * (k * k * n)
        + (3 * p1 - p0 - 3 * p2 + p3) * (k * k * k)) / (2 * (n * n * n))
}

/// One coordinate of the cubic Bézier curve with end points `p0`, `p3` and
/// control points `c1`, `c2`, at parameter `k / n`.
pub open spec fn bezier_coord(p0: int, c1: int, c2: int, p3: int, k: int) -> int {
    let n = SAMPLES_PER_SEGMENT - 1;
    let m = n - k;
    (p0 * (m * m * m) + c1 * (3 * (m * m * k)) + c2 * (3 * (m * k * k)) + p3 * (k * k * k)) / (n * n
        * n)
}

/// A third of the unit vector along the chord from `from` to `to`, a unit
/// being `unit` lattice steps; each component is rounded toward zero. Zero
/// for an empty chord.
pub open spec fn third_tangent(from: Point, to: Point, unit: int) -> (int, int) {
    if from == to {
        (0, 0)
    } else {
        let dx = to.x - from.x;
        let dy = to.y - from.y;
        let d2 = dist2(from, to);
        let sx = share_size(dx, d2, unit, 3);
        let sy = share_size(dy, d2, unit, 3);
        (
            if dx < 0 {
                -sx
            } else {
                sx
            },
            if dy < 0 {
                -sy
            } else {
                sy
            },
        )
    }
}

/// Whether (`tx`, `ty`) is a third of the unit vector along the chord up to
/// rounding: it points along the chord, each component is the exact
/// component rounded toward zero (compared by squares), and none is longer
/// than a third of a unit.
pub open spec fn accurate_tangent(from: Point, to: Point, unit: int, tx: int, ty: int) -> bool {
    let dx = to.x - from.x;
    let dy = to.y - from.y;
    let d2 = dx * dx + dy * dy;
    let ax = if tx < 0 {
        -tx
    } else {
        tx
    };
    let ay = if ty < 0 {
        -ty
    } else {
        ty
    };
    &&& tx * dx >= 0
    &&& ty * dy >= 0
    &&& (3 * ax) * (3 * ax) * d2 <= (dx * unit) * (dx * unit)
    &&& (dx * unit) * (dx * unit) < (3 * ax + 3) * (3 * ax + 3) * d2
    &&& (3 * ay) * (3 * ay) * d2 <= (dy * unit) * (dy * unit)
    &&& (dy * unit) * (dy * unit) < (3 * ay + 3) * (3 * ay + 3) * d2
    &&& 3 * ax <= unit
    &&& 3 * ay <= unit
}

/// The tangent taken at a chord is accurate to a lattice step.
pub proof fn lemma_third_tangent_accurate(from: Point, to: Point, unit: int)
    requires
        from != to,
        unit >= 0,
    ensures
        accurate_tangent(
            from,
            to,
            unit,
            third_tangent(from, to, unit).0,
            third_tangent(from, to, unit).1,
        ),
{
    let (tx, ty) = third_tangent(from, to, unit);
    let dx = to.x - from.x;
    let dy = to.y - from.y;
    let d2 = dist2(from, to);
    lemma_dist2_bounds(from, to);
    assert(d2 == dx * dx + dy * dy) by (nonlinear_arith)
        requires
            d2 == (from.x - to.x) * (from.x - to.x) + (from.y - to.y) * (from.y - to.y),
            dx == to.x - from.x,
            dy == to.y - from.y,
    ;
    lemma_share_size_accurate(dx as int, d2, unit, 3);
    lemma_share_size_accurate(dy as int, d2, unit, 3);
    let sx = share_size(dx as int, d2, unit, 3);
    let sy = share_size(dy as int, d2, unit, 3);
    assert(tx * dx >= 0) by (nonlinear_arith)
        requires
            sx >= 0,
            tx == if dx < 0 {
                -sx
            } else {
                sx
            },
    ;
    assert(ty * dy >= 0) by (nonlinear_arith)
        requires
            sy >= 0,
            ty == if dy < 0 {
                -sy
            } else {
                sy
            },
    ;
    lemma_share_within_scale(dx as int, dy as int, d2, unit, 3 * sx);
    lemma_share_within_scale(dy as int, dx as int, d2, unit, 3 * sy);
}

/// A component's share of the scale is at most the scale: if `a` times the
/// length is at most `|along| * scale`, then `a` is at most `scale`.
proof fn lemma_share_within_scale(along: int, other: int, d2: int, scale: int, a: int)
    requires
        d2 == along * along + other * other,
        d2 > 0,
        scale >= 0,
        a >= 0,
        a * a * d2 <= (along * scale) * (along * scale),
    ensures
        a <= scale,
{
    let ss = scale * scale;
    assert((along * scale) * (along * scale) == (along * along) * ss) by (nonlinear_arith)
        requires
            ss == scale * scale,
    ;
    assert((along * along) * ss <= d2 * ss) by (nonlinear_arith)
        requires
            d2 == along * along + other * other,
            ss == scale * scale,
    ;
    assert(a * a <= ss) by (nonlinear_arith)
        requires
            a * a * d2 <= d2 * ss,
            d2 > 0,
    ;
    assert(a <= scale) by (nonlinear_arith)
        requires
            a * a <= scale * scale,
            a >= 0,
            scale >= 0,
    ;
}

/// Sample `k` of segment `seg` of the Catmull-Rom spline through `points`. A
/// neighbour that is missing at either end of the polyline is replaced by
/// the segment's own end point.
pub open spec fn catmull_rom_point(points: Seq<Point>, seg: int, k: int) -> Point {
    let p0 = if seg > 0 {
        points[seg - 1]
    } else {
        points[seg]
    };
    let p1 = points[seg];
    let p2 = points[seg + 1];
    let p3 = if seg + 2 < points.len() {
        points[seg + 2]
    } else {
        points[seg + 1]
    };
    clamped_point(
        catmull_rom_coord(p0.x as int, p1.x as int, p2.x as int, p3.x as int, k),
        catmull_rom_coord(p0.y as int, p1.y as int, p2.y as int, p3.y as int, k),
    )
}

/// Sample `k` of segment `seg` of the fitted Bézier curve. The first control
/// point lies a third of a unit from the segment's start along the chord that
/// arrives there, the second a third of a unit before the segment's end
/// against the chord that leaves it; at the ends of the polyline a control
/// point coincides with the end point.
pub open spec fn bezier_point(points: Seq<Point>, unit: int, seg: int, k: int) -> Point {
    let p0 = points[seg];
    let p3 = points[seg + 1];
    let t1 = if seg > 0 {
        third_tangent(points[seg - 1], points[seg], unit)
    } else {
        (0, 0)
    };
    let t2 = if seg + 2 < points.len() {
        third_tangent(points[seg + 1], points[seg + 2], unit)
    } else {
        (0, 0)
    };
    clamped_point(
        bezier_coord(p0.x as int, p0.x + t1.0, p3.x - t2.0, p3.x as int, k),
        bezier_coord(p0.y as int, p0.y + t1.1, p3.y - t2.1, p3.y as int, k),
    )
}

/// Sample `k` of segment `seg` along the chosen curve.
pub open spec fn sample_point(points: Seq<Point>, method: Smoothing, seg: int, k: int) -> Point {
    match method {
        Smoothing::CatmullRom => catmull_rom_point(points, seg, k),
        Smoothing::Bezier { unit } => bezier_point(points, unit as int, seg, k),
    }
}

/// The resampled polyline: nothing for fewer than two points, else the
/// samples of each segment in turn.
pub open spec fn resampled(points: Seq<Point>, method: Smoothing) -> Seq<Point> {
    if points.len() < 2 {
        Seq::empty()
    } else {
        Seq::new(
            (SAMPLES_PER_SEGMENT * (points.len() - 1)) as nat,
            |j: int|
                sample_point(
                    points,
                    method,
                    j / (SAMPLES_PER_SEGMENT as int),
                    j % (SAMPLES_PER_SEGMENT as int),
                ),
        )
    }
}

/// The product of a coefficient and a weight, both of bounded size.
fn weighted(a: i128, w: i128) -> (r: i128)
    requires
        -0x1_0000_0000_0000_0000 <= a <= 0x1_0000_0000_0000_0000,
        0 <= w <= 4000000,
    ensures
        r == a * w,
        -0x1_0000_0000_0000_0000 * 4000000 <= r <= 0x1_0000_0000_0000_0000 * 4000000,
{
    assert(-0x1_0000_0000_0000_0000 * 4000000 <= a * w <= 0x1_0000_0000_0000_0000 * 4000000)
        by (nonlinear_arith)
        requires
            -0x1_0000_0000_0000_0000 <= a <= 0x1_0000_0000_0000_0000,
            0 <= w <= 4000000,
    ;
    a * w
}

/// The powers of `k` and of its complement that the curves are weighted by.
fn cube_weights(k: usize) -> (w: (i128, i128, i128, i128))
    requires
        k < SAMPLES_PER_SEGMENT,
    ensures
        w.0 == (99 - k) * (99 - k) * (99 - k),
        w.1 == (99 - k) * (99 - k) * k,
        w.2 == (99 - k) * k * k,
        w.3 == k * k * k,
        0 <= w.0 <= 970299,
        0 <= w.1 <= 970299,
        0 <= w.2 <= 970299,
        0 <= w.3 <= 970299,
{
    let t: i128 = k as i128;
    let m: i128 = 99 - t;
    assert(0 <= m * m <= 9801 && 0 <= m * t <= 9801 && 0 <= t * t <= 9801) by (nonlinear_arith)
        requires
            0 <= t <= 99,
            0 <= m <= 99,
    ;
    let mm: i128 = m * m;
    let mt: i128 = m * t;
    let tt: i128 = t * t;
    assert(0 <= mm * m <= 970299 && 0 <= mm * t <= 970299 && 0 <= mt * t <= 970299 && 0 <= tt * t
        <= 970299) by (nonlinear_arith)
        requires
            0 <= t <= 99,
            0 <= m <= 99,
            0 <= mm <= 9801,
            0 <= mt <= 9801,
            0 <= tt <= 9801,
    ;
    (mm * m, mm * t, mt * t, tt * t)
}

/// Evaluates one coordinate of the Catmull-Rom curve.
pub fn catmull_rom_value(p0: i32, p1: i32, p2: i32, p3: i32, k: usize) -> (r: i32)
    requires
        k < SAMPLES_PER_SEGMENT,
    ensures
        r == clamp_coord(catmull_rom_coord(p0 as int, p1 as int, p2 as int, p3 as int, k as int)),
{
    let t: i128 = k as i128;
    assert(0 <= t * t <= 9801) by (nonlinear_arith)
        requires
            0 <= t <= 99,
    ;
    let tt: i128 = t * t;
    assert(0 <= tt * t <= 970299) by (nonlinear_arith)
        requires
            0 <= t <= 99,
            0 <= tt <= 9801,
    ;
    let a: i128 = p0 as i128;
    let b: i128 = p1 as i128;
    let c: i128 = p2 as i128;
    let d: i128 = p3 as i128;
    let num: i128 = weighted(2 * b, 970299) + weighted(c - a, t * 9801) + weighted(
        2 * a - 5 * b + 4 * c - d,
        tt * 99,
    ) + weighted(3 * b - a - 3 * c + d, tt * t);
    proof {
        assert(t * 9801 == t * 99 * 99);
        assert(2 * b * (99 * 99 * 99) == (2 * b) * 970299);
    }
    saturate(div_floor(num, 1940598))
}

/// Evaluates one coordinate of a cubic Bézier curve.
pub fn bezier_value(p0: i32, c1: i64, c2: i64, p3: i32, k: usize) -> (r: i32)
    requires
        k < SAMPLES_PER_SEGMENT,
    ensures
        r == clamp_coord(bezier_coord(p0 as int, c1 as int, c2 as int, p3 as int, k as int)),
{
    let w = cube_weights(k);
    let num: i128 = weighted(p0 as i128, w.0) + weighted(c1 as i128, 3 * w.1) + weighted(
        c2 as i128,
        3 * w.2,
    ) + weighted(p3 as i128, w.3);
    saturate(div_floor(num, 970299))
}

/// Computes a third of the unit vector along a chord.
pub fn chord_third(from: Point, to: Point, unit: u32) -> (t: (i64, i64))
    ensures
        t.0 == third_tangent(from, to, unit as int).0,
        t.1 == third_tangent(from, to, unit as int).1,
        from != to ==> accurate_tangent(from, to, unit as int, t.0 as int, t.1 as int),
        -4294967295 <= t.0 <= 4294967295,
        -4294967295 <= t.1 <= 4294967295,
{
    if from.x == to.x && from.y == to.y {
        (0, 0)
    } else {
        let d2: i128 = distance_squared(from, to);
        proof {
            lemma_dist2_bounds(from, to);
            lemma_third_tangent_accurate(from, to, unit as int);
        }
        let dx: i128 = to.x as i128 - from.x as i128;
        let dy: i128 = to.y as i128 - from.y as i128;
        let sx: i128 = share(dx, d2, unit, 3);
        let sy: i128 = share(dy, d2, unit, 3);
        let tx: i128 = if dx < 0 {
            -sx
        } else {
            sx
        };
        let ty: i128 = if dy < 0 {
            -sy
        } else {
            sy
        };
        (tx as i64, ty as i64)
    }
}

/// Computes sample `k` of segment `seg` along the chosen curve.
pub fn sample(points: &[Point], method: Smoothing, seg: usize, k: usize) -> (p: Point)
    requires
        seg + 1 < points@.len(),
        k < SAMPLES_PER_SEGMENT,
    ensures
        p == sample_point(points@, method, seg as int, k as int),
{
    let n: usize = points.len();
    let start = points[seg];
    let end = points[seg + 1];
    match method {
        Smoothing::CatmullRom => {
            let before = if seg > 0 {
                points[seg - 1]
            } else {
                start
            };
            let after = if seg + 2 < n {
                points[seg + 2]
            } else {
                end
            };
            Point {
                x: catmull_rom_value(before.x, start.x, end.x, after.x, k),
                y: catmull_rom_value(before.y, start.y, end.y, after.y, k),
            }
        },
        Smoothing::Bezier { unit } => {
            let t1: (i64, i64) = if seg > 0 {
                chord_third(points[seg - 1], start, unit)
            } else {
                (0, 0)
            };
            let t2: (i64, i64) = if seg + 2 < n {
                chord_third(end, points[seg + 2], unit)
            } else {
                (0, 0)
            };
            Point {
                x: bezier_value(start.x, start.x as i64 + t1.0, end.x as i64 - t2.0, end.x, k),
                y: bezier_value(start.y, start.y as i64 + t1.1, end.y as i64 - t2.1, end.y, k),
            }
        },
    }
}

/// Resamples a polyline along the chosen curve. The result depends on the
/// points and the curve alone.
pub fn resample(points: &[Point], method: Smoothing) -> (out: Vec<Point>)
    ensures
        out@ == resampled(points@, method),
        points@.len() < 2 ==> out@.len() == 0,
        points@.len() >= 2 ==> out@.len() == SAMPLES_PER_SEGMENT * (points@.len() - 1),
        points@.len() >= 2 ==> out@.first() == points@.first() && out@.last() == points@.last(),
{
    proof {
        if points@.len() >= 2 {
            lemma_resampled_endpoints(points@, method);
        }
    }
    let mut out: Vec<Point> = Vec::new();
    let n: usize = points.len();
    if n < 2 {
        assert(out@ =~= resampled(points@, method));
        return out;
    }
    let mut seg: usize = 0;
    while seg + 1 < n
        invariant
            n == points@.len(),
            n >= 2,
            seg + 1 <= n,
            out@.len() == SAMPLES_PER_SEGMENT * seg,
            forall|j: int|
                0 <= j < out@.len() ==> out@[j] == sample_point(
                    points@,
                    method,
                    j / (SAMPLES_PER_SEGMENT as int),
                    j % (SAMPLES_PER_SEGMENT as int),
                ),
        decreases n - seg,
    {
        let mut k: usize = 0;
        while k < SAMPLES_PER_SEGMENT
            invariant
                n == points@.len(),
                seg + 1 < n,
                k <= SAMPLES_PER_SEGMENT,
                out@.len() == SAMPLES_PER_SEGMENT * seg + k,
                forall|j: int|
                    0 <= j < out@.len() ==> out@[j] == sample_point(
                        points@,
                        method,
                        j / (SAMPLES_PER_SEGMENT as int),
                        j % (SAMPLES_PER_SEGMENT as int),
                    ),
            decreases SAMPLES_PER_SEGMENT - k,
        {
            let p = sample(points, method, seg, k);
            out.push(p);
            k = k + 1;
        }
        seg = seg + 1;
    }
    assert(out@ =~= resampled(points@, method));
    out
}

/// Resamples a polyline along the Catmull-Rom spline through its points.
pub fn catmull_rom_spline(points: &[Point]) -> (out: Vec<Point>)
    ensures
        out@ == resampled(points@, Smoothing::CatmullRom),
        points@.len() < 2 ==> out@.len() == 0,
        points@.len() >= 2 ==> out@.len() == SAMPLES_PER_SEGMENT * (points@.len() - 1),
        points@.len() >= 2 ==> out@.first() == points@.first() && out@.last() == points@.last(),
{
    resample(points, Smoothing::CatmullRom)
}

/// Resamples a polyline along cubic Bézier segments fitted to its points,
/// a world unit being `unit` lattice steps.
pub fn fit_bezier(points: &[Point], unit: u32) -> (out: Vec<Point>)
    ensures
        out@ == resampled(points@, (Smoothing::Bezier { unit })),
        points@.len() < 2 ==> out@.len() == 0,
        points@.len() >= 2 ==> out@.len() == SAMPLES_PER_SEGMENT * (points@.len() - 1),
        points@.len() >= 2 ==> out@.first() == points@.first() && out@.last() == points@.last(),
{
    resample(points, Smoothing::Bezier { unit })
}

/// The resampled polyline of at least two points has a hundred samples for
/// each segment of the input.
pub proof fn lemma_resampled_len(points: Seq<Point>, method: Smoothing)
    ensures
        points.len() >= 2 ==> resampled(points, method).len() == SAMPLES_PER_SEGMENT * (points.len()
            - 1),
        points.len() < 2 ==> resampled(points, method).len() == 0,
{
}

/// Resampling is repeatable: two runs on the same polyline with the same
/// curve give the same points.
pub proof fn lemma_resampled_is_repeatable(
    first: Seq<Point>,
    second: Seq<Point>,
    method: Smoothing,
    first_out: Seq<Point>,
    second_out: Seq<Point>,
)
    requires
        first == second,
        first_out == resampled(first, method),
        second_out == resampled(second, method),
    ensures
        first_out == second_out,
{
}

/// A Catmull-Rom segment starts at its first point and ends at its second.
pub proof fn lemma_catmull_rom_ends(p0: int, p1: int, p2: int, p3: int)
    ensures
        catmull_rom_coord(p0, p1, p2, p3, 0) == p1,
        catmull_rom_coord(p0, p1, p2, p3, SAMPLES_PER_SEGMENT - 1) == p2,
{
    assert(2 * p1 * (99 * 99 * 99) + (p2 - p0) * (0 * 99 * 99) + (2 * p0 - 5 * p1 + 4 * p2 - p3) * (0
        * 0 * 99) + (3 * p1 - p0 - 3 * p2 + p3) * (0 * 0 * 0) == 1940598 * p1) by (nonlinear_arith);
    assert((1940598 * p1) / 1940598 == p1);
    assert(2 * p1 * (99 * 99 * 99) + (p2 - p0) * (99 * 99 * 99) + (2 * p0 - 5 * p1 + 4 * p2 - p3) * (
    99 * 99 * 99) + (3 * p1 - p0 - 3 * p2 + p3) * (99 * 99 * 99) == 1940598 * p2)
        by (nonlinear_arith);
    assert((1940598 * p2) / 1940598 == p2);
}

/// A Bézier segment starts at its first end point and ends at its second.
pub proof fn lemma_bezier_ends(p0: int, c1: int, c2: int, p3: int)
    ensures
        bezier_coord(p0, c1, c2, p3, 0) == p0,
        bezier_coord(p0, c1, c2, p3, SAMPLES_PER_SEGMENT - 1) == p3,
{
    assert(p0 * (99 * 99 * 99) + c1 * (3 * (99 * 99 * 0)) + c2 * (3 * (99 * 0 * 0)) + p3 * (0 * 0
        * 0) == 970299 * p0) by (nonlinear_arith);
    assert((970299 * p0) / 970299 == p0);
    assert(p0 * (0 * 0 * 0) + c1 * (3 * (0 * 0 * 99)) + c2 * (3 * (0 * 99 * 99)) + p3 * (99 * 99
        * 99) == 970299 * p3) by (nonlinear_arith);
    assert((970299 * p3) / 970299 == p3);
}

/// Both curves interpolate: the samples of segment `seg` start at the
/// segment's first point and end at its second.
pub proof fn lemma_resampled_interpolates(points: Seq<Point>, method: Smoothing, seg: int)
    requires
        0 <= seg,
        seg + 1 < points.len(),
    ensures
        resampled(points, method)[SAMPLES_PER_SEGMENT * seg] == points[seg],
        resampled(points, method)[SAMPLES_PER_SEGMENT * seg + SAMPLES_PER_SEGMENT - 1] == points[seg
            + 1],
{
    let first = SAMPLES_PER_SEGMENT * seg;
    let last = SAMPLES_PER_SEGMENT * seg + SAMPLES_PER_SEGMENT - 1;
    assert(first / 100 == seg && first % 100 == 0);
    assert(last / 100 == seg && last % 100 == 99);
    let a = points[seg];
    let b = points[seg + 1];
    match method {
        Smoothing::CatmullRom => {
            let p0 = if seg > 0 {
                points[seg - 1]
            } else {
                points[seg]
            };
            let p3 = if seg + 2 < points.len() {
                points[seg + 2]
            } else {
                points[seg + 1]
            };
            lemma_catmull_rom_ends(p0.x as int, a.x as int, b.x as int, p3.x as int);
            lemma_catmull_rom_ends(p0.y as int, a.y as int, b.y as int, p3.y as int);
        },
        Smoothing::Bezier { unit } => {
            let unit = unit as int;
            let t1 = if seg > 0 {
                third_tangent(points[seg - 1], points[seg], unit)
            } else {
                (0, 0)
            };
            let t2 = if seg + 2 < points.len() {
                third_tangent(points[seg + 1], points[seg + 2], unit)
            } else {
                (0, 0)
            };
            lemma_bezier_ends(a.x as int, a.x + t1.0, b.x - t2.0, b.x as int);
            lemma_bezier_ends(a.y as int, a.y + t1.1, b.y - t2.1, b.y as int);
        },
    }
    assert(sample_point(points, method, seg, 0) == a);
    assert(sample_point(points, method, seg, 99) == b);
}

/// The first and last points of the resampled polyline are the first and
/// last points of the input.
pub proof fn lemma_resampled_endpoints(points: Seq<Point>, method: Smoothing)
    requires
        points.len() >= 2,
    ensures
        resampled(points, method).first() == points.first(),
        resampled(points, method).last() == points.last(),
{
    lemma_resampled_interpolates(points, method, 0);
    lemma_resampled_interpolates(points, method, points.len() - 2);
}

} // verus!
