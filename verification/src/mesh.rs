//! Ribbon meshes: a polyline becomes one quad (four vertices, six indices)
//! per segment, and quads near a point can be erased again.
use vstd::prelude::*;
use crate::geometry::{
    clamped_point, dist2, distance_squared, div_floor, fits, lemma_dist2_bounds,
    lemma_share_size_accurate, saturate, share, share_size, Point,
};

verus! {

/// An RGBA colour, eight bits per channel.
#[derive(Clone, Copy, Debug, PartialEq, Eq, Structural)]
pub struct Color {
    pub r: u8,
    pub g: u8,
    pub b: u8,
    pub a: u8,
}

impl Color {
    /// The colour with the given channels.
    pub fn new(r: u8, g: u8, b: u8, a: u8) -> (c: Color)
        ensures
            c == (Color { r, g, b, a }),
    {
        Color { r, g, b, a }
    }

    /// Opaque black.
    pub fn black() -> (c: Color)
        ensures
            c == (Color { r: 0, g: 0, b: 0, a: 255 }),
    {
        Color { r: 0, g: 0, b: 0, a: 255 }
    }
}

/// One mesh vertex. The mesh is flat, so a position has no depth.
#[derive(Clone, Copy, Debug, PartialEq, Eq, Structural)]
pub struct Vertex {
    pub position: Point,
    pub uv: Point,
    pub color: Color,
}

/// A triangle mesh made of quads: vertices in groups of four, indices in
/// groups of six.
#[derive(Debug)]
pub struct Mesh {
    pub vertices: Vec<Vertex>,
    pub indices: Vec<usize>,
}

/// Which of a quad's four vertices the `k`-th of its six indices names: the
/// triangles are (0, 1, 2) and (1, 3, 2).
pub open spec fn corner(k: int) -> int {
    if k == 0 {
        0
    } else if k == 1 {
        1
    } else if k == 2 {
        2
    } else if k == 3 {
        1
    } else if k == 4 {
        3
    } else {
        2
    }
}

/// The value that the index buffer holds at position `i`.
pub open spec fn quad_index(i: int) -> int {
    4 * (i / 6) + corner(i % 6)
}

/// The untextured vertex at lattice point (`x`, `y`) saturated to the
/// coordinate range.
pub open spec fn vertex_at(x: int, y: int, color: Color) -> Vertex {
    Vertex { position: clamped_point(x, y), uv: Point { x: 0, y: 0 }, color }
}

/// Size of one component of the half-width offset of a segment: half the
/// thickness times the share `along / length` of the segment's direction,
/// rounded toward zero. `d2` is the squared length.
pub open spec fn offset_size(along: int, d2: int, thickness: int) -> int {
    share_size(along, d2, thickness, 2)
}

/// Displacement from a segment's centre line to its left edge: the
/// segment's unit direction turned a quarter turn, times half the
/// thickness, each component rounded toward zero.
pub open spec fn half_offset(start: Point, end: Point, thickness: int) -> (int, int) {
    let dx = end.x - start.x;
    let dy = end.y - start.y;
    let d2 = dist2(start, end);
    let across = offset_size(dy, d2, thickness);
    let along = offset_size(dx, d2, thickness);
    (
        if dy > 0 {
            -across
        } else {
            across
        },
        if dx < 0 {
            -along
        } else {
            along
        },
    )
}

/// Whether (`ox`, `oy`) is the half-width offset of the segment up to
/// rounding: it points a quarter turn to the left of the segment; each
/// component is the exact component, `thickness / 2` times the share of the
/// segment's direction, rounded toward zero (the inequalities compare
/// squares, so that no root is taken); and it is no longer than half the
/// thickness.
pub open spec fn accurate_offset(start: Point, end: Point, thickness: int, ox: int, oy: int) -> bool {
    let dx = end.x - start.x;
    let dy = end.y - start.y;
    let d2 = dx * dx + dy * dy;
    let ax = if ox < 0 {
        -ox
    } else {
        ox
    };
    let ay = if oy < 0 {
        -oy
    } else {
        oy
    };
    &&& ox * dy <= 0
    &&& oy * dx >= 0
    &&& (2 * ax) * (2 * ax) * d2 <= (dy * thickness) * (dy * thickness)
    &&& (dy * thickness) * (dy * thickness) < (2 * ax + 2) * (2 * ax + 2) * d2
    &&& (2 * ay) * (2 * ay) * d2 <= (dx * thickness) * (dx * thickness)
    &&& (dx * thickness) * (dx * thickness) < (2 * ay + 2) * (2 * ay + 2) * d2
    &&& 4 * (ox * ox + oy * oy) <= thickness * thickness
}

/// The half-width offset of a segment is accurate to a lattice step.
pub proof fn lemma_half_offset_accurate(start: Point, end: Point, thickness: int)
    requires
        start != end,
        thickness >= 0,
    ensures
        accurate_offset(
            start,
            end,
            thickness,
            half_offset(start, end, thickness).0,
            half_offset(start, end, thickness).1,
        ),
{
    let (ox, oy) = half_offset(start, end, thickness);
    let dx = end.x - start.x;
    let dy = end.y - start.y;
    let d2 = dist2(start, end);
    lemma_dist2_bounds(start, end);
    assert(d2 == dx * dx + dy * dy) by (nonlinear_arith)
        requires
            d2 == (start.x - end.x) * (start.x - end.x) + (start.y - end.y) * (start.y - end.y),
            dx == end.x - start.x,
            dy == end.y - start.y,
    ;
    lemma_share_size_accurate(dy as int, d2, thickness, 2);
    lemma_share_size_accurate(dx as int, d2, thickness, 2);
    let mx = offset_size(dy as int, d2, thickness);
    let my = offset_size(dx as int, d2, thickness);
    assert(ox * dy <= 0) by (nonlinear_arith)
        requires
            mx >= 0,
            ox == if dy > 0 {
                -mx
            } else {
                mx
            },
    ;
    assert(oy * dx >= 0) by (nonlinear_arith)
        requires
            my >= 0,
            oy == if dx < 0 {
                -my
            } else {
                my
            },
    ;
    assert((2 * ox) * (2 * ox) == (2 * mx) * (2 * mx)) by (nonlinear_arith)
        requires
            ox == mx || ox == -mx,
    ;
    assert((2 * oy) * (2 * oy) == (2 * my) * (2 * my)) by (nonlinear_arith)
        requires
            oy == my || oy == -my,
    ;
    let xx = ox * ox;
    let yy = oy * oy;
    let tt = thickness * thickness;
    assert((2 * ox) * (2 * ox) * d2 == 4 * (xx * d2)) by (nonlinear_arith)
        requires
            xx == ox * ox,
    ;
    assert((2 * oy) * (2 * oy) * d2 == 4 * (yy * d2)) by (nonlinear_arith)
        requires
            yy == oy * oy,
    ;
    assert((dy * thickness) * (dy * thickness) == (dy * dy) * tt) by (nonlinear_arith)
        requires
            tt == thickness * thickness,
    ;
    assert((dx * thickness) * (dx * thickness) == (dx * dx) * tt) by (nonlinear_arith)
        requires
            tt == thickness * thickness,
    ;
    assert((dx * dx) * tt + (dy * dy) * tt == d2 * tt) by (nonlinear_arith)
        requires
            d2 == dx * dx + dy * dy,
    ;
    assert(4 * (xx * d2) + 4 * (yy * d2) == (4 * (xx + yy)) * d2) by (nonlinear_arith);
    assert(4 * (xx + yy) <= tt) by (nonlinear_arith)
        requires
            (4 * (xx + yy)) * d2 <= d2 * tt,
            d2 > 0,
    ;
}

/// The four vertices of the thick segment from `start` to `end`.
pub open spec fn quad(start: Point, end: Point, thickness: int, color: Color) -> Seq<Vertex> {
    let (ox, oy) = half_offset(start, end, thickness);
    seq![
        vertex_at(start.x + ox, start.y + oy, color),
        vertex_at(start.x - ox, start.y - oy, color),
        vertex_at(end.x + ox, end.y + oy, color),
        vertex_at(end.x - ox, end.y - oy, color),
    ]
}

/// The shape of a quad whose corners are all representable: its first two
/// vertices lie to either side of the segment's start and the last two to
/// either side of its end, each pair centred on its point and apart by twice
/// the half-width offset, which is no more than the thickness; every vertex
/// has the colour given and no texture coordinate.
pub proof fn lemma_quad_shape(start: Point, end: Point, thickness: int, color: Color)
    requires
        start != end,
        thickness >= 0,
        ({
            let (ox, oy) = half_offset(start, end, thickness);
            &&& fits(start.x + ox) && fits(start.x - ox) && fits(start.y + oy) && fits(start.y - oy)
            &&& fits(end.x + ox) && fits(end.x - ox) && fits(end.y + oy) && fits(end.y - oy)
        }),
    ensures
        ({
            let q = quad(start, end, thickness, color);
            let (ox, oy) = half_offset(start, end, thickness);
            let wx = q[0].position.x - q[1].position.x;
            let wy = q[0].position.y - q[1].position.y;
            &&& q.len() == 4
            &&& q[0].position.x + q[1].position.x == 2 * start.x
            &&& q[0].position.y + q[1].position.y == 2 * start.y
            &&& q[2].position.x + q[3].position.x == 2 * end.x
            &&& q[2].position.y + q[3].position.y == 2 * end.y
            &&& wx == 2 * ox && wy == 2 * oy
            &&& q[2].position.x - q[3].position.x == wx
            &&& q[2].position.y - q[3].position.y == wy
            &&& wx * wx + wy * wy <= thickness * thickness
            &&& accurate_offset(start, end, thickness, ox, oy)
            &&& forall|i: int| 0 <= i < 4 ==> (#[trigger] q[i]).color == color && q[i].uv == (Point {
                x: 0,
                y: 0,
            })
        }),
{
    lemma_half_offset_accurate(start, end, thickness);
    let (ox, oy) = half_offset(start, end, thickness);
    assert((2 * ox) * (2 * ox) + (2 * oy) * (2 * oy) == 4 * (ox * ox + oy * oy)) by (nonlinear_arith);
}

/// The vertices of the ribbon along `points`: one quad per segment, in
/// order, segments of length zero left out.
pub open spec fn ribbon(points: Seq<Point>, thickness: int, color: Color) -> Seq<Vertex>
    decreases points.len(),
{
    if points.len() < 2 {
        Seq::empty()
    } else {
        let head = ribbon(points.drop_last(), thickness, color);
        let start = points[points.len() - 2];
        let end = points[points.len() - 1];
        if start == end {
            head
        } else {
            head + quad(start, end, thickness, color)
        }
    }
}

/// The point of the segment from `a` to `b` nearest to `p`, by projecting
/// `p` onto the segment's line and keeping the projection between the two
/// ends; rounded to the lattice.
pub open spec fn closest_on_segment(p: Point, a: Point, b: Point) -> Point {
    let dx = b.x - a.x;
    let dy = b.y - a.y;
    let dot = (p.x - a.x) * dx + (p.y - a.y) * dy;
    let len2 = dx * dx + dy * dy;
    if dot <= 0 {
        a
    } else if dot >= len2 {
        b
    } else {
        clamped_point(a.x + (dx * dot) / len2, a.y + (dy * dot) / len2)
    }
}

/// Whether the segment from `a` to `b` comes within `radius` of `p`.
pub open spec fn segment_within(p: Point, a: Point, b: Point, radius: int) -> bool {
    dist2(closest_on_segment(p, a, b), p) <= radius * radius
}

/// Whether quad number `q` of `vertices` is hit by the eraser at `p`. The
/// segment tested runs between the quad's first and third vertex.
pub open spec fn quad_hit(vertices: Seq<Vertex>, q: int, p: Point, radius: int) -> bool {
    segment_within(p, vertices[4 * q].position, vertices[4 * q + 2].position, radius)
}

/// The vertices of the first `n` quads of `vertices` that the eraser at `p`
/// leaves, in their order.
pub open spec fn surviving(vertices: Seq<Vertex>, n: nat, p: Point, radius: int) -> Seq<Vertex>
    decreases n,
{
    if n == 0 {
        Seq::empty()
    } else {
        let head = surviving(vertices, (n - 1) as nat, p, radius);
        if quad_hit(vertices, n - 1, p, radius) {
            head
        } else {
            head + vertices.subrange(4 * (n - 1), 4 * (n as int))
        }
    }
}

/// What survives is made of whole quads and is no longer than the input.
pub proof fn lemma_surviving_len(vertices: Seq<Vertex>, n: nat, p: Point, radius: int)
    requires
        4 * n <= vertices.len(),
    ensures
        surviving(vertices, n, p, radius).len() % 4 == 0,
        surviving(vertices, n, p, radius).len() <= 4 * n,
    decreases n,
{
    if n > 0 {
        lemma_surviving_len(vertices, (n - 1) as nat, p, radius);
    }
}

/// Computes the nearest point of a segment, as `closest_on_segment` states.
pub fn closest_point(p: Point, a: Point, b: Point) -> (c: Point)
    ensures
        c == closest_on_segment(p, a, b),
{
    let dx: i128 = b.x as i128 - a.x as i128;
    let dy: i128 = b.y as i128 - a.y as i128;
    let px: i128 = p.x as i128 - a.x as i128;
    let py: i128 = p.y as i128 - a.y as i128;
    proof {
        lemma_dist2_bounds(b, a);
        assert(-4294967295 * 4294967295 <= px * dx <= 4294967295 * 4294967295) by (nonlinear_arith)
            requires
                -4294967295 <= px <= 4294967295,
                -4294967295 <= dx <= 4294967295,
        ;
        assert(-4294967295 * 4294967295 <= py * dy <= 4294967295 * 4294967295) by (nonlinear_arith)
            requires
                -4294967295 <= py <= 4294967295,
                -4294967295 <= dy <= 4294967295,
        ;
    }
    let dot: i128 = px * dx + py * dy;
    let len2: i128 = dx * dx + dy * dy;
    if dot <= 0 {
        a
    } else if dot >= len2 {
        b
    } else {
        proof {
            assert(-4294967295 * (2 * 4294967295 * 4294967295) <= dx * dot <= 4294967295 * (2
                * 4294967295 * 4294967295)) by (nonlinear_arith)
                requires
                    -4294967295 <= dx <= 4294967295,
                    0 <= dot <= 2 * 4294967295 * 4294967295,
            ;
            assert(-4294967295 * (2 * 4294967295 * 4294967295) <= dy * dot <= 4294967295 * (2
                * 4294967295 * 4294967295)) by (nonlinear_arith)
                requires
                    -4294967295 <= dy <= 4294967295,
                    0 <= dot <= 2 * 4294967295 * 4294967295,
            ;
            assert(-4294967295 <= (dx * dot) / (len2 as int) <= 4294967295) by (nonlinear_arith)
                requires
                    -4294967295 <= dx <= 4294967295,
                    0 < dot < len2,
            ;
            assert(-4294967295 <= (dy * dot) / (len2 as int) <= 4294967295) by (nonlinear_arith)
                requires
                    -4294967295 <= dy <= 4294967295,
                    0 < dot < len2,
            ;
        }
        let qx: i128 = div_floor(dx * dot, len2);
        let qy: i128 = div_floor(dy * dot, len2);
        Point { x: saturate(a.x as i128 + qx), y: saturate(a.y as i128 + qy) }
    }
}

/// Whether the segment from `a` to `b` comes within `radius` of `p`.
pub fn segment_in_range(p: Point, a: Point, b: Point, radius: u32) -> (hit: bool)
    ensures
        hit == segment_within(p, a, b, radius as int),
{
    let c = closest_point(p, a, b);
    let d: i128 = distance_squared(c, p);
    let r: i128 = radius as i128;
    assert(0 <= r * r <= 4294967295 * 4294967295) by (nonlinear_arith)
        requires
            0 <= r <= 4294967295,
    ;
    d <= r * r
}

/// Computes the four vertices of one thick segment.
pub fn segment_quad(start: Point, end: Point, thickness: u32, color: Color) -> (q: (
    Vertex,
    Vertex,
    Vertex,
    Vertex,
))
    requires
        start != end,
    ensures
        seq![q.0, q.1, q.2, q.3] == quad(start, end, thickness as int, color),
        accurate_offset(
            start,
            end,
            thickness as int,
            half_offset(start, end, thickness as int).0,
            half_offset(start, end, thickness as int).1,
        ),
{
    let d2: i128 = distance_squared(start, end);
    proof {
        lemma_dist2_bounds(start, end);
        lemma_half_offset_accurate(start, end, thickness as int);
    }
    let dx: i128 = end.x as i128 - start.x as i128;
    let dy: i128 = end.y as i128 - start.y as i128;
    let across: i128 = share(dy, d2, thickness, 2);
    let along: i128 = share(dx, d2, thickness, 2);
    let ox: i128 = if dy > 0 {
        -across
    } else {
        across
    };
    let oy: i128 = if dx < 0 {
        -along
    } else {
        along
    };
    let uv = Point { x: 0, y: 0 };
    let sx: i128 = start.x as i128;
    let sy: i128 = start.y as i128;
    let ex: i128 = end.x as i128;
    let ey: i128 = end.y as i128;
    let v1 = Vertex { position: Point { x: saturate(sx + ox), y: saturate(sy + oy) }, uv, color };
    let v2 = Vertex { position: Point { x: saturate(sx - ox), y: saturate(sy - oy) }, uv, color };
    let v3 = Vertex { position: Point { x: saturate(ex + ox), y: saturate(ey + oy) }, uv, color };
    let v4 = Vertex { position: Point { x: saturate(ex - ox), y: saturate(ey - oy) }, uv, color };
    proof {
        assert(seq![v1, v2, v3, v4] =~= quad(start, end, thickness as int, color));
    }
    (v1, v2, v3, v4)
}

impl Mesh {
    /// Number of quads in the mesh.
    pub open spec fn quad_count(&self) -> nat {
        self.vertices@.len() / 4
    }

    /// The mesh invariant: vertices come in fours, indices in sixes, one
    /// group of each per quad, and the six indices of a quad name its own
    /// four vertices in the fixed triangle pattern.
    pub open spec fn wf(&self) -> bool {
        &&& self.vertices@.len() % 4 == 0
        &&& self.indices@.len() == 6 * (self.vertices@.len() / 4)
        &&& forall|i: int| 0 <= i < self.indices@.len() ==> #[trigger] self.indices@[i] == quad_index(i)
    }

    /// The empty mesh.
    pub fn new() -> (m: Mesh)
        ensures
            m.wf(),
            m.vertices@.len() == 0,
            m.indices@.len() == 0,
    {
        Mesh { vertices: Vec::new(), indices: Vec::new() }
    }

    /// Checks the mesh invariant, for callers that fill the buffers
    /// themselves.
    pub fn is_valid(&self) -> (ok: bool)
        ensures
            ok == self.wf(),
    {
        let n: usize = self.vertices.len();
        let m: usize = self.indices.len();
        if n % 4 != 0 || m % 6 != 0 || m / 6 != n / 4 {
            return false;
        }
        let mut i: usize = 0;
        while i < m
            invariant
                i <= m,
                m == self.indices@.len(),
                n == self.vertices@.len(),
                n % 4 == 0,
                m % 6 == 0,
                m / 6 == n / 4,
                forall|j: int| 0 <= j < i ==> #[trigger] self.indices@[j] == quad_index(j),
            decreases m - i,
        {
            let k: usize = i % 6;
            let c: usize = if k == 0 {
                0
            } else if k == 1 {
                1
            } else if k == 2 {
                2
            } else if k == 3 {
                1
            } else if k == 4 {
                3
            } else {
                2
            };
            assert(4 * (i / 6) + c < n);
            if self.indices[i] != 4 * (i / 6) + c {
                return false;
            }
            i = i + 1;
        }
        true
    }

    /// Number of vertices.
    pub fn vertex_count(&self) -> (n: usize)
        ensures
            n == self.vertices@.len(),
    {
        self.vertices.len()
    }

    /// Number of indices.
    pub fn index_count(&self) -> (n: usize)
        ensures
            n == self.indices@.len(),
    {
        self.indices.len()
    }

    /// Appends one quad and its six indices.
    pub fn push_quad(&mut self, q: (Vertex, Vertex, Vertex, Vertex))
        requires
            old(self).wf(),
        ensures
            final(self).wf(),
            final(self).vertices@ == old(self).vertices@ + seq![q.0, q.1, q.2, q.3],
    {
        self.vertices.push(q.0);
        self.vertices.push(q.1);
        self.vertices.push(q.2);
        self.vertices.push(q.3);
        let n: usize = self.vertices.len();
        let base: usize = n - 4;
        self.indices.push(base);
        self.indices.push(base + 1);
        self.indices.push(base + 2);
        self.indices.push(base + 1);
        self.indices.push(base + 3);
        self.indices.push(base + 2);
        proof {
            assert(self.vertices@ =~= old(self).vertices@ + seq![q.0, q.1, q.2, q.3]);
            let m = old(self).indices@.len() as int;
            assert(m == 6 * (base as int / 4));
            assert forall|i: int| 0 <= i < self.indices@.len() implies #[trigger] self.indices@[i]
                == quad_index(i) by {
                if i < m {
                    assert(self.indices@[i] == old(self).indices@[i]);
                } else {
                    assert(i / 6 == base as int / 4);
                    assert(i % 6 == i - m);
                }
            }
        }
    }

    /// Drops every vertex from number `n` on, with the indices of the quads
    /// that go. `n` is a whole number of quads.
    pub fn truncate(&mut self, n: usize)
        requires
            old(self).wf(),
            n % 4 == 0,
            n <= old(self).vertices@.len(),
        ensures
            final(self).wf(),
            final(self).vertices@ == old(self).vertices@.take(n as int),
    {
        let total: usize = self.indices.len();
        let quads: usize = n / 4;
        assert(quads * 6 <= total);
        self.vertices.truncate(n);
        self.indices.truncate(quads * 6);
        proof {
            assert(self.vertices@ =~= old(self).vertices@.take(n as int));
        }
    }

    /// Appends the ribbon along `polyline` to the mesh.
    pub fn append_ribbon(&mut self, polyline: &Vec<Point>, thickness: u32, color: Color)
        requires
            old(self).wf(),
        ensures
            final(self).wf(),
            final(self).vertices@ == old(self).vertices@ + ribbon(
                polyline@,
                thickness as int,
                color,
            ),
    {
        let n: usize = polyline.len();
        if n < 2 {
            assert(self.vertices@ =~= old(self).vertices@ + ribbon(
                polyline@,
                thickness as int,
                color,
            ));
            return ;
        }
        let mut i: usize = 1;
        assert(self.vertices@ =~= old(self).vertices@ + ribbon(
            polyline@.take(1),
            thickness as int,
            color,
        ));
        while i < n
            invariant
                1 <= i <= n,
                n == polyline@.len(),
                self.wf(),
                self.vertices@ == old(self).vertices@ + ribbon(
                    polyline@.take(i as int),
                    thickness as int,
                    color,
                ),
            decreases n - i,
        {
            let start = polyline[i - 1];
            let end = polyline[i];
            proof {
                assert(polyline@.take(i + 1).drop_last() =~= polyline@.take(i as int));
            }
            if start.x != end.x || start.y != end.y {
                let q = segment_quad(start, end, thickness, color);
                self.push_quad(q);
                assert(self.vertices@ =~= old(self).vertices@ + ribbon(
                    polyline@.take(i + 1),
                    thickness as int,
                    color,
                ));
            }
            i = i + 1;
        }
        proof {
            assert(polyline@.take(n as int) =~= polyline@);
        }
    }

    /// Replaces the mesh by the ribbon along `polyline`.
    pub fn rebuild(&mut self, polyline: &Vec<Point>, thickness: u32, color: Color)
        ensures
            final(self).wf(),
            final(self).vertices@ == ribbon(polyline@, thickness as int, color),
    {
        self.vertices.clear();
        self.indices.clear();
        self.append_ribbon(polyline, thickness, color);
        proof {
            assert(self.vertices@ =~= ribbon(polyline@, thickness as int, color));
        }
    }

    /// Removes every quad whose segment comes within `radius` of `position`
    /// and numbers the indices of the remaining quads afresh.
    pub fn erase_at(&mut self, position: Point, radius: u32)
        requires
            old(self).wf(),
        ensures
            final(self).wf(),
            final(self).vertices@ == surviving(
                old(self).vertices@,
                old(self).quad_count(),
                position,
                radius as int,
            ),
            forall|q: int|
                0 <= q < final(self).quad_count() ==> !quad_hit(
                    final(self).vertices@,
                    q,
                    position,
                    radius as int,
                ),
            forall|i: int|
                0 <= i < final(self).indices@.len() ==> #[trigger] final(self).indices@[i]
                    < final(self).vertices@.len(),
            final(self).vertices@.len() <= old(self).vertices@.len(),
    {
        let _ = self.erase_with_mark(position, radius, 0);
    }

    /// Erases as `erase_at` does and follows a mark through the erasure:
    /// returns how many of the first `mark` vertices remain, which is where
    /// the vertex that stood at `mark` stands afterwards.
    pub fn erase_with_mark(&mut self, position: Point, radius: u32, mark: usize) -> (moved: usize)
        requires
            old(self).wf(),
            mark % 4 == 0,
            mark <= old(self).vertices@.len(),
        ensures
            final(self).wf(),
            final(self).vertices@ == surviving(
                old(self).vertices@,
                old(self).quad_count(),
                position,
                radius as int,
            ),
            moved == surviving(old(self).vertices@, (mark / 4) as nat, position, radius as int).len(),
            moved % 4 == 0,
            moved <= final(self).vertices@.len(),
            final(self).vertices@.len() <= old(self).vertices@.len(),
            forall|q: int|
                0 <= q < final(self).quad_count() ==> !quad_hit(
                    final(self).vertices@,
                    q,
                    position,
                    radius as int,
                ),
            forall|i: int|
                0 <= i < final(self).indices@.len() ==> #[trigger] final(self).indices@[i]
                    < final(self).vertices@.len(),
    {
        let mut kept = Mesh::new();
        let n: usize = self.vertices.len();
        let mut moved: usize = 0;
        let mut i: usize = 0;
        while i < n
            invariant
                n == self.vertices@.len(),
                n % 4 == 0,
                i % 4 == 0,
                i <= n,
                mark % 4 == 0,
                mark <= n,
                kept.wf(),
                kept.vertices@ == surviving(
                    self.vertices@,
                    (i / 4) as nat,
                    position,
                    radius as int,
                ),
                i <= mark ==> moved == 0,
                i > mark ==> moved == surviving(
                    self.vertices@,
                    (mark / 4) as nat,
                    position,
                    radius as int,
                ).len(),
                moved % 4 == 0,
                moved <= kept.vertices@.len(),
                forall|q: int|
                    0 <= q < kept.quad_count() ==> !quad_hit(
                        kept.vertices@,
                        q,
                        position,
                        radius as int,
                    ),
            decreases n - i,
        {
            if i == mark {
                moved = kept.vertex_count();
            }
            let a = self.vertices[i];
            let b = self.vertices[i + 1];
            let c = self.vertices[i + 2];
            let d = self.vertices[i + 3];
            let ghost before = kept.vertices@;
            if !segment_in_range(position, a.position, c.position, radius) {
                kept.push_quad((a, b, c, d));
                proof {
                    assert(seq![a, b, c, d] =~= self.vertices@.subrange(i as int, i + 4));
                    let k = before.len() as int / 4;
                    assert(kept.quad_count() == k + 1);
                    assert forall|q: int| 0 <= q < kept.quad_count() implies !quad_hit(
                        kept.vertices@,
                        q,
                        position,
                        radius as int,
                    ) by {
                        if q < k {
                            assert(kept.vertices@[4 * q] == before[4 * q]);
                            assert(kept.vertices@[4 * q + 2] == before[4 * q + 2]);
                            assert(!quad_hit(before, q, position, radius as int));
                        } else {
                            assert(kept.vertices@[4 * q] == a);
                            assert(kept.vertices@[4 * q + 2] == c);
                        }
                    }
                }
            }
            proof {
                assert((i + 4) / 4 == i / 4 + 1);
                assert(4 * (i / 4) == i);
            }
            i = i + 4;
        }
        if mark == n {
            moved = kept.vertex_count();
        }
        proof {
            lemma_indices_in_bounds(kept);
            lemma_surviving_len(self.vertices@, (n / 4) as nat, position, radius as int);
        }
        *self = kept;
        moved
    }
}

/// Every index of a well-formed mesh names one of its vertices.
pub proof fn lemma_indices_in_bounds(mesh: Mesh)
    requires
        mesh.wf(),
    ensures
        forall|i: int|
            0 <= i < mesh.indices@.len() ==> 0 <= #[trigger] mesh.indices@[i] < mesh.vertices@.len(),
{
    assert forall|i: int| 0 <= i < mesh.indices@.len() implies 0 <= #[trigger] mesh.indices@[i]
        < mesh.vertices@.len() by {
        assert(mesh.indices@[i] == quad_index(i));
        assert(i / 6 < mesh.vertices@.len() / 4);
    }
}

} // verus!
