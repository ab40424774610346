//! The drawing canvas: the stroke in progress, the mesh of all finished
//! strokes, and erasure.
//!
//! The mesh holds the quads of the finished strokes first, `committed`
//! vertices in all, and after them the quads of the stroke in progress as
//! they were last built. Finishing a stroke replaces that tail by the ribbon
//! along the resampled stroke and moves the mark to the end. Erasing removes
//! quads on both sides of the mark and moves the mark with the finished
//! quads that remain.
use vstd::prelude::*;
use crate::camera::{Camera, ZOOM_ONE};
use crate::geometry::{dist2, distance_squared, lemma_dist2_bounds, Point};
use crate::line_smoothing::{resample, resampled, Smoothing};
use crate::mesh::{quad_hit, ribbon, surviving, Color, Mesh, Vertex};

verus! {

/// Reach of the eraser of a new canvas, in screen steps.
pub const DEFAULT_ERASER_REACH: u32 = 10;

/// Whether a new sample at `p` is far enough from the last recorded point to
/// be kept: farther than `min_step` world steps at zoom one, and in
/// proportion less when zoomed in, so that samples are evenly dense on the
/// screen.
pub open spec fn far_enough(last: Point, p: Point, min_step: int, zoom: int) -> bool {
    dist2(last, p) * (zoom * zoom) > (min_step * ZOOM_ONE) * (min_step * ZOOM_ONE)
}

/// Decides whether a sample is far enough from the last recorded point.
pub fn exceeds_step(last: Point, p: Point, min_step: u32, zoom: u32) -> (far: bool)
    ensures
        far == far_enough(last, p, min_step as int, zoom as int),
{
    let d2: i128 = distance_squared(last, p);
    let z: i128 = zoom as i128;
    let t: i128 = min_step as i128 * 1000;
    proof {
        lemma_dist2_bounds(last, p);
        assert(0 <= z * z <= 4294967295 * 4294967295) by (nonlinear_arith)
            requires
                0 <= z <= 4294967295,
        ;
        assert(0 <= t * t <= 4294967295000 * 4294967295000) by (nonlinear_arith)
            requires
                0 <= t <= 4294967295000,
        ;
    }
    let z2: i128 = z * z;
    let t2: i128 = t * t;
    if z2 == 0 {
        assert(d2 * z2 == 0) by (nonlinear_arith)
            requires
                z2 == 0,
        ;
        return false;
    }
    let q: i128 = t2 / z2;
    proof {
        let r = t2 as int % z2 as int;
        vstd::arithmetic::div_mod::lemma_fundamental_div_mod(t2 as int, z2 as int);
        vstd::arithmetic::div_mod::lemma_mod_bound(t2 as int, z2 as int);
        if d2 > q {
            assert(d2 * z2 > t2) by (nonlinear_arith)
                requires
                    d2 >= q + 1,
                    t2 == z2 * q + r,
                    0 <= r < z2,
            ;
        } else {
            assert(d2 * z2 <= t2) by (nonlinear_arith)
                requires
                    0 <= d2 <= q,
                    t2 == z2 * q + r,
                    0 <= r < z2,
            ;
        }
    }
    d2 > q
}

/// The canvas: one mesh, the working buffer of the stroke in progress, and
/// the pen settings.
#[derive(Debug)]
pub struct DrawingCanvas {
    /// The renderable geometry.
    pub mesh: Mesh,
    /// Points of the stroke in progress; empty while no stroke is active.
    pub current_line: Vec<Point>,
    /// Colour of the strokes drawn from now on.
    pub current_color: Color,
    /// Thickness of the strokes drawn from now on, in world steps.
    pub line_thickness: u32,
    /// The curve that finished strokes are resampled along.
    pub smoothing: Smoothing,
    /// Least distance between recorded samples at zoom one, in world steps.
    pub min_step: u32,
    /// Reach of the eraser on the screen, in screen steps.
    pub eraser_reach: u32,
    /// Number of mesh vertices that belong to finished strokes.
    pub committed: usize,
    /// Whether the stroke in progress changed since the mesh was built.
    pub needs_update: bool,
    /// Camera position at the last build.
    pub last_camera_pos: Point,
    /// Camera zoom at the last build.
    pub last_camera_zoom: u32,
}

impl DrawingCanvas {
    /// The canvas invariant: the mesh is well formed and the mark of the
    /// finished strokes falls on a quad boundary inside it.
    pub open spec fn wf(&self) -> bool {
        &&& self.mesh.wf()
        &&& self.committed % 4 == 0
        &&& self.committed <= self.mesh.vertices@.len()
    }

    /// The vertices of the finished strokes.
    pub open spec fn committed_vertices(&self) -> Seq<Vertex> {
        self.mesh.vertices@.take(self.committed as int)
    }

    /// Whether a stroke is in progress.
    pub open spec fn active(&self) -> bool {
        self.current_line@.len() > 0
    }

    /// Whether the pen settings and the remembered camera are those of
    /// `before`.
    pub open spec fn same_settings(&self, before: &DrawingCanvas) -> bool {
        &&& self.current_color == before.current_color
        &&& self.line_thickness == before.line_thickness
        &&& self.smoothing == before.smoothing
        &&& self.min_step == before.min_step
        &&& self.eraser_reach == before.eraser_reach
        &&& self.last_camera_pos == before.last_camera_pos
        &&& self.last_camera_zoom == before.last_camera_zoom
    }

    /// The canvas is `before` with a stroke started at `position`: the
    /// working buffer holds that point alone and the mesh shows the finished
    /// strokes only.
    pub open spec fn follows_start(&self, before: &DrawingCanvas, position: Point) -> bool {
        &&& self.same_settings(before)
        &&& self.current_line@ == seq![position]
        &&& self.mesh.vertices@ == before.committed_vertices()
        &&& self.committed == before.committed
        &&& !self.needs_update
    }

    /// The canvas is `before` after a sample at `position` seen at `zoom`:
    /// the sample is recorded if no point was recorded yet or if it is far
    /// enough from the last one, and dropped otherwise.
    pub open spec fn follows_sample(&self, before: &DrawingCanvas, position: Point, zoom: u32) -> bool {
        &&& self.same_settings(before)
        &&& self.mesh.vertices@ == before.mesh.vertices@
        &&& self.committed == before.committed
        &&& if before.current_line@.len() == 0 || far_enough(
            before.current_line@.last(),
            position,
            before.min_step as int,
            zoom as int,
        ) {
            &&& self.current_line@ == before.current_line@.push(position)
            &&& self.needs_update
        } else {
            &&& self.current_line@ == before.current_line@
            &&& self.needs_update == before.needs_update
        }
    }

    /// The canvas is `before` with the mesh built anew: the finished
    /// strokes, then the ribbon along the stroke in progress.
    pub open spec fn follows_rebuild(&self, before: &DrawingCanvas) -> bool {
        &&& self.current_color == before.current_color
        &&& self.line_thickness == before.line_thickness
        &&& self.smoothing == before.smoothing
        &&& self.min_step == before.min_step
        &&& self.eraser_reach == before.eraser_reach
        &&& self.current_line@ == before.current_line@
        &&& self.committed == before.committed
        &&& self.mesh.vertices@ == before.committed_vertices() + ribbon(
            before.current_line@,
            before.line_thickness as int,
            before.current_color,
        )
        &&& !self.needs_update
    }

    /// The canvas is `before` with its stroke finished: a stroke of two or
    /// more points is resampled and its ribbon joins the finished strokes, a
    /// shorter one is discarded; either way no stroke is active afterwards.
    pub open spec fn follows_end(&self, before: &DrawingCanvas) -> bool {
        &&& self.same_settings(before)
        &&& self.current_line@.len() == 0
        &&& !self.needs_update
        &&& self.committed == self.mesh.vertices@.len()
        &&& self.mesh.vertices@ == if before.current_line@.len() >= 2 {
            before.committed_vertices() + ribbon(
                resampled(before.current_line@, before.smoothing),
                before.line_thickness as int,
                before.current_color,
            )
        } else {
            before.committed_vertices()
        }
    }

    /// The canvas is `before` with the eraser applied at `position`: of all
    /// quads in the mesh, those out of reach remain, unchanged and in order,
    /// those of the stroke in progress after those of the finished strokes.
    /// The stroke in progress keeps its points, so a quad of its that was
    /// erased returns when its ribbon is next built.
    pub open spec fn follows_erase(&self, before: &DrawingCanvas, position: Point, radius: u32) -> bool {
        &&& self.same_settings(before)
        &&& self.current_line@ == before.current_line@
        &&& self.needs_update == before.needs_update
        &&& self.mesh.vertices@ == surviving(
            before.mesh.vertices@,
            before.mesh.quad_count(),
            position,
            radius as int,
        )
        &&& self.committed == surviving(
            before.mesh.vertices@,
            (before.committed / 4) as nat,
            position,
            radius as int,
        ).len()
    }

    /// An empty canvas with a black pen of thickness two, a sample threshold
    /// of one step and an eraser that reaches ten steps.
    pub fn new() -> (c: DrawingCanvas)
        ensures
            c.wf(),
            c.mesh.vertices@.len() == 0,
            c.current_line@.len() == 0,
            c.current_color == (Color { r: 0, g: 0, b: 0, a: 255 }),
            c.line_thickness == 2,
            c.smoothing == Smoothing::CatmullRom,
            c.min_step == 1,
            c.eraser_reach == DEFAULT_ERASER_REACH,
            c.committed == 0,
            !c.needs_update,
            c.last_camera_pos == (Point { x: 0, y: 0 }),
            c.last_camera_zoom == ZOOM_ONE,
    {
        DrawingCanvas {
            mesh: Mesh::new(),
            current_line: Vec::new(),
            current_color: Color::black(),
            line_thickness: 2,
            smoothing: Smoothing::CatmullRom,
            min_step: 1,
            eraser_reach: DEFAULT_ERASER_REACH,
            committed: 0,
            needs_update: false,
            last_camera_pos: Point { x: 0, y: 0 },
            last_camera_zoom: ZOOM_ONE,
        }
    }

    /// Checks the canvas invariant, for callers that touch the fields
    /// themselves.
    pub fn is_valid(&self) -> (ok: bool)
        ensures
            ok == self.wf(),
    {
        self.mesh.is_valid() && self.committed % 4 == 0 && self.committed
            <= self.mesh.vertex_count()
    }

    /// Starts a stroke at `position`, dropping any stroke left unfinished.
    pub fn start_line(&mut self, position: Point)
        requires
            old(self).wf(),
        ensures
            final(self).wf(),
            final(self).follows_start(old(self), position),
    {
        self.mesh.truncate(self.committed);
        self.current_line.clear();
        self.current_line.push(position);
        self.needs_update = false;
        proof {
            assert(self.current_line@ =~= seq![position]);
        }
    }

    /// Offers a sample at `position`, seen at camera zoom `zoom`, to the
    /// stroke in progress.
    pub fn add_point(&mut self, position: Point, zoom: u32)
        requires
            old(self).wf(),
        ensures
            final(self).wf(),
            final(self).follows_sample(old(self), position, zoom),
    {
        let n: usize = self.current_line.len();
        if n == 0 {
            self.current_line.push(position);
            self.needs_update = true;
        } else {
            let last = self.current_line[n - 1];
            if exceeds_step(last, position, self.min_step, zoom) {
                self.current_line.push(position);
                self.needs_update = true;
            }
        }
    }

    /// Builds the mesh anew from the finished strokes and the stroke in
    /// progress.
    pub fn update_mesh(&mut self)
        requires
            old(self).wf(),
        ensures
            final(self).wf(),
            final(self).follows_rebuild(old(self)),
            final(self).last_camera_pos == old(self).last_camera_pos,
            final(self).last_camera_zoom == old(self).last_camera_zoom,
    {
        self.mesh.truncate(self.committed);
        self.mesh.append_ribbon(&self.current_line, self.line_thickness, self.current_color);
        self.needs_update = false;
    }

    /// Finishes the stroke in progress.
    pub fn end_line(&mut self)
        requires
            old(self).wf(),
        ensures
            final(self).wf(),
            final(self).follows_end(old(self)),
    {
        self.mesh.truncate(self.committed);
        if self.current_line.len() > 1 {
            let dense = resample(self.current_line.as_slice(), self.smoothing);
            self.mesh.append_ribbon(&dense, self.line_thickness, self.current_color);
        }
        self.committed = self.mesh.vertex_count();
        self.current_line.clear();
        self.needs_update = false;
    }

    /// Brings the mesh up to date before it is shown through `camera`: it is
    /// built anew if the stroke in progress changed or the camera moved
    /// since the last build. Returns whether it was.
    pub fn refresh(&mut self, camera: &Camera) -> (rebuilt: bool)
        requires
            old(self).wf(),
        ensures
            final(self).wf(),
            rebuilt == (old(self).needs_update || camera.position != old(self).last_camera_pos
                || camera.zoom != old(self).last_camera_zoom),
            rebuilt ==> final(self).follows_rebuild(old(self)) && final(self).last_camera_pos
                == camera.position && final(self).last_camera_zoom == camera.zoom,
            !rebuilt ==> final(self).same_settings(old(self)),
            !rebuilt ==> final(self).mesh.vertices@ == old(self).mesh.vertices@,
            !rebuilt ==> final(self).current_line@ == old(self).current_line@,
            !rebuilt ==> final(self).committed == old(self).committed,
            !rebuilt ==> !final(self).needs_update,
    {
        if self.needs_update || camera.position.x != self.last_camera_pos.x || camera.position.y
            != self.last_camera_pos.y || camera.zoom != self.last_camera_zoom {
            self.update_mesh();
            self.last_camera_pos = camera.position;
            self.last_camera_zoom = camera.zoom;
            true
        } else {
            false
        }
    }

    /// Sets the pen colour.
    pub fn set_color(&mut self, color: Color)
        ensures
            *final(self) == (DrawingCanvas { current_color: color, ..*old(self) }),
    {
        self.current_color = color;
    }

    /// Sets the pen thickness, in world steps.
    pub fn set_thickness(&mut self, thickness: u32)
        ensures
            *final(self) == (DrawingCanvas { line_thickness: thickness, ..*old(self) }),
    {
        self.line_thickness = thickness;
    }

    /// Chooses the curve that finished strokes are resampled along.
    pub fn set_smoothing(&mut self, smoothing: Smoothing)
        ensures
            *final(self) == (DrawingCanvas { smoothing, ..*old(self) }),
    {
        self.smoothing = smoothing;
    }

    /// Sets the least distance between recorded samples at zoom one.
    pub fn set_min_step(&mut self, min_step: u32)
        ensures
            *final(self) == (DrawingCanvas { min_step, ..*old(self) }),
    {
        self.min_step = min_step;
    }

    /// Sets the reach of the eraser on the screen, in screen steps.
    pub fn set_eraser_reach(&mut self, reach: u32)
        ensures
            *final(self) == (DrawingCanvas { eraser_reach: reach, ..*old(self) }),
    {
        self.eraser_reach = reach;
    }

    /// Removes every quad whose segment comes within `radius` of
    /// `position`, of finished strokes and of the stroke in progress alike.
    pub fn erase_at(&mut self, position: Point, radius: u32)
        requires
            old(self).wf(),
        ensures
            final(self).wf(),
            final(self).follows_erase(old(self), position, radius),
            final(self).mesh.vertices@.len() <= old(self).mesh.vertices@.len(),
            forall|q: int|
                0 <= q < final(self).mesh.quad_count() ==> !quad_hit(
                    final(self).mesh.vertices@,
                    q,
                    position,
                    radius as int,
                ),
            forall|i: int|
                0 <= i < final(self).mesh.indices@.len() ==> #[trigger] final(self).mesh.indices@[i]
                    < final(self).mesh.vertices@.len(),
    {
        self.committed = self.mesh.erase_with_mark(position, radius, self.committed);
    }
}

} // verus!
