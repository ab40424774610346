//! The camera: where the viewport sits on the world plane, how far it is
//! zoomed in, and the mapping between world and screen coordinates.
//!
//! Zoom is held in thousandths: `ZOOM_ONE` shows one world step per screen
//! step. Divisions round toward negative infinity.
use vstd::prelude::*;
use vstd::arithmetic::div_mod::lemma_fundamental_div_mod;
use vstd::arithmetic::div_mod::lemma_mod_bound;
use crate::geometry::{clamp_coord, clamped_point, div_floor, fits, saturate, Point};

verus! {

/// The zoom value at which world and screen steps have the same size.
pub const ZOOM_ONE: u32 = 1000;

/// Scroll speed of a new camera, in screen steps per notch of the wheel.
pub const DEFAULT_SCROLL_SPEED: u32 = 2;

/// Size of the viewport in screen steps.
#[derive(Clone, Copy, Debug, PartialEq, Eq, Structural)]
pub struct Viewport {
    pub width: u32,
    pub height: u32,
}

/// View position, zoom and the pointer position seen last.
#[derive(Clone, Copy, Debug, PartialEq, Eq, Structural)]
pub struct Camera {
    /// World point at the centre of the viewport.
    pub position: Point,
    /// Zoom in thousandths, always between `min_zoom` and `max_zoom`.
    pub zoom: u32,
    /// Screen position of the pointer when it was last observed.
    pub last_mouse_position: Point,
    /// Smallest zoom, in thousandths; positive.
    pub min_zoom: u32,
    /// Largest zoom, in thousandths.
    pub max_zoom: u32,
    /// Screen steps that one notch of the wheel scrolls the view by.
    pub scroll_speed: u32,
}

/// `v` limited to the range from `lo` to `hi`.
pub open spec fn clamp_between(v: int, lo: int, hi: int) -> int {
    if v < lo {
        lo
    } else if v > hi {
        hi
    } else {
        v
    }
}

/// The zoom after a relative change by `delta` thousandths, limited to the
/// configured range.
pub open spec fn scaled_zoom(zoom: int, delta: int, min: int, max: int) -> int {
    clamp_between(zoom * (ZOOM_ONE + delta) / (ZOOM_ONE as int), min, max)
}

/// Screen coordinate of a world coordinate, before saturation.
pub open spec fn to_screen_coord(world: int, position: int, zoom: int, center: int) -> int {
    (world - position) * zoom / (ZOOM_ONE as int) + center
}

/// World coordinate of a screen coordinate, before saturation.
pub open spec fn to_world_coord(screen: int, position: int, zoom: int, center: int) -> int {
    (screen - center) * ZOOM_ONE / zoom + position
}

/// A camera coordinate after a drag by `delta` screen steps: the view moves
/// against the drag, by the drag's size in world steps.
pub open spec fn panned_coord(position: int, delta: int, zoom: int) -> int {
    position - delta * ZOOM_ONE / zoom
}

/// Screen steps that a wheel movement of `wheel` thousandths of a notch
/// scrolls by at the given speed.
pub open spec fn scroll_steps(speed: int, wheel: int) -> int {
    speed * wheel / (ZOOM_ONE as int)
}

impl Viewport {
    /// The viewport of the given size.
    pub fn new(width: u32, height: u32) -> (v: Viewport)
        ensures
            v == (Viewport { width, height }),
    {
        Viewport { width, height }
    }

    /// Screen x of the viewport's centre.
    pub open spec fn center_x(&self) -> int {
        self.width as int / 2
    }

    /// Screen y of the viewport's centre.
    pub open spec fn center_y(&self) -> int {
        self.height as int / 2
    }
}

impl Camera {
    /// The camera invariant: the zoom range is not empty, starts above
    /// zero, and holds the zoom.
    pub open spec fn wf(&self) -> bool {
        0 < self.min_zoom <= self.zoom <= self.max_zoom
    }

    /// Where world point `p` appears on the screen.
    pub open spec fn screen_of(&self, p: Point, viewport: Viewport) -> Point {
        clamped_point(
            to_screen_coord(p.x as int, self.position.x as int, self.zoom as int, viewport.center_x()),
            to_screen_coord(p.y as int, self.position.y as int, self.zoom as int, viewport.center_y()),
        )
    }

    /// Which world point appears at screen point `p`.
    pub open spec fn world_of(&self, p: Point, viewport: Viewport) -> Point {
        clamped_point(
            to_world_coord(p.x as int, self.position.x as int, self.zoom as int, viewport.center_x()),
            to_world_coord(p.y as int, self.position.y as int, self.zoom as int, viewport.center_y()),
        )
    }

    /// The camera with its zoom changed by `delta` thousandths.
    pub open spec fn with_zoom_adjusted(&self, delta: int) -> Camera {
        Camera {
            zoom: scaled_zoom(self.zoom as int, delta, self.min_zoom as int, self.max_zoom as int) as u32,
            ..*self
        }
    }

    /// The camera after zooming by `delta` thousandths while holding the
    /// world point under `anchor` in place.
    pub open spec fn zoomed_around(&self, anchor: Point, delta: int, viewport: Viewport) -> Camera {
        let before = self.world_of(anchor, viewport);
        let zoomed = self.with_zoom_adjusted(delta);
        let after = zoomed.world_of(anchor, viewport);
        Camera {
            position: clamped_point(
                self.position.x + before.x - after.x,
                self.position.y + before.y - after.y,
            ),
            ..zoomed
        }
    }

    /// The camera after its view moved against a drag by (`dx`, `dy`)
    /// screen steps.
    pub open spec fn panned(&self, dx: int, dy: int) -> Camera {
        Camera {
            position: clamped_point(
                panned_coord(self.position.x as int, dx, self.zoom as int),
                panned_coord(self.position.y as int, dy, self.zoom as int),
            ),
            ..*self
        }
    }

    /// The camera after the wheel scrolled the view: the view moves with the
    /// wheel, along both axes.
    pub open spec fn scrolled(&self, wheel_x: int, wheel_y: int) -> Camera {
        self.panned(
            -scroll_steps(self.scroll_speed as int, wheel_x),
            -scroll_steps(self.scroll_speed as int, wheel_y),
        )
    }

    /// The camera after the pointer was seen at `pointer`, with the button
    /// held (`dragging`) or not.
    pub open spec fn dragged(&self, pointer: Point, dragging: bool) -> Camera {
        let moved = if dragging {
            self.panned(
                pointer.x - self.last_mouse_position.x,
                pointer.y - self.last_mouse_position.y,
            )
        } else {
            *self
        };
        Camera { last_mouse_position: pointer, ..moved }
    }

    /// A camera at the origin, at zoom one, with zoom limited to the range
    /// from a tenth to two.
    pub fn new() -> (c: Camera)
        ensures
            c.wf(),
            c == (Camera {
                position: Point { x: 0, y: 0 },
                zoom: ZOOM_ONE,
                last_mouse_position: Point { x: 0, y: 0 },
                min_zoom: 100,
                max_zoom: 2000,
                scroll_speed: DEFAULT_SCROLL_SPEED,
            }),
    {
        Camera {
            position: Point { x: 0, y: 0 },
            zoom: ZOOM_ONE,
            last_mouse_position: Point { x: 0, y: 0 },
            min_zoom: 100,
            max_zoom: 2000,
            scroll_speed: DEFAULT_SCROLL_SPEED,
        }
    }

    /// A camera at the origin whose zoom is limited to the given range and
    /// starts as near to one as the range allows. `None` for a range that is
    /// empty or reaches zero.
    pub fn with_zoom_range(min_zoom: u32, max_zoom: u32) -> (c: Option<Camera>)
        ensures
            c.is_some() <==> 0 < min_zoom <= max_zoom,
            c.is_some() ==> c.unwrap().wf() && c.unwrap() == (Camera {
                position: Point { x: 0, y: 0 },
                zoom: clamp_between(ZOOM_ONE as int, min_zoom as int, max_zoom as int) as u32,
                last_mouse_position: Point { x: 0, y: 0 },
                min_zoom,
                max_zoom,
                scroll_speed: DEFAULT_SCROLL_SPEED,
            }),
    {
        if min_zoom == 0 || min_zoom > max_zoom {
            return None;
        }
        let zoom: u32 = if ZOOM_ONE < min_zoom {
            min_zoom
        } else if ZOOM_ONE > max_zoom {
            max_zoom
        } else {
            ZOOM_ONE
        };
        Some(
            Camera {
                position: Point { x: 0, y: 0 },
                zoom,
                last_mouse_position: Point { x: 0, y: 0 },
                min_zoom,
                max_zoom,
                scroll_speed: DEFAULT_SCROLL_SPEED,
            },
        )
    }

    /// Checks the camera invariant, for callers that set the fields
    /// themselves.
    pub fn is_valid(&self) -> (ok: bool)
        ensures
            ok == self.wf(),
    {
        0 < self.min_zoom && self.min_zoom <= self.zoom && self.zoom <= self.max_zoom
    }

    /// Multiplies the zoom by one plus `delta` thousandths and limits it to
    /// the configured range.
    pub fn adjust_zoom(&mut self, delta: i32)
        requires
            old(self).wf(),
        ensures
            final(self).wf(),
            *final(self) == old(self).with_zoom_adjusted(delta as int),
    {
        let factor: i128 = 1000 + delta as i128;
        let z: i128 = self.zoom as i128;
        assert(-4294967295 * 2147484648 <= z * factor <= 4294967295 * 2147484648) by (nonlinear_arith)
            requires
                0 <= z <= 4294967295,
                -2147484648 <= factor <= 2147484648,
        ;
        let scaled: i128 = div_floor(z * factor, 1000);
        let new_zoom: u32 = if scaled < self.min_zoom as i128 {
            self.min_zoom
        } else if scaled > self.max_zoom as i128 {
            self.max_zoom
        } else {
            scaled as u32
        };
        self.zoom = new_zoom;
    }

    /// Maps a world point to the screen point where it appears:
    /// `(p - position) * zoom + viewport centre`.
    pub fn world_to_screen(&self, world_pos: Point, viewport: Viewport) -> (p: Point)
        ensures
            p == self.screen_of(world_pos, viewport),
    {
        Point {
            x: project(world_pos.x, self.position.x, self.zoom, viewport.width / 2),
            y: project(world_pos.y, self.position.y, self.zoom, viewport.height / 2),
        }
    }

    /// Maps a screen point to the world point that appears there:
    /// `(p - viewport centre) / zoom + position`.
    pub fn screen_to_world(&self, screen_pos: Point, viewport: Viewport) -> (p: Point)
        requires
            self.wf(),
        ensures
            p == self.world_of(screen_pos, viewport),
    {
        Point {
            x: unproject(screen_pos.x, self.position.x, self.zoom, viewport.width / 2),
            y: unproject(screen_pos.y, self.position.y, self.zoom, viewport.height / 2),
        }
    }

    /// Changes the zoom by `delta` thousandths and moves the view so that
    /// the world point under `screen_point` stays under it.
    pub fn zoom_around(&mut self, screen_point: Point, delta: i32, viewport: Viewport)
        requires
            old(self).wf(),
        ensures
            final(self).wf(),
            *final(self) == old(self).zoomed_around(screen_point, delta as int, viewport),
            in_open_range(*old(self), screen_point, viewport) ==> final(self).world_of(
                screen_point,
                viewport,
            ) == old(self).world_of(screen_point, viewport),
    {
        proof {
            if in_open_range(*old(self), screen_point, viewport) {
                lemma_zoom_keeps_anchor_in_range(*old(self), screen_point, delta as int, viewport);
            }
        }
        let before = self.screen_to_world(screen_point, viewport);
        self.adjust_zoom(delta);
        let after = self.screen_to_world(screen_point, viewport);
        self.position = Point {
            x: saturate(self.position.x as i128 + before.x as i128 - after.x as i128),
            y: saturate(self.position.y as i128 + before.y as i128 - after.y as i128),
        };
    }

    /// Moves the view against a drag by (`dx`, `dy`) screen steps, that is
    /// by the drag's size in world steps.
    pub fn pan(&mut self, dx: i32, dy: i32)
        requires
            old(self).wf(),
        ensures
            final(self).wf(),
            *final(self) == old(self).panned(dx as int, dy as int),
    {
        self.position = Point {
            x: shift(self.position.x, dx as i128, self.zoom),
            y: shift(self.position.y, dy as i128, self.zoom),
        };
    }

    /// Scrolls the view by a wheel movement of (`wheel_x`, `wheel_y`)
    /// thousandths of a notch.
    pub fn scroll(&mut self, wheel_x: i32, wheel_y: i32)
        requires
            old(self).wf(),
        ensures
            final(self).wf(),
            *final(self) == old(self).scrolled(wheel_x as int, wheel_y as int),
    {
        let sx: i128 = wheel_steps(self.scroll_speed, wheel_x);
        let sy: i128 = wheel_steps(self.scroll_speed, wheel_y);
        self.position = Point {
            x: shift(self.position.x, -sx, self.zoom),
            y: shift(self.position.y, -sy, self.zoom),
        };
    }

    /// Sets the scroll speed, in screen steps per notch of the wheel.
    pub fn set_scroll_speed(&mut self, speed: u32)
        ensures
            *final(self) == (Camera { scroll_speed: speed, ..*old(self) }),
    {
        self.scroll_speed = speed;
    }

    /// Records the pointer at `pointer`. While dragging, the view moves
    /// against the pointer's motion since it was last seen, so that the world
    /// follows the pointer one screen step for one screen step at any zoom.
    pub fn drag(&mut self, pointer: Point, dragging: bool)
        requires
            old(self).wf(),
        ensures
            final(self).wf(),
            *final(self) == old(self).dragged(pointer, dragging),
    {
        if dragging {
            let dx: i128 = pointer.x as i128 - self.last_mouse_position.x as i128;
            let dy: i128 = pointer.y as i128 - self.last_mouse_position.y as i128;
            self.position = Point {
                x: shift(self.position.x, dx, self.zoom),
                y: shift(self.position.y, dy, self.zoom),
            };
        }
        self.last_mouse_position = pointer;
    }
}

/// The screen steps that a wheel movement scrolls by.
fn wheel_steps(speed: u32, wheel: i32) -> (steps: i128)
    ensures
        steps == scroll_steps(speed as int, wheel as int),
        -0x8000_0000_0000_0000 <= steps <= 0x8000_0000_0000_0000,
{
    let s: i128 = speed as i128;
    let w: i128 = wheel as i128;
    assert(-0x8000_0000_0000_0000 <= s * w <= 0x8000_0000_0000_0000) by (nonlinear_arith)
        requires
            0 <= s <= 0xffff_ffff,
            -0x8000_0000 <= w <= 0x7fff_ffff,
    ;
    proof {
        lemma_quotient_bound(s * w, 1000, 0x8000_0000_0000_0000);
    }
    div_floor(s * w, 1000)
}

/// One coordinate of the view after a drag by `delta` screen steps.
fn shift(position: i32, delta: i128, zoom: u32) -> (moved: i32)
    requires
        zoom > 0,
        -0x8000_0000_0000_0000 <= delta <= 0x8000_0000_0000_0000,
    ensures
        moved == clamp_coord(panned_coord(position as int, delta as int, zoom as int)),
{
    let q: i128 = div_floor(delta * 1000, zoom as i128);
    proof {
        lemma_quotient_bound(delta * 1000, zoom as int, 9223372036854775808000);
    }
    saturate(position as i128 - q)
}

/// A quotient by a positive divisor is no larger in size than the dividend.
pub proof fn lemma_quotient_bound(n: int, d: int, bound: int)
    requires
        d > 0,
        -bound <= n <= bound,
    ensures
        -bound <= n / d <= bound,
{
    lemma_fundamental_div_mod(n, d);
    lemma_mod_bound(n, d);
    let q = n / d;
    let r = n % d;
    assert(n == d * q + r);
    if q > bound {
        assert(d * q >= q) by (nonlinear_arith)
            requires
                d >= 1,
                q >= 0,
        ;
    }
    if q < -bound {
        assert(d * q <= q) by (nonlinear_arith)
            requires
                d >= 1,
                q <= 0,
        ;
        assert(d * q + d <= q + 1) by (nonlinear_arith)
            requires
                d >= 1,
                q + 1 <= 0,
        ;
    }
}

/// One coordinate of the world-to-screen mapping.
fn project(world: i32, position: i32, zoom: u32, center: u32) -> (s: i32)
    ensures
        s == clamp_coord(to_screen_coord(world as int, position as int, zoom as int, center as int)),
{
    let d: i128 = world as i128 - position as i128;
    let z: i128 = zoom as i128;
    assert(-4294967295 * 4294967295 <= d * z <= 4294967295 * 4294967295) by (nonlinear_arith)
        requires
            -4294967295 <= d <= 4294967295,
            0 <= z <= 4294967295,
    ;
    let q: i128 = div_floor(d * z, 1000);
    saturate(q + center as i128)
}

/// One coordinate of the screen-to-world mapping.
fn unproject(screen: i32, position: i32, zoom: u32, center: u32) -> (w: i32)
    requires
        zoom > 0,
    ensures
        w == clamp_coord(to_world_coord(screen as int, position as int, zoom as int, center as int)),
{
    let d: i128 = screen as i128 - center as i128;
    let q: i128 = div_floor(d * 1000, zoom as i128);
    proof {
        lemma_quotient_bound(d * 1000, zoom as int, 6442450943000);
    }
    saturate(q + position as i128)
}

/// Going from the screen to the world and back lands on the same screen
/// point, up to the rounding of the two divisions: the result is never past
/// the starting point and falls short of it by less than one step plus one
/// step per unit of zoom. This holds wherever the world point is
/// representable.
pub proof fn lemma_screen_round_trip(camera: Camera, p: Point, viewport: Viewport)
    requires
        camera.wf(),
        fits(
            to_world_coord(
                p.x as int,
                camera.position.x as int,
                camera.zoom as int,
                viewport.center_x(),
            ),
        ),
        fits(
            to_world_coord(
                p.y as int,
                camera.position.y as int,
                camera.zoom as int,
                viewport.center_y(),
            ),
        ),
    ensures
        ({
            let back = camera.screen_of(camera.world_of(p, viewport), viewport);
            &&& 0 <= p.x - back.x
            &&& (p.x - back.x) * ZOOM_ONE < camera.zoom + ZOOM_ONE
            &&& 0 <= p.y - back.y
            &&& (p.y - back.y) * ZOOM_ONE < camera.zoom + ZOOM_ONE
        }),
{
    lemma_round_trip_coord(
        p.x as int,
        camera.position.x as int,
        camera.zoom as int,
        viewport.center_x(),
    );
    lemma_round_trip_coord(
        p.y as int,
        camera.position.y as int,
        camera.zoom as int,
        viewport.center_y(),
    );
}

/// The round trip of one coordinate, before saturation.
pub proof fn lemma_round_trip_coord(screen: int, position: int, zoom: int, center: int)
    requires
        zoom > 0,
    ensures
        ({
            let world = to_world_coord(screen, position, zoom, center);
            let back = to_screen_coord(world, position, zoom, center);
            &&& back <= screen
            &&& (screen - back) * ZOOM_ONE < zoom + ZOOM_ONE
        }),
{
    let u = screen - center;
    let q = (u * 1000) / zoom;
    let r = (u * 1000) % zoom;
    lemma_fundamental_div_mod(u * 1000, zoom);
    lemma_mod_bound(u * 1000, zoom);
    let world = q + position;
    assert(world - position == q);
    let s = (q * zoom) / 1000;
    let t = (q * zoom) % 1000;
    lemma_fundamental_div_mod(q * zoom, 1000);
    lemma_mod_bound(q * zoom, 1000);
    assert(zoom * q == q * zoom) by (nonlinear_arith);
    assert(u * 1000 == q * zoom + r);
    assert(q * zoom == 1000 * s + t);
    assert(to_screen_coord(world, position, zoom, center) == s + center);
    assert((u - s) * 1000 == u * 1000 - 1000 * s) by (nonlinear_arith);
}

/// Going from the world to the screen and back lands on the same world
/// point, up to the rounding of the two divisions: the result is never past
/// the starting point and falls short of it, measured on the screen, by less
/// than one world step plus one screen step. This holds wherever the screen
/// point is representable.
pub proof fn lemma_world_round_trip(camera: Camera, p: Point, viewport: Viewport)
    requires
        camera.wf(),
        fits(
            to_screen_coord(
                p.x as int,
                camera.position.x as int,
                camera.zoom as int,
                viewport.center_x(),
            ),
        ),
        fits(
            to_screen_coord(
                p.y as int,
                camera.position.y as int,
                camera.zoom as int,
                viewport.center_y(),
            ),
        ),
    ensures
        ({
            let back = camera.world_of(camera.screen_of(p, viewport), viewport);
            &&& 0 <= p.x - back.x
            &&& (p.x - back.x) * camera.zoom < camera.zoom + ZOOM_ONE
            &&& 0 <= p.y - back.y
            &&& (p.y - back.y) * camera.zoom < camera.zoom + ZOOM_ONE
        }),
{
    lemma_world_round_trip_coord(
        p.x as int,
        camera.position.x as int,
        camera.zoom as int,
        viewport.center_x(),
    );
    lemma_world_round_trip_coord(
        p.y as int,
        camera.position.y as int,
        camera.zoom as int,
        viewport.center_y(),
    );
    let back = camera.world_of(camera.screen_of(p, viewport), viewport);
    let raw_x = to_world_coord(
        to_screen_coord(p.x as int, camera.position.x as int, camera.zoom as int, viewport.center_x()),
        camera.position.x as int,
        camera.zoom as int,
        viewport.center_x(),
    );
    let raw_y = to_world_coord(
        to_screen_coord(p.y as int, camera.position.y as int, camera.zoom as int, viewport.center_y()),
        camera.position.y as int,
        camera.zoom as int,
        viewport.center_y(),
    );
    let z = camera.zoom as int;
    let ex = p.x - back.x;
    let ey = p.y - back.y;
    assert(0 <= ex <= p.x - raw_x);
    assert(0 <= ey <= p.y - raw_y);
    assert(ex * z <= (p.x - raw_x) * z) by (nonlinear_arith)
        requires
            ex <= p.x - raw_x,
            z > 0,
    ;
    assert(ey * z <= (p.y - raw_y) * z) by (nonlinear_arith)
        requires
            ey <= p.y - raw_y,
            z > 0,
    ;
}

/// The round trip of one world coordinate, before saturation.
pub proof fn lemma_world_round_trip_coord(world: int, position: int, zoom: int, center: int)
    requires
        zoom > 0,
    ensures
        ({
            let screen = to_screen_coord(world, position, zoom, center);
            let back = to_world_coord(screen, position, zoom, center);
            &&& back <= world
            &&& (world - back) * zoom < zoom + ZOOM_ONE
        }),
{
    let u = world - position;
    let s = (u * zoom) / 1000;
    let t = (u * zoom) % 1000;
    lemma_fundamental_div_mod(u * zoom, 1000);
    lemma_mod_bound(u * zoom, 1000);
    let screen = s + center;
    assert(screen - center == s);
    let q = (s * 1000) / zoom;
    let r = (s * 1000) % zoom;
    lemma_fundamental_div_mod(s * 1000, zoom);
    lemma_mod_bound(s * 1000, zoom);
    assert(to_world_coord(screen, position, zoom, center) == q + position);
    assert(zoom * q == q * zoom) by (nonlinear_arith);
    assert(u * zoom == 1000 * s + t);
    assert(s * 1000 == q * zoom + r);
    assert((u - q) * zoom == u * zoom - q * zoom) by (nonlinear_arith);
    assert(q <= u) by (nonlinear_arith)
        requires
            q * zoom <= u * zoom,
            zoom > 0,
    ;
}

/// Zooming around an anchor leaves the world point under the anchor where it
/// was. This holds wherever the anchor's world point at the new zoom and the
/// moved view position are representable.
pub proof fn lemma_zoom_keeps_anchor(camera: Camera, anchor: Point, delta: int, viewport: Viewport)
    requires
        camera.wf(),
        ({
            let zoomed = camera.with_zoom_adjusted(delta);
            let before = camera.world_of(anchor, viewport);
            let after_x = to_world_coord(
                anchor.x as int,
                camera.position.x as int,
                zoomed.zoom as int,
                viewport.center_x(),
            );
            let after_y = to_world_coord(
                anchor.y as int,
                camera.position.y as int,
                zoomed.zoom as int,
                viewport.center_y(),
            );
            &&& fits(after_x)
            &&& fits(after_y)
            &&& fits(camera.position.x + before.x - after_x)
            &&& fits(camera.position.y + before.y - after_y)
        }),
    ensures
        camera.zoomed_around(anchor, delta, viewport).world_of(anchor, viewport) == camera.world_of(
            anchor,
            viewport,
        ),
{
}

/// Whether a camera, a screen point and a viewport lie where no mapping
/// between them saturates: the view within 2^30 steps of the origin, the
/// screen point within 2^19 steps of it, the viewport at most 2^20 steps wide
/// and high.
pub open spec fn in_open_range(camera: Camera, p: Point, viewport: Viewport) -> bool {
    &&& -1073741824 <= camera.position.x <= 1073741824
    &&& -1073741824 <= camera.position.y <= 1073741824
    &&& -524288 <= p.x <= 524288
    &&& -524288 <= p.y <= 524288
    &&& viewport.width <= 1048576
    &&& viewport.height <= 1048576
}

/// In the open range a screen coordinate's distance from the centre, taken
/// to the world, stays below 2^30 + 2^20 * 1000 steps and keeps its sign.
pub proof fn lemma_world_offset_in_range(screen: int, zoom: int, center: int)
    requires
        zoom > 0,
        -524288 <= screen <= 524288,
        0 <= center <= 524288,
    ensures
        ({
            let q = (screen - center) * ZOOM_ONE / zoom;
            &&& -1048576000 <= q <= 1048576000
            &&& screen - center >= 0 ==> q >= 0
            &&& screen - center < 0 ==> q < 0
        }),
{
    let n = (screen - center) * 1000;
    lemma_quotient_bound(n, zoom, 1048576000);
    lemma_fundamental_div_mod(n, zoom);
    lemma_mod_bound(n, zoom);
    let q = n / zoom;
    let r = n % zoom;
    if n >= 0 {
        assert(q >= 0) by (nonlinear_arith)
            requires
                n == zoom * q + r,
                n >= 0,
                0 <= r < zoom,
        ;
    } else {
        assert(q < 0) by (nonlinear_arith)
            requires
                n == zoom * q + r,
                n < 0,
                0 <= r < zoom,
        ;
    }
}

/// The screen round trip, for every camera, screen point and viewport in the
/// open range: going from the screen to the world and back lands on the same
/// screen point up to rounding.
pub proof fn lemma_screen_round_trip_in_range(camera: Camera, p: Point, viewport: Viewport)
    requires
        camera.wf(),
        in_open_range(camera, p, viewport),
    ensures
        ({
            let back = camera.screen_of(camera.world_of(p, viewport), viewport);
            &&& 0 <= p.x - back.x
            &&& (p.x - back.x) * ZOOM_ONE < camera.zoom + ZOOM_ONE
            &&& 0 <= p.y - back.y
            &&& (p.y - back.y) * ZOOM_ONE < camera.zoom + ZOOM_ONE
        }),
{
    lemma_world_offset_in_range(p.x as int, camera.zoom as int, viewport.center_x());
    lemma_world_offset_in_range(p.y as int, camera.zoom as int, viewport.center_y());
    lemma_screen_round_trip(camera, p, viewport);
}

/// Zoom-anchor invariance, for every camera, anchor and viewport in the open
/// range and every change of zoom: the world point under the anchor is the
/// same before and after, also where the zoom was held at a limit.
pub proof fn lemma_zoom_keeps_anchor_in_range(
    camera: Camera,
    anchor: Point,
    delta: int,
    viewport: Viewport,
)
    requires
        camera.wf(),
        in_open_range(camera, anchor, viewport),
    ensures
        camera.zoomed_around(anchor, delta, viewport).world_of(anchor, viewport) == camera.world_of(
            anchor,
            viewport,
        ),
        camera.zoomed_around(anchor, delta, viewport).zoom == scaled_zoom(
            camera.zoom as int,
            delta,
            camera.min_zoom as int,
            camera.max_zoom as int,
        ),
{
    let zoomed = camera.with_zoom_adjusted(delta);
    assert(camera.min_zoom <= zoomed.zoom <= camera.max_zoom);
    lemma_world_offset_in_range(anchor.x as int, camera.zoom as int, viewport.center_x());
    lemma_world_offset_in_range(anchor.y as int, camera.zoom as int, viewport.center_y());
    lemma_world_offset_in_range(anchor.x as int, zoomed.zoom as int, viewport.center_x());
    lemma_world_offset_in_range(anchor.y as int, zoomed.zoom as int, viewport.center_y());
    lemma_zoom_keeps_anchor(camera, anchor, delta, viewport);
}

} // verus!
