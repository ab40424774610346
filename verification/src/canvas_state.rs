//! The canvas as a cloud of drawn points: each recorded sample is kept with
//! the pen's colour and size, and the eraser removes single points.
use vstd::prelude::*;
use crate::geometry::{dist2, distance_squared, Point};
use crate::mesh::Color;

verus! {

/// One recorded sample of a stroke.
#[derive(Clone, Copy, Debug, PartialEq, Eq, Structural)]
pub struct DrawnPoint {
    pub position: Point,
    pub color: Color,
    pub size: u32,
}

/// The drawn points and the pen.
#[derive(Debug)]
pub struct CanvasState {
    pub is_dragging: bool,
    pub last_mouse_position: Point,
    pub drawn_points: Vec<DrawnPoint>,
    pub current_color: Color,
    pub current_size: u32,
}

/// Whether a point at `at` is out of the eraser's reach: farther than
/// `radius` from `center`.
pub open spec fn out_of_reach(at: Point, center: Point, radius: int) -> bool {
    dist2(at, center) > radius * radius
}

/// The first `n` of `points` without those in the eraser's reach, in order.
pub open spec fn remaining(points: Seq<DrawnPoint>, n: nat, center: Point, radius: int) -> Seq<
    DrawnPoint,
>
    decreases n,
{
    if n == 0 {
        Seq::empty()
    } else {
        let head = remaining(points, (n - 1) as nat, center, radius);
        if out_of_reach(points[n - 1].position, center, radius) {
            head.push(points[n - 1])
        } else {
            head
        }
    }
}

impl CanvasState {
    /// An empty canvas with a black pen of size two.
    pub fn new() -> (s: CanvasState)
        ensures
            !s.is_dragging,
            s.last_mouse_position == (Point { x: 0, y: 0 }),
            s.drawn_points@.len() == 0,
            s.current_color == (Color { r: 0, g: 0, b: 0, a: 255 }),
            s.current_size == 2,
    {
        CanvasState {
            is_dragging: false,
            last_mouse_position: Point { x: 0, y: 0 },
            drawn_points: Vec::new(),
            current_color: Color::black(),
            current_size: 2,
        }
    }

    /// Removes every drawn point within `radius` of `world_point`.
    pub fn erase_at(&mut self, world_point: Point, radius: u32)
        ensures
            final(self).drawn_points@ == remaining(
                old(self).drawn_points@,
                old(self).drawn_points@.len(),
                world_point,
                radius as int,
            ),
            forall|i: int|
                0 <= i < final(self).drawn_points@.len() ==> out_of_reach(
                    #[trigger] final(self).drawn_points@[i].position,
                    world_point,
                    radius as int,
                ),
            final(self).is_dragging == old(self).is_dragging,
            final(self).last_mouse_position == old(self).last_mouse_position,
            final(self).current_color == old(self).current_color,
            final(self).current_size == old(self).current_size,
    {
        let r: i128 = radius as i128;
        assert(0 <= r * r <= 4294967295 * 4294967295) by (nonlinear_arith)
            requires
                0 <= r <= 4294967295,
        ;
        let r2: i128 = r * r;
        let mut kept: Vec<DrawnPoint> = Vec::new();
        let n: usize = self.drawn_points.len();
        let mut i: usize = 0;
        while i < n
            invariant
                i <= n,
                n == self.drawn_points@.len(),
                r2 == radius * radius,
                kept@ == remaining(self.drawn_points@, i as nat, world_point, radius as int),
                forall|j: int|
                    0 <= j < kept@.len() ==> out_of_reach(
                        #[trigger] kept@[j].position,
                        world_point,
                        radius as int,
                    ),
            decreases n - i,
        {
            let point = self.drawn_points[i];
            if distance_squared(point.position, world_point) > r2 {
                kept.push(point);
            }
            i = i + 1;
        }
        self.drawn_points = kept;
    }
}

} // verus!
