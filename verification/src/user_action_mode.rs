//! The input router: one frame's pointer and wheel state, together with the
//! active tool, becomes calls on the camera and the canvas.
use vstd::prelude::*;
use crate::camera::{clamp_between, in_open_range, Camera, Viewport, ZOOM_ONE};
use crate::canvas::DrawingCanvas;
use crate::geometry::{div_floor, Point};
use crate::mesh::quad_hit;

verus! {

/// The active tool.
#[derive(Clone, Copy, Debug, PartialEq, Eq, Structural)]
pub enum UserActionMode {
    /// Drag the view.
    Grab,
    /// Draw strokes.
    Draw,
    /// Erase strokes.
    Erase,
}

/// What the input source reports for one frame.
#[derive(Clone, Copy, Debug, PartialEq, Eq, Structural)]
pub struct PointerInput {
    /// Pointer position on the screen.
    pub position: Point,
    /// Wheel movement in thousandths of a notch.
    pub wheel: i32,
    /// The button went down in this frame.
    pub pressed: bool,
    /// The button is held.
    pub down: bool,
    /// The button went up in this frame.
    pub released: bool,
}

/// The relative zoom change, in thousandths, that a wheel movement asks
/// for: a tenth per notch.
pub open spec fn wheel_delta(wheel: int) -> int {
    wheel / 10
}

/// Reach of the eraser in world steps at the given zoom: `reach` steps on
/// the screen at any zoom. Saturates at the largest radius.
pub open spec fn erase_radius(reach: int, zoom: int) -> int {
    clamp_between(reach * ZOOM_ONE / zoom, 0, 4294967295)
}

/// The camera after the frame's wheel movement.
pub open spec fn camera_after_wheel(camera: Camera, input: PointerInput, viewport: Viewport) -> Camera {
    if input.wheel != 0 {
        camera.zoomed_around(input.position, wheel_delta(input.wheel as int), viewport)
    } else {
        camera
    }
}

/// How the canvas follows from `before` in a frame spent in draw mode, the
/// pointer being over world point `at`: a press starts a stroke, a held
/// button offers a sample, a release finishes the stroke.
pub open spec fn drawing_step(
    before: &DrawingCanvas,
    after: &DrawingCanvas,
    input: PointerInput,
    at: Point,
    zoom: u32,
) -> bool {
    if input.pressed {
        after.follows_start(before, at)
    } else if input.down {
        after.follows_sample(before, at, zoom)
    } else if input.released {
        after.follows_end(before)
    } else {
        *after == *before
    }
}

/// How the canvas follows from `before` in a frame spent in erase mode.
pub open spec fn erasing_step(
    before: &DrawingCanvas,
    after: &DrawingCanvas,
    input: PointerInput,
    at: Point,
    zoom: u32,
) -> bool {
    if input.down {
        after.follows_erase(
            before,
            at,
            erase_radius(before.eraser_reach as int, zoom as int) as u32,
        )
    } else {
        *after == *before
    }
}

/// Computes the reach of the eraser in world steps.
pub fn world_radius(reach: u32, zoom: u32) -> (radius: u32)
    requires
        zoom > 0,
    ensures
        radius == erase_radius(reach as int, zoom as int),
{
    let wide: u64 = reach as u64 * 1000 / zoom as u64;
    if wide > 4294967295 {
        4294967295
    } else {
        wide as u32
    }
}

/// Applies the wheel: zooms around the pointer.
pub fn handle_zoom(camera: &mut Camera, input: &PointerInput, viewport: Viewport)
    requires
        old(camera).wf(),
    ensures
        final(camera).wf(),
        *final(camera) == camera_after_wheel(*old(camera), *input, viewport),
        in_open_range(*old(camera), input.position, viewport) ==> final(camera).world_of(
            input.position,
            viewport,
        ) == old(camera).world_of(input.position, viewport),
{
    if input.wheel != 0 {
        let delta: i128 = div_floor(input.wheel as i128, 10);
        camera.zoom_around(input.position, delta as i32, viewport);
    }
}

/// Applies the wheel as the keyboard asks: with the Control key held it
/// zooms around the pointer, without it it scrolls the view. `wheel_x` is the
/// wheel's movement across, in thousandths of a notch like `input.wheel`.
pub fn handle_wheel(
    camera: &mut Camera,
    input: &PointerInput,
    wheel_x: i32,
    control: bool,
    viewport: Viewport,
)
    requires
        old(camera).wf(),
    ensures
        final(camera).wf(),
        control ==> *final(camera) == camera_after_wheel(*old(camera), *input, viewport),
        control && in_open_range(*old(camera), input.position, viewport) ==> final(camera).world_of(
            input.position,
            viewport,
        ) == old(camera).world_of(input.position, viewport),
        !control ==> *final(camera) == old(camera).scrolled(wheel_x as int, input.wheel as int),
{
    if control {
        handle_zoom(camera, input, viewport);
    } else {
        camera.scroll(wheel_x, input.wheel);
    }
}

/// Applies the pointer in grab mode: drags the view while the button is
/// held.
pub fn handle_dragging(camera: &mut Camera, input: &PointerInput)
    requires
        old(camera).wf(),
    ensures
        final(camera).wf(),
        *final(camera) == old(camera).dragged(input.position, input.down),
{
    camera.drag(input.position, input.down);
}

/// Applies the pointer in erase mode.
pub fn handle_erasing(
    canvas: &mut DrawingCanvas,
    camera: &Camera,
    input: &PointerInput,
    viewport: Viewport,
)
    requires
        old(canvas).wf(),
        camera.wf(),
    ensures
        final(canvas).wf(),
        erasing_step(
            old(canvas),
            final(canvas),
            *input,
            camera.world_of(input.position, viewport),
            camera.zoom,
        ),
        input.down ==> forall|q: int|
            0 <= q < final(canvas).mesh.quad_count() ==> !quad_hit(
                final(canvas).mesh.vertices@,
                q,
                camera.world_of(input.position, viewport),
                erase_radius(old(canvas).eraser_reach as int, camera.zoom as int),
            ),
{
    if input.down {
        let at = camera.screen_to_world(input.position, viewport);
        let radius = world_radius(canvas.eraser_reach, camera.zoom);
        canvas.erase_at(at, radius);
    }
}

/// Applies the pointer in draw mode.
pub fn handle_drawing(
    canvas: &mut DrawingCanvas,
    camera: &Camera,
    input: &PointerInput,
    viewport: Viewport,
)
    requires
        old(canvas).wf(),
        camera.wf(),
    ensures
        final(canvas).wf(),
        drawing_step(
            old(canvas),
            final(canvas),
            *input,
            camera.world_of(input.position, viewport),
            camera.zoom,
        ),
{
    let at = camera.screen_to_world(input.position, viewport);
    if input.pressed {
        canvas.start_line(at);
    } else if input.down {
        canvas.add_point(at, camera.zoom);
    } else if input.released {
        canvas.end_line();
    }
}

/// Routes one frame of input. The wheel is applied first, so that the
/// pointer is read through the camera as it will be shown; then the active
/// tool gets the pointer.
pub fn observe_user_action(
    camera: &mut Camera,
    mode: &UserActionMode,
    canvas: &mut DrawingCanvas,
    input: &PointerInput,
    viewport: Viewport,
)
    requires
        old(camera).wf(),
        old(canvas).wf(),
    ensures
        final(camera).wf(),
        final(canvas).wf(),
        ({
            let zoomed = camera_after_wheel(*old(camera), *input, viewport);
            let at = zoomed.world_of(input.position, viewport);
            match *mode {
                UserActionMode::Grab => {
                    &&& *final(camera) == zoomed.dragged(input.position, input.down)
                    &&& *final(canvas) == *old(canvas)
                },
                UserActionMode::Draw => {
                    &&& *final(camera) == zoomed
                    &&& drawing_step(old(canvas), final(canvas), *input, at, zoomed.zoom)
                },
                UserActionMode::Erase => {
                    &&& *final(camera) == zoomed
                    &&& erasing_step(old(canvas), final(canvas), *input, at, zoomed.zoom)
                },
            }
        }),
{
    handle_zoom(camera, input, viewport);
    match mode {
        UserActionMode::Grab => {
            handle_dragging(camera, input);
        },
        UserActionMode::Draw => {
            handle_drawing(canvas, camera, input, viewport);
        },
        UserActionMode::Erase => {
            handle_erasing(canvas, camera, input, viewport);
        },
    }
}

} // verus!
