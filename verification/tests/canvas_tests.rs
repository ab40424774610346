use neo_space::camera::Camera;
use neo_space::canvas::{exceeds_step, DrawingCanvas};
use neo_space::geometry::Point;
use neo_space::line_smoothing::{catmull_rom_spline, fit_bezier, Smoothing};
use neo_space::mesh::{Color, Mesh};

fn valid(canvas: &DrawingCanvas) -> bool {
    let n = canvas.mesh.vertices.len();
    n % 4 == 0
        && canvas.mesh.indices.len() == n / 4 * 6
        && canvas.mesh.indices.iter().all(|&i| i < n)
        && canvas.committed % 4 == 0
        && canvas.committed <= n
}

#[test]
fn new_canvas_is_empty_with_a_black_pen() {
    let c = DrawingCanvas::new();
    assert!(c.mesh.vertices.is_empty());
    assert!(c.mesh.indices.is_empty());
    assert!(c.current_line.is_empty());
    assert_eq!(c.current_color, Color::black());
    assert_eq!(c.line_thickness, 2);
    assert_eq!(c.smoothing, Smoothing::CatmullRom);
    assert_eq!(c.min_step, 1);
    assert_eq!(c.eraser_reach, 10);
    assert_eq!(c.committed, 0);
    assert!(!c.needs_update);
    assert_eq!(c.last_camera_pos, Point::new(0, 0));
    assert_eq!(c.last_camera_zoom, 1000);
}

#[test]
fn stroke_keeps_only_samples_past_the_threshold() {
    let mut c = DrawingCanvas::new();
    c.start_line(Point::new(0, 0));
    c.add_point(Point::new(0, 2), 400);
    assert_eq!(c.current_line, vec![Point::new(0, 0)]);
    c.add_point(Point::new(0, 5), 400);
    assert_eq!(c.current_line, vec![Point::new(0, 0), Point::new(0, 5)]);
    let dense = catmull_rom_spline(&c.current_line);
    assert_eq!(dense.len(), 100);
    assert_eq!(dense[0], Point::new(0, 0));
    assert_eq!(dense[99], Point::new(0, 5));
    let mut expected = Mesh::new();
    expected.rebuild(&dense, 2, Color::black());
    c.end_line();
    assert!(c.current_line.is_empty());
    assert_eq!(c.mesh.vertices, expected.vertices);
    assert_eq!(c.mesh.indices, expected.indices);
    assert_eq!(c.mesh.vertices.len(), 20);
    assert_eq!(c.committed, 20);
    assert!(valid(&c));
}

#[test]
fn threshold_is_one_step_at_zoom_one() {
    let mut c = DrawingCanvas::new();
    c.start_line(Point::new(0, 0));
    c.add_point(Point::new(0, 1), 1000);
    assert_eq!(c.current_line.len(), 1);
    assert!(!c.needs_update);
    c.add_point(Point::new(1, 1), 1000);
    assert_eq!(c.current_line.len(), 2);
    assert!(c.needs_update);
}

#[test]
fn threshold_shrinks_when_zoomed_in() {
    let mut c = DrawingCanvas::new();
    c.start_line(Point::new(0, 0));
    c.add_point(Point::new(0, 1), 2000);
    assert_eq!(c.current_line, vec![Point::new(0, 0), Point::new(0, 1)]);
}

#[test]
fn threshold_formula() {
    let o = Point::new(0, 0);
    assert!(!exceeds_step(o, Point::new(3, 4), 5, 1000));
    assert!(exceeds_step(o, Point::new(3, 4), 5, 1001));
    assert!(exceeds_step(o, Point::new(3, 5), 5, 1000));
    assert!(!exceeds_step(o, Point::new(3, 4), 1, 200));
    assert!(exceeds_step(o, Point::new(3, 4), 1, 201));
    assert!(!exceeds_step(o, Point::new(i32::MAX, i32::MIN), 1, 0));
    assert!(exceeds_step(Point::new(i32::MIN, i32::MIN), Point::new(i32::MAX, i32::MAX), u32::MAX, u32::MAX));
    assert!(!exceeds_step(o, o, 0, 1000));
    assert!(exceeds_step(o, Point::new(1, 0), 0, 1));
}

#[test]
fn threshold_is_configurable() {
    let mut c = DrawingCanvas::new();
    c.set_min_step(3);
    c.start_line(Point::new(0, 0));
    c.add_point(Point::new(0, 3), 1000);
    assert_eq!(c.current_line.len(), 1);
    c.add_point(Point::new(0, 4), 1000);
    assert_eq!(c.current_line.len(), 2);
}

#[test]
fn first_sample_of_an_idle_canvas_is_recorded() {
    let mut c = DrawingCanvas::new();
    c.add_point(Point::new(9, 9), 1000);
    assert_eq!(c.current_line, vec![Point::new(9, 9)]);
    assert!(c.needs_update);
}

#[test]
fn a_tap_is_discarded() {
    let mut c = DrawingCanvas::new();
    c.start_line(Point::new(4, 4));
    c.end_line();
    assert!(c.current_line.is_empty());
    assert!(c.mesh.vertices.is_empty());
    assert_eq!(c.committed, 0);
    c.end_line();
    assert!(c.mesh.vertices.is_empty());
}

#[test]
fn update_mesh_shows_the_stroke_in_progress() {
    let mut c = DrawingCanvas::new();
    c.start_line(Point::new(0, 0));
    c.add_point(Point::new(10, 0), 1000);
    c.add_point(Point::new(10, 10), 1000);
    assert!(c.needs_update);
    c.update_mesh();
    assert!(!c.needs_update);
    assert_eq!(c.mesh.vertices.len(), 8);
    assert_eq!(c.committed, 0);
    assert_eq!(c.mesh.vertices[0].position, Point::new(0, 1));
    assert!(valid(&c));
}

#[test]
fn finished_strokes_stay_in_the_mesh() {
    let mut c = DrawingCanvas::new();
    c.start_line(Point::new(0, 0));
    c.add_point(Point::new(10, 0), 1000);
    c.update_mesh();
    c.end_line();
    let first = c.mesh.vertices.clone();
    assert_eq!(first.len(), 40);
    assert_eq!(c.committed, 40);
    c.set_color(Color::new(0, 0, 255, 255));
    c.set_thickness(6);
    c.start_line(Point::new(0, 100));
    c.add_point(Point::new(0, 120), 1000);
    c.update_mesh();
    assert_eq!(c.mesh.vertices.len(), 44);
    assert_eq!(c.committed, 40);
    assert_eq!(&c.mesh.vertices[..40], &first[..]);
    assert_eq!(c.mesh.vertices[40].position, Point::new(-3, 100));
    assert_eq!(c.mesh.vertices[40].color, Color::new(0, 0, 255, 255));
    c.end_line();
    assert_eq!(c.mesh.vertices.len(), 40 + 4 * 20);
    assert_eq!(c.committed, c.mesh.vertices.len());
    assert_eq!(&c.mesh.vertices[..40], &first[..]);
    assert!(valid(&c));
}

#[test]
fn starting_anew_drops_the_unfinished_stroke() {
    let mut c = DrawingCanvas::new();
    c.start_line(Point::new(0, 0));
    c.add_point(Point::new(10, 0), 1000);
    c.update_mesh();
    assert_eq!(c.mesh.vertices.len(), 4);
    c.start_line(Point::new(50, 50));
    assert_eq!(c.current_line, vec![Point::new(50, 50)]);
    assert!(c.mesh.vertices.is_empty());
    assert!(c.mesh.indices.is_empty());
}

#[test]
fn bezier_smoothing_can_be_chosen() {
    let mut c = DrawingCanvas::new();
    c.set_smoothing(Smoothing::Bezier { unit: 1 });
    c.start_line(Point::new(0, 0));
    c.add_point(Point::new(990, 0), 1000);
    let dense = fit_bezier(&c.current_line, 1);
    let mut expected = Mesh::new();
    expected.rebuild(&dense, 2, Color::black());
    c.end_line();
    assert_eq!(c.mesh.vertices, expected.vertices);
    assert_eq!(c.mesh.vertices.len(), 4 * 98);
}

#[test]
fn erasing_removes_finished_quads_in_reach() {
    let mut c = DrawingCanvas::new();
    c.start_line(Point::new(0, 0));
    c.add_point(Point::new(10, 0), 1000);
    c.end_line();
    assert_eq!(c.mesh.vertices.len(), 40);
    c.erase_at(Point::new(0, 1), 2);
    assert_eq!(c.mesh.vertices.len(), 28);
    assert_eq!(c.committed, 28);
    assert!(!c.needs_update);
    assert_eq!(c.mesh.vertices[0].position, Point::new(3, 1));
    assert!(valid(&c));
    c.erase_at(Point::new(5, 0), 100);
    assert!(c.mesh.vertices.is_empty());
    assert!(c.mesh.indices.is_empty());
    assert_eq!(c.committed, 0);
    assert!(valid(&c));
}

#[test]
fn erasing_out_of_reach_keeps_the_stroke_in_progress() {
    let mut c = DrawingCanvas::new();
    c.start_line(Point::new(0, 0));
    c.add_point(Point::new(10, 0), 1000);
    c.update_mesh();
    let shown = c.mesh.vertices.clone();
    assert_eq!(shown.len(), 4);
    c.erase_at(Point::new(1000, 1000), 1);
    assert_eq!(c.mesh.vertices, shown);
    assert_eq!(c.mesh.indices, vec![0, 1, 2, 1, 3, 2]);
    assert_eq!(c.committed, 0);
    assert_eq!(c.current_line.len(), 2);
    assert!(!c.needs_update);
    assert!(valid(&c));
}

#[test]
fn erasing_keeps_the_mark_between_finished_and_unfinished() {
    let mut c = DrawingCanvas::new();
    c.start_line(Point::new(0, 0));
    c.add_point(Point::new(10, 0), 1000);
    c.end_line();
    c.start_line(Point::new(0, 100));
    c.add_point(Point::new(0, 120), 1000);
    c.add_point(Point::new(0, 140), 1000);
    c.update_mesh();
    assert_eq!(c.mesh.vertices.len(), 48);
    assert_eq!(c.committed, 40);
    let live = c.mesh.vertices[40..].to_vec();
    c.erase_at(Point::new(0, 1), 2);
    assert_eq!(c.mesh.vertices.len(), 36);
    assert_eq!(c.committed, 28);
    assert_eq!(&c.mesh.vertices[28..], &live[..]);
    assert_eq!(c.mesh.vertices[0].position, Point::new(3, 1));
    assert!(valid(&c));
    c.erase_at(Point::new(0, 105), 1);
    assert_eq!(c.mesh.vertices.len(), 32);
    assert_eq!(c.committed, 28);
    assert_eq!(&c.mesh.vertices[28..], &live[4..]);
    assert_eq!(c.current_line.len(), 3);
    assert!(valid(&c));
    c.end_line();
    assert_eq!(c.committed, c.mesh.vertices.len());
    assert_eq!(c.mesh.vertices.len(), 28 + 4 * 40);
}

#[test]
fn refresh_rebuilds_only_on_change() {
    let mut c = DrawingCanvas::new();
    let mut camera = Camera::new();
    assert!(!c.refresh(&camera));
    c.start_line(Point::new(0, 0));
    c.add_point(Point::new(10, 0), 1000);
    assert!(c.refresh(&camera));
    assert_eq!(c.mesh.vertices.len(), 4);
    assert!(!c.refresh(&camera));
    camera.drag(Point::new(5, 5), true);
    assert!(c.refresh(&camera));
    assert_eq!(c.last_camera_pos, camera.position);
    assert!(!c.refresh(&camera));
    camera.adjust_zoom(100);
    assert!(c.refresh(&camera));
    assert_eq!(c.last_camera_zoom, 1100);
    assert!(!c.refresh(&camera));
    assert_eq!(c.mesh.vertices.len(), 4);
}

#[test]
fn pen_settings_are_stored() {
    let mut c = DrawingCanvas::new();
    c.set_color(Color::new(1, 2, 3, 4));
    c.set_thickness(9);
    c.set_smoothing(Smoothing::Bezier { unit: 16 });
    c.set_min_step(7);
    c.set_eraser_reach(25);
    assert_eq!(c.eraser_reach, 25);
    assert_eq!(c.current_color, Color::new(1, 2, 3, 4));
    assert_eq!(c.line_thickness, 9);
    assert_eq!(c.smoothing, Smoothing::Bezier { unit: 16 });
    assert_eq!(c.min_step, 7);
    assert!(c.mesh.vertices.is_empty());
    assert!(!c.needs_update);
}

#[test]
fn validity_check_covers_mesh_and_mark() {
    let mut c = DrawingCanvas::new();
    assert!(c.is_valid());
    c.start_line(Point::new(0, 0));
    c.add_point(Point::new(10, 0), 1000);
    c.end_line();
    assert!(c.is_valid());
    c.committed = 41;
    assert!(!c.is_valid());
    c.committed = 44;
    assert!(!c.is_valid());
    c.committed = 36;
    assert!(c.is_valid());
    c.mesh.indices[0] = 1;
    assert!(!c.is_valid());
}
