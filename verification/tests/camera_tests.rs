use neo_space::camera::{Camera, Viewport, ZOOM_ONE};
use neo_space::geometry::Point;

fn view() -> Viewport {
    Viewport::new(800, 600)
}

#[test]
fn new_camera_sits_at_origin_with_zoom_one() {
    let c = Camera::new();
    assert_eq!(c.position, Point::new(0, 0));
    assert_eq!(c.zoom, ZOOM_ONE);
    assert_eq!(c.last_mouse_position, Point::new(0, 0));
    assert_eq!(c.min_zoom, 100);
    assert_eq!(c.max_zoom, 2000);
    assert_eq!(c.scroll_speed, 2);
}

#[test]
fn pan_moves_against_the_drag() {
    let mut c = Camera::new();
    c.drag(Point::new(0, 0), false);
    c.drag(Point::new(50, 50), true);
    assert_eq!(c.position, Point::new(-50, -50));
    assert_eq!(c.last_mouse_position, Point::new(50, 50));
}

#[test]
fn pan_is_scaled_by_zoom() {
    let mut c = Camera::new();
    c.adjust_zoom(1000);
    assert_eq!(c.zoom, 2000);
    c.drag(Point::new(10, 10), false);
    c.drag(Point::new(60, -30), true);
    assert_eq!(c.position, Point::new(-25, 20));
}

#[test]
fn pointer_that_is_not_dragging_only_updates_last_position() {
    let mut c = Camera::new();
    c.drag(Point::new(70, 80), false);
    assert_eq!(c.position, Point::new(0, 0));
    assert_eq!(c.last_mouse_position, Point::new(70, 80));
}

#[test]
fn world_to_screen_scales_and_centres() {
    let mut c = Camera::new();
    c.position = Point::new(10, 20);
    c.adjust_zoom(1000);
    assert_eq!(c.world_to_screen(Point::new(110, 70), view()), Point::new(600, 400));
    assert_eq!(c.world_to_screen(Point::new(10, 20), view()), Point::new(400, 300));
}

#[test]
fn screen_to_world_inverts_world_to_screen() {
    let mut c = Camera::new();
    c.position = Point::new(10, 20);
    c.adjust_zoom(1000);
    assert_eq!(c.screen_to_world(Point::new(600, 400), view()), Point::new(110, 70));
}

#[test]
fn screen_to_world_rounds_down() {
    let mut c = Camera::new();
    c.adjust_zoom(1000);
    assert_eq!(c.screen_to_world(Point::new(399, 301), view()), Point::new(-1, 0));
}

#[test]
fn round_trip_stays_within_tolerance() {
    let mut c = Camera::new();
    c.position = Point::new(7, -3);
    c.adjust_zoom(500);
    assert_eq!(c.zoom, 1500);
    let p = Point::new(123, 457);
    let w = c.screen_to_world(p, view());
    assert_eq!(w, Point::new(-178, 101));
    let back = c.world_to_screen(w, view());
    assert_eq!(back, Point::new(122, 456));
    assert!(back.x <= p.x && (p.x - back.x) * 1000 < 1500 + 1000);
    assert!(back.y <= p.y && (p.y - back.y) * 1000 < 1500 + 1000);
}

#[test]
fn round_trip_is_exact_at_zoom_one() {
    let mut c = Camera::new();
    c.position = Point::new(-40, 90);
    for x in [-5, 0, 1, 399, 400, 801] {
        let p = Point::new(x, 2 * x - 7);
        assert_eq!(c.world_to_screen(c.screen_to_world(p, view()), view()), p);
    }
    c.drag(Point::new(0, 0), false);
    assert_eq!(c.position, Point::new(-40, 90));
}

#[test]
fn adjust_zoom_multiplies_and_clamps() {
    let mut c = Camera::new();
    c.adjust_zoom(100);
    assert_eq!(c.zoom, 1100);
    c.adjust_zoom(100);
    assert_eq!(c.zoom, 1210);
    c.adjust_zoom(5000);
    assert_eq!(c.zoom, 2000);
    c.adjust_zoom(-2000);
    assert_eq!(c.zoom, 100);
    c.adjust_zoom(-500);
    assert_eq!(c.zoom, 100);
    c.adjust_zoom(i32::MAX);
    assert_eq!(c.zoom, 2000);
    c.adjust_zoom(i32::MIN);
    assert_eq!(c.zoom, 100);
}

#[test]
fn zoom_range_is_configurable() {
    let mut c = Camera::with_zoom_range(100, 5000).unwrap();
    assert_eq!(c.zoom, 1000);
    c.adjust_zoom(9000);
    assert_eq!(c.zoom, 5000);
    let narrow = Camera::with_zoom_range(2000, 3000).unwrap();
    assert_eq!(narrow.zoom, 2000);
    let low = Camera::with_zoom_range(1, 500).unwrap();
    assert_eq!(low.zoom, 500);
}

#[test]
fn empty_zoom_range_is_refused() {
    assert!(Camera::with_zoom_range(0, 2000).is_none());
    assert!(Camera::with_zoom_range(300, 200).is_none());
    assert!(Camera::with_zoom_range(700, 700).is_some());
}

#[test]
fn zoom_around_keeps_the_anchor() {
    let mut c = Camera::new();
    let anchor = Point::new(200, 150);
    let before = c.screen_to_world(anchor, view());
    assert_eq!(before, Point::new(-200, -150));
    c.zoom_around(anchor, 100, view());
    assert_eq!(c.zoom, 1100);
    assert_eq!(c.position, Point::new(-18, -13));
    assert_eq!(c.screen_to_world(anchor, view()), before);
}

#[test]
fn zoom_around_keeps_the_anchor_over_many_steps() {
    let mut c = Camera::with_zoom_range(100, 5000).unwrap();
    c.position = Point::new(1234, -987);
    let anchor = Point::new(641, 77);
    for delta in [100, 100, -300, 250, 4000, -900, 37, -1, 9000, -9000] {
        let before = c.screen_to_world(anchor, view());
        c.zoom_around(anchor, delta, view());
        assert_eq!(c.screen_to_world(anchor, view()), before);
        assert!(c.zoom >= 100 && c.zoom <= 5000);
    }
}

#[test]
fn mapping_saturates_at_the_edge_of_the_plane() {
    let mut c = Camera::new();
    c.position = Point::new(i32::MIN, i32::MIN);
    c.adjust_zoom(1000);
    let far = c.world_to_screen(Point::new(i32::MAX, i32::MAX), view());
    assert_eq!(far, Point::new(i32::MAX, i32::MAX));
    c.adjust_zoom(-2000);
    assert_eq!(c.zoom, 100);
    c.position = Point::new(i32::MAX, 0);
    let w = c.screen_to_world(Point::new(i32::MAX, i32::MIN), view());
    assert_eq!(w, Point::new(i32::MAX, i32::MIN));
}

#[test]
fn pan_moves_by_the_world_size_of_the_drag() {
    let mut c = Camera::new();
    c.last_mouse_position = Point::new(9, 9);
    c.pan(50, -30);
    assert_eq!(c.position, Point::new(-50, 30));
    assert_eq!(c.last_mouse_position, Point::new(9, 9));
    c.adjust_zoom(1000);
    c.pan(-7, 7);
    assert_eq!(c.position, Point::new(-46, 27));
    c.pan(i32::MIN, i32::MAX);
    assert_eq!(c.position, Point::new(1073741778, -1073741796));
}

#[test]
fn drag_across_the_whole_screen_saturates() {
    let mut c = Camera::with_zoom_range(1, 1000).unwrap();
    c.adjust_zoom(-999);
    assert_eq!(c.zoom, 1);
    c.drag(Point::new(i32::MIN, i32::MAX), false);
    c.drag(Point::new(i32::MAX, i32::MIN), true);
    assert_eq!(c.position, Point::new(i32::MIN, i32::MAX));
}

#[test]
fn validity_check_follows_the_zoom_range() {
    let mut c = Camera::new();
    assert!(c.is_valid());
    c.zoom = 50;
    assert!(!c.is_valid());
    c.zoom = 2001;
    assert!(!c.is_valid());
    c.zoom = 2000;
    assert!(c.is_valid());
    c.min_zoom = 0;
    assert!(!c.is_valid());
}

#[test]
fn world_round_trip_stays_within_tolerance() {
    let mut c = Camera::new();
    c.position = Point::new(7, -3);
    c.adjust_zoom(500);
    let w = Point::new(-178, 101);
    let s = c.world_to_screen(w, view());
    assert_eq!(s, Point::new(122, 456));
    let back = c.screen_to_world(s, view());
    assert_eq!(back, Point::new(-179, 101));
    assert!(back.x <= w.x && (w.x - back.x) * 1500 < 1500 + 1000);
    assert!(back.y <= w.y && (w.y - back.y) * 1500 < 1500 + 1000);
}

#[test]
fn scrolling_moves_the_view_with_the_wheel() {
    let mut c = Camera::new();
    c.scroll(1000, -1500);
    assert_eq!(c.position, Point::new(2, -3));
    c.set_scroll_speed(32);
    assert_eq!(c.scroll_speed, 32);
    c.scroll(0, 2500);
    assert_eq!(c.position, Point::new(2, 77));
    c.adjust_zoom(1000);
    c.scroll(-2500, 0);
    assert_eq!(c.position, Point::new(-38, 77));
    assert_eq!(c.zoom, 2000);
    assert_eq!(c.last_mouse_position, Point::new(0, 0));
}

#[test]
fn scrolling_saturates_at_the_edge_of_the_plane() {
    let mut c = Camera::with_zoom_range(1, 1000).unwrap();
    c.adjust_zoom(-999);
    c.set_scroll_speed(u32::MAX);
    c.scroll(i32::MAX, i32::MIN);
    assert_eq!(c.position, Point::new(i32::MAX, i32::MIN));
}
