use neo_space::geometry::Point;
use neo_space::line_smoothing::{
    bezier_value, catmull_rom_spline, catmull_rom_value, chord_third, fit_bezier, resample, sample,
    Smoothing, SAMPLES_PER_SEGMENT,
};

fn corner() -> Vec<Point> {
    vec![Point::new(0, 0), Point::new(100, 0), Point::new(100, 100)]
}

#[test]
fn short_input_resamples_to_nothing() {
    assert!(catmull_rom_spline(&[]).is_empty());
    assert!(catmull_rom_spline(&[Point::new(3, 4)]).is_empty());
    assert!(fit_bezier(&[], 1).is_empty());
    assert!(fit_bezier(&[Point::new(3, 4)], 1).is_empty());
}

#[test]
fn output_has_a_hundred_points_per_segment() {
    assert_eq!(SAMPLES_PER_SEGMENT, 100);
    let two = [Point::new(0, 0), Point::new(0, 5)];
    assert_eq!(catmull_rom_spline(&two).len(), 100);
    assert_eq!(fit_bezier(&two, 1).len(), 100);
    assert_eq!(catmull_rom_spline(&corner()).len(), 200);
    assert_eq!(fit_bezier(&corner(), 1).len(), 200);
}

#[test]
fn first_and_last_points_are_kept() {
    let line = vec![Point::new(-7, 13), Point::new(250, -40), Point::new(90, 90), Point::new(5, 6)];
    for method in [Smoothing::CatmullRom, Smoothing::Bezier { unit: 1 }, Smoothing::Bezier { unit: 48 }] {
        let out = resample(&line, method);
        assert_eq!(out.len(), 300);
        assert_eq!(out[0], line[0]);
        assert_eq!(out[299], line[3]);
    }
}

#[test]
fn every_input_point_lies_on_a_segment_boundary() {
    let line = vec![Point::new(-7, 13), Point::new(250, -40), Point::new(90, 90), Point::new(5, 6)];
    for method in [Smoothing::CatmullRom, Smoothing::Bezier { unit: 1 }, Smoothing::Bezier { unit: 48 }] {
        let out = resample(&line, method);
        for seg in 0..3 {
            assert_eq!(out[100 * seg], line[seg]);
            assert_eq!(out[100 * seg + 99], line[seg + 1]);
        }
    }
}

#[test]
fn resampling_is_repeatable() {
    let line = vec![Point::new(-7, 13), Point::new(250, -40), Point::new(90, 90), Point::new(5, 6)];
    assert_eq!(catmull_rom_spline(&line), catmull_rom_spline(&line));
    assert_eq!(fit_bezier(&line, 16), fit_bezier(&line, 16));
}

#[test]
fn catmull_rom_values_on_a_straight_segment() {
    let out = catmull_rom_spline(&[Point::new(0, 0), Point::new(990, 0)]);
    assert_eq!(out[0], Point::new(0, 0));
    assert_eq!(out[33], Point::new(293, 0));
    assert_eq!(out[66], Point::new(696, 0));
    assert_eq!(out[99], Point::new(990, 0));
}

#[test]
fn catmull_rom_bends_with_its_neighbours() {
    let out = catmull_rom_spline(&corner());
    assert_eq!(out[50], Point::new(50, -7));
    assert_eq!(out[150], Point::new(106, 50));
}

#[test]
fn catmull_rom_on_a_short_stroke() {
    let out = catmull_rom_spline(&[Point::new(0, 0), Point::new(0, 5)]);
    let ys: Vec<i32> = (0..100).step_by(11).map(|k| out[k].y).collect();
    assert_eq!(ys, vec![0, 0, 0, 1, 2, 2, 3, 4, 4, 5]);
    assert!(out.iter().all(|p| p.x == 0));
}

#[test]
fn catmull_rom_coordinate_formula() {
    assert_eq!(catmull_rom_value(0, 0, 990, 990, 33), 293);
    assert_eq!(catmull_rom_value(0, 100, 100, 100, 50), 106);
    assert_eq!(catmull_rom_value(-5, 17, 40, 3, 0), 17);
    assert_eq!(catmull_rom_value(-5, 17, 40, 3, 99), 40);
}

#[test]
fn catmull_rom_saturates() {
    assert_eq!(catmull_rom_value(i32::MIN, i32::MAX, i32::MAX, i32::MIN, 50), i32::MAX);
    assert_eq!(catmull_rom_value(i32::MAX, i32::MIN, i32::MIN, i32::MAX, 50), i32::MIN);
}

#[test]
fn bezier_values_on_a_straight_segment() {
    let out = fit_bezier(&[Point::new(0, 0), Point::new(990, 0)], 16);
    assert_eq!(out[0], Point::new(0, 0));
    assert_eq!(out[33], Point::new(256, 0));
    assert_eq!(out[66], Point::new(733, 0));
    assert_eq!(out[99], Point::new(990, 0));
}

#[test]
fn bezier_coordinate_formula() {
    assert_eq!(bezier_value(0, 0, 990, 990, 33), 256);
    assert_eq!(bezier_value(0, 0, 300, 300, 50), 152);
    assert_eq!(bezier_value(0, 0, 1, 0, 50), 0);
    assert_eq!(bezier_value(8, 1000, -1000, 9, 0), 8);
    assert_eq!(bezier_value(8, 1000, -1000, 9, 99), 9);
}

#[test]
fn chord_third_is_a_third_of_a_unit_rounded_toward_zero() {
    assert_eq!(chord_third(Point::new(0, 0), Point::new(0, 0), 30), (0, 0));
    assert_eq!(chord_third(Point::new(0, 0), Point::new(300, 0), 30), (10, 0));
    assert_eq!(chord_third(Point::new(300, 0), Point::new(300, -300), 30), (0, -10));
    assert_eq!(chord_third(Point::new(0, 0), Point::new(3, 4), 30), (6, 8));
    assert_eq!(chord_third(Point::new(5, 5), Point::new(-5, -5), 30), (-7, -7));
    assert_eq!(chord_third(Point::new(-5, -5), Point::new(5, 5), 30), (7, 7));
    assert_eq!(chord_third(Point::new(5, 5), Point::new(-5, -5), 1), (0, 0));
    assert_eq!(chord_third(Point::new(-5, -5), Point::new(5, 5), 1), (0, 0));
    assert_eq!(
        chord_third(Point::new(i32::MIN, i32::MAX), Point::new(i32::MAX, i32::MIN), u32::MAX),
        (1012333499, -1012333499)
    );
}

#[test]
fn bezier_control_points_follow_the_neighbouring_chords() {
    let line = [Point::new(0, 0), Point::new(300, 0), Point::new(300, -300)];
    let out = fit_bezier(&line, 30);
    assert_eq!(out[33], Point::new(77, 2));
    assert_eq!(out[50], Point::new(152, 3));
    assert_eq!(out[66], Point::new(222, 4));
    assert_eq!(out[99], Point::new(300, 0));
    assert_eq!(out[100], Point::new(300, 0));
    assert_eq!(out[133], Point::new(304, -78));
    assert_eq!(out[150], Point::new(303, -153));
    assert_eq!(out[166], Point::new(302, -223));
    assert_eq!(out[199], Point::new(300, -300));
}

#[test]
fn bezier_control_points_fall_on_the_end_points_for_a_unit_of_one_step() {
    let line = [Point::new(0, 0), Point::new(300, 0), Point::new(300, -300)];
    let out = fit_bezier(&line, 1);
    assert_eq!(out[33], Point::new(77, 0));
    assert_eq!(out[50], Point::new(152, 0));
    assert_eq!(out[133], Point::new(300, -78));
    assert_eq!(out[150], Point::new(300, -153));
}

#[test]
fn single_samples_agree_with_the_whole() {
    let line = corner();
    let whole = resample(&line, Smoothing::CatmullRom);
    assert_eq!(sample(&line, Smoothing::CatmullRom, 1, 50), whole[150]);
    let fitted = resample(&line, Smoothing::Bezier { unit: 16 });
    assert_eq!(sample(&line, Smoothing::Bezier { unit: 16 }, 0, 7), fitted[7]);
}
