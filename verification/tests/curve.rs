use chain_draw::curve::{form_curve, ControlPoints, Cubic, Curve, Sample};
use chain_draw::geometry::Point;

fn points(coordinates: &[(i32, i32)]) -> ControlPoints {
    ControlPoints { points: coordinates.iter().map(|&(x, y)| Point::new(x, y)).collect() }
}

#[test]
fn fewer_than_two_points_give_no_curve() {
    let empty = form_curve(&points(&[]));
    assert_eq!(empty.segment_count(), 0);
    assert_eq!(empty.position(0, 1), None);
    assert_eq!(empty.sample_count(100), None);
    assert_eq!(empty.tessellate(100), None);
    let single = form_curve(&points(&[(5, 5)]));
    assert_eq!(single.segment_count(), 0);
    assert_eq!(single.position(0, 1), None);
    assert_eq!(single.tessellate(100), None);
}

#[test]
fn the_default_curve_is_absent() {
    let curve = Curve::default();
    assert_eq!(curve.segment_count(), 0);
    assert_eq!(curve.position(0, 1), None);
}

#[test]
fn there_is_one_segment_less_than_points() {
    for n in 2..12 {
        let coordinates: Vec<(i32, i32)> = (0..n).map(|i| (i * 7, i * i)).collect();
        let curve = form_curve(&points(&coordinates));
        assert_eq!(curve.segment_count(), (n - 1) as usize);
    }
}

#[test]
fn the_curve_passes_through_every_control_point() {
    let coordinates = [(-50, -20), (-25, 25), (25, 25), (50, -20), (3, 1000), (-7, -7)];
    let curve = form_curve(&points(&coordinates));
    for denom in [1u16, 2, 100, 65535] {
        let scale = 2 * (denom as u64).pow(3);
        for (i, &(x, y)) in coordinates.iter().enumerate() {
            let at = curve.position(i as u64 * denom as u64, denom).unwrap();
            assert_eq!(at.scale, scale);
            assert_eq!(at.x, x as i128 * scale as i128);
            assert_eq!(at.y, y as i128 * scale as i128);
        }
    }
}

#[test]
fn two_points_give_a_straight_line() {
    let curve = form_curve(&points(&[(0, 0), (10, 20)]));
    assert_eq!(curve.segment_count(), 1);
    assert_eq!(curve.position(1, 2), Some(Sample { x: 80, y: 160, scale: 16 }));
    assert_eq!(curve.position(1, 4), Some(Sample { x: 320, y: 640, scale: 128 }));
}

#[test]
fn a_corner_is_rounded_as_the_formula_says() {
    let curve = form_curve(&points(&[(0, 0), (10, 0), (10, 10)]));
    // First segment: x = 10 t + 5 t^2 - 5 t^3, y = -5 t^2 + 5 t^3.
    assert_eq!(curve.position(1, 2), Some(Sample { x: 90, y: -10, scale: 16 }));
    // Second segment: x = 10 + 5 t - 10 t^2 + 5 t^3, y = 5 t + 10 t^2 - 5 t^3.
    assert_eq!(curve.position(3, 2), Some(Sample { x: 170, y: 70, scale: 16 }));
    assert_eq!(curve.position(4, 2), Some(Sample { x: 160, y: 160, scale: 16 }));
}

#[test]
fn a_polynomial_is_evaluated_term_by_term() {
    let cubic = Cubic { a: 1, b: 10, c: 100, d: 1000 };
    assert_eq!(cubic.numerator(0, 3), 27);
    assert_eq!(cubic.numerator(3, 3), 27 * 1111);
    assert_eq!(cubic.numerator(1, 2), 8 + 10 * 4 + 100 * 2 + 1000);
    assert_eq!(cubic.numerator(2, 1), 1 + 10 * 2 + 100 * 4 + 1000 * 8);
    let extreme = Cubic { a: i64::MIN, b: i64::MIN, c: i64::MIN, d: i64::MIN };
    let cube = (u16::MAX as i128).pow(3);
    assert_eq!(extreme.numerator(u16::MAX, u16::MAX), 4 * (i64::MIN as i128) * cube);
}

#[test]
fn parameters_outside_the_curve_have_no_position() {
    let curve = form_curve(&points(&[(0, 0), (10, 0), (10, 10)]));
    assert!(curve.position(0, 1).is_some());
    assert!(curve.position(2, 1).is_some());
    assert_eq!(curve.position(3, 1), None);
    assert!(curve.position(200, 100).is_some());
    assert_eq!(curve.position(201, 100), None);
    assert_eq!(curve.position(0, 0), None);
    assert_eq!(curve.position(u64::MAX, 1), None);
}

#[test]
fn refitting_unchanged_points_gives_the_same_curve() {
    let control_points = points(&[(0, 0), (40, 10), (80, -10), (120, 0)]);
    let first = form_curve(&control_points);
    let second = form_curve(&control_points);
    assert_eq!(first.segment_count(), second.segment_count());
    assert_eq!(first.tessellate(100), second.tessellate(100));
    assert!(first.tessellate(100).is_some());
}

#[test]
fn the_sample_count_grows_with_the_segments() {
    let short = form_curve(&points(&[(0, 0), (10, 0)]));
    let long = form_curve(&points(&[(0, 0), (10, 0), (20, 5), (30, 0), (40, 0)]));
    assert_eq!(short.sample_count(100), Some(101));
    assert_eq!(long.sample_count(100), Some(401));
    assert_eq!(long.sample_count(1), Some(5));
    assert_eq!(long.sample_count(0), None);
    assert_eq!(long.tessellate(0), None);
    assert_eq!(long.tessellate(100).unwrap().len(), 401);
}

#[test]
fn the_strip_holds_the_positions_in_order() {
    let coordinates = [(0, 0), (10, 0), (10, 10), (-30, 4)];
    let curve = form_curve(&points(&coordinates));
    let strip = curve.tessellate(4).unwrap();
    assert_eq!(strip.len(), 13);
    for (i, sample) in strip.iter().enumerate() {
        assert_eq!(Some(*sample), curve.position(i as u64, 4));
    }
    assert_eq!(strip[0], Sample { x: 0, y: 0, scale: 128 });
    assert_eq!(strip[4], Sample { x: 10 * 128, y: 0, scale: 128 });
    assert_eq!(strip[12], Sample { x: -30 * 128, y: 4 * 128, scale: 128 });
    // A quarter into the first segment: x = 10 t + 5 t^2 - 5 t^3.
    assert_eq!(strip[1].x, 20 * 16 + 10 * 4 - 10);
}

#[test]
fn coordinates_at_the_edge_of_the_grid_are_fitted() {
    let coordinates = [(i32::MIN, i32::MAX), (i32::MAX, i32::MIN), (i32::MIN, i32::MIN)];
    let curve = form_curve(&points(&coordinates));
    assert_eq!(curve.segment_count(), 2);
    let denom = u16::MAX;
    let scale = 2 * (denom as i128).pow(3);
    for (i, &(x, y)) in coordinates.iter().enumerate() {
        let at = curve.position(i as u64 * denom as u64, denom).unwrap();
        assert_eq!(at.x, x as i128 * scale);
        assert_eq!(at.y, y as i128 * scale);
    }
    assert!(curve.position(denom as u64 / 2, denom).is_some());
}

#[test]
fn the_segments_hold_the_doubled_coefficients() {
    let curve = form_curve(&points(&[(0, 0), (10, 0), (10, 10)]));
    let segments = curve.segments().unwrap();
    assert_eq!(segments.len(), 2);
    assert_eq!(segments[0].x, Cubic { a: 0, b: 20, c: 10, d: -10 });
    assert_eq!(segments[0].y, Cubic { a: 0, b: 0, c: -10, d: 10 });
    assert_eq!(segments[1].x, Cubic { a: 20, b: 10, c: -20, d: 10 });
    assert_eq!(segments[1].y, Cubic { a: 0, b: 10, c: 20, d: -10 });
    assert!(form_curve(&points(&[(1, 2)])).segments().is_none());
}
