use bevy::math::cubic_splines::{CubicCardinalSpline, CubicGenerator};
use bevy::math::Vec2;
use chain_draw::curve::{form_curve, ControlPoints};
use chain_draw::geometry::Point;

fn both(coordinates: &[(i32, i32)]) -> (ControlPoints, Vec<Vec2>) {
    let grid = coordinates.iter().map(|&(x, y)| Point::new(x, y)).collect();
    let floats = coordinates.iter().map(|&(x, y)| Vec2::new(x as f32, y as f32)).collect();
    (ControlPoints { points: grid }, floats)
}

#[test]
fn the_curve_has_as_many_segments_as_bevy_gives() {
    for n in 2..9 {
        let coordinates: Vec<(i32, i32)> = (0..n).map(|i| (i * 13 - 20, (i * i) % 17)).collect();
        let (grid, floats) = both(&coordinates);
        let theirs = CubicCardinalSpline::new_catmull_rom(floats).to_curve().unwrap();
        assert_eq!(form_curve(&grid).segment_count(), theirs.segments().len());
    }
    let (grid, floats) = both(&[(1, 1)]);
    assert!(CubicCardinalSpline::new_catmull_rom(floats).to_curve().is_err());
    assert_eq!(form_curve(&grid).segment_count(), 0);
}

#[test]
fn the_coefficients_are_twice_what_bevy_computes() {
    let (grid, floats) = both(&[(-50, -20), (-25, 25), (25, 25), (50, -20), (7, 300)]);
    let theirs = CubicCardinalSpline::new_catmull_rom(floats).to_curve().unwrap();
    let ours = form_curve(&grid);
    let segments = ours.segments().unwrap();
    assert_eq!(segments.len(), theirs.segments().len());
    for (segment, their_segment) in segments.iter().zip(theirs.segments().iter()) {
        let [a, b, c, d] = their_segment.coeff;
        assert_eq!(Vec2::new(segment.x.a as f32, segment.y.a as f32), a * 2.0);
        assert_eq!(Vec2::new(segment.x.b as f32, segment.y.b as f32), b * 2.0);
        assert_eq!(Vec2::new(segment.x.c as f32, segment.y.c as f32), c * 2.0);
        assert_eq!(Vec2::new(segment.x.d as f32, segment.y.d as f32), d * 2.0);
    }
}

#[test]
fn the_strip_follows_the_line_strip_of_bevy() {
    let (grid, floats) = both(&[(0, 0), (100, 0), (200, 0), (200, 150), (40, 90)]);
    let theirs = CubicCardinalSpline::new_catmull_rom(floats).to_curve().unwrap();
    let ours = form_curve(&grid);
    let resolution = 100 * theirs.segments().len();
    let positions: Vec<Vec2> = theirs.iter_positions(resolution).collect();
    let strip = ours.tessellate(100).unwrap();
    assert_eq!(ours.sample_count(100), Some(resolution + 1));
    assert_eq!(strip.len(), positions.len());
    for (sample, position) in strip.iter().zip(positions.iter()) {
        let x = sample.x as f64 / sample.scale as f64;
        let y = sample.y as f64 / sample.scale as f64;
        assert!((x - position.x as f64).abs() < 1e-2, "{} against {}", x, position.x);
        assert!((y - position.y as f64).abs() < 1e-2, "{} against {}", y, position.y);
    }
}
