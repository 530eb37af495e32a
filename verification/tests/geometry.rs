use chain_draw::geometry::Point;
use chain_draw::mouse::MousePosition;

#[test]
fn squared_distance_is_exact() {
    assert_eq!(Point::new(0, 0).distance_squared_to(Point::new(3, 4)), 25);
    assert_eq!(Point::new(-7, 2).distance_squared_to(Point::new(-7, 2)), 0);
    assert_eq!(Point::new(1, 1).distance_squared_to(Point::new(-2, 5)), 25);
    assert_eq!(Point::new(100, 0).distance_squared_to(Point::new(0, 0)), 10_000);
}

#[test]
fn squared_distance_across_the_whole_grid_does_not_overflow() {
    let low = Point::new(i32::MIN, i32::MIN);
    let high = Point::new(i32::MAX, i32::MAX);
    let side: u128 = u32::MAX as u128;
    assert_eq!(low.distance_squared_to(high), 2 * side * side);
    assert_eq!(high.distance_squared_to(low), 2 * side * side);
}

#[test]
fn far_enough_is_at_least_the_minimum() {
    let endpoint = Point::new(0, 0);
    assert!(Point::new(50, 0).is_far_enough_from(endpoint, 50));
    assert!(Point::new(30, 40).is_far_enough_from(endpoint, 50));
    assert!(!Point::new(49, 0).is_far_enough_from(endpoint, 50));
    assert!(!Point::new(10, 0).is_far_enough_from(endpoint, 50));
    assert!(Point::new(100, 0).is_far_enough_from(endpoint, 50));
    assert!(Point::new(0, 0).is_far_enough_from(endpoint, 0));
    assert!(!Point::new(i32::MAX, 0).is_far_enough_from(endpoint, u32::MAX));
    assert!(Point::new(i32::MAX, 0).is_far_enough_from(Point::new(i32::MIN, 0), u32::MAX));
}

#[test]
fn the_origin_is_at_zero() {
    assert_eq!(Point::origin(), Point { x: 0, y: 0 });
    assert_eq!(Point::new(3, -4), Point { x: 3, y: -4 });
}

#[test]
fn the_pointer_starts_unseen_at_the_origin() {
    let mouse = MousePosition::default();
    assert_eq!(mouse.position, Point::new(0, 0));
    assert!(!mouse.available);
}

#[test]
fn a_missing_reading_keeps_the_last_known_position() {
    let mut mouse = MousePosition::default();
    mouse.track(Some(Point::new(12, -8)));
    assert_eq!(mouse, MousePosition { position: Point::new(12, -8), available: true });
    mouse.track(None);
    assert_eq!(mouse, MousePosition { position: Point::new(12, -8), available: false });
    mouse.track(Some(Point::new(1, 1)));
    assert_eq!(mouse, MousePosition::at(Point::new(1, 1)));
}
