//! Positions on the integer grid and the exact distance test between them.
//!
//! World positions are held in whole grid units. What a unit is worth is the
//! caller's choice; distances are given in the same unit. All comparisons are
//! made on squared distances, so nothing is rounded.

use vstd::prelude::*;

verus! {

/// A position in world space, in grid units.
#[derive(Clone, Copy, Debug, PartialEq, Eq, Structural)]
pub struct Point {
    pub x: i32,
    pub y: i32,
}

/// The square of the Euclidean distance between two positions.
pub open spec fn distance_squared(a: Point, b: Point) -> int {
    (a.x - b.x) * (a.x - b.x) + (a.y - b.y) * (a.y - b.y)
}

/// Whether `candidate` lies at least `min_distance` away from `endpoint`.
pub open spec fn far_enough(endpoint: Point, candidate: Point, min_distance: u32) -> bool {
    distance_squared(endpoint, candidate) >= min_distance * min_distance
}

/// The square of a difference of two coordinates fits in 64 bits.
proof fn lemma_square_bound(d: int)
    requires
        -0xffff_ffff <= d <= 0xffff_ffff,
    ensures
        0 <= d * d <= 0xffff_ffff * 0xffff_ffff,
{
    assert(0 <= d * d <= 0xffff_ffff * 0xffff_ffff) by (nonlinear_arith)
        requires
            -0xffff_ffff <= d <= 0xffff_ffff,
    ;
}

impl Point {
    /// The position with the given coordinates.
    pub fn new(x: i32, y: i32) -> (point: Point)
        ensures
            point == (Point { x, y }),
    {
        Point { x, y }
    }

    /// The origin of the grid.
    pub fn origin() -> (point: Point)
        ensures
            point == (Point { x: 0, y: 0 }),
    {
        Point { x: 0, y: 0 }
    }

    /// The squared distance from `self` to `other`.
    pub fn distance_squared_to(self, other: Point) -> (d: u128)
        ensures
            d == distance_squared(self, other),
    {
        let dx: i128 = self.x as i128 - other.x as i128;
        let dy: i128 = self.y as i128 - other.y as i128;
        proof {
            lemma_square_bound(dx as int);
            lemma_square_bound(dy as int);
        }
        let sum: i128 = dx * dx + dy * dy;
        sum as u128
    }

    /// Whether `self` lies at least `min_distance` away from `endpoint`.
    /// A distance of exactly `min_distance` is far enough.
    pub fn is_far_enough_from(self, endpoint: Point, min_distance: u32) -> (far: bool)
        ensures
            far == far_enough(endpoint, self, min_distance),
    {
        let limit: u128 = min_distance as u128;
        proof {
            lemma_square_bound(min_distance as int);
        }
        endpoint.distance_squared_to(self) >= limit * limit
    }
}

} // verus!
