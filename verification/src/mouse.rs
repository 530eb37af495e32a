//! The pointer: where it is, or where it was when it was last seen.

use crate::geometry::Point;
use vstd::prelude::*;

verus! {

/// What is known of the pointer in a tick.
#[derive(Clone, Copy, Debug, PartialEq, Eq, Structural)]
pub struct MousePosition {
    /// Where the pointer is, or where it last was over the drawing surface.
    pub position: Point,
    /// Whether the pointer is over the drawing surface in this tick.
    pub available: bool,
}

impl Default for MousePosition {
    /// The pointer has not been seen yet; its position is the origin.
    fn default() -> (mouse: MousePosition)
        ensures
            mouse == (MousePosition { position: Point { x: 0, y: 0 }, available: false }),
    {
        MousePosition { position: Point::origin(), available: false }
    }
}

impl MousePosition {
    /// What is known after a reading: the reading where there is one, else
    /// the last known position, marked as not available.
    pub open spec fn after_reading(self, reading: Option<Point>) -> MousePosition {
        match reading {
            Some(position) => MousePosition { position, available: true },
            None => MousePosition { position: self.position, available: false },
        }
    }

    /// A pointer that is over the surface at `position`.
    pub fn at(position: Point) -> (mouse: MousePosition)
        ensures
            mouse == (MousePosition { position, available: true }),
    {
        MousePosition { position, available: true }
    }

    /// Takes in this tick's reading of the pointer. A pointer that is
    /// outside the surface gives no reading and leaves the position as it is.
    pub fn track(&mut self, reading: Option<Point>)
        ensures
            *final(self) == old(self).after_reading(reading),
    {
        match reading {
            Some(position) => {
                self.position = position;
                self.available = true;
            },
            None => {
                self.available = false;
            },
        }
    }
}

} // verus!
