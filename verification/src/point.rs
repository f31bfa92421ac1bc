//! Points of a wall board.

use vstd::prelude::*;

verus! {

/// A point of a wall board, by its two coordinates.
#[derive(Clone, Copy, Debug, PartialEq, Eq, Structural)]
pub struct Point {
    pub x: i16,
    pub y: i16,
}

impl Point {
    /// The point with the coordinates `x` and `y`.
    pub fn new(x: i16, y: i16) -> (p: Point)
        ensures
            p == (Point { x, y }),
    {
        Point { x, y }
    }

    /// The first coordinate.
    pub fn get_x(&self) -> (x: i16)
        ensures
            x == self.x,
    {
        self.x
    }

    /// The second coordinate.
    pub fn get_y(&self) -> (y: i16)
        ensures
            y == self.y,
    {
        self.y
    }
}

} // verus!
