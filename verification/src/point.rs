//! Integer 2-D coordinates.

use vstd::prelude::*;

verus! {

/// A 2-D integer coordinate. A point may lie outside any particular grid,
/// and may even be negative: bounds are checked by the grid, not here.
#[derive(Copy, Clone, PartialEq, Eq, Structural, Debug)]
pub struct Point {
    pub x: i32,
    pub y: i32,
}

impl Point {
    pub fn new(x: i32, y: i32) -> (p: Point)
        ensures
            p.x == x,
            p.y == y,
    {
        Point { x, y }
    }

    pub fn zero() -> (p: Point)
        ensures
            p.x == 0,
            p.y == 0,
    {
        Point { x: 0, y: 0 }
    }

    /// The point shifted by `(x, y)`. Purely arithmetic: the result may lie
    /// outside any grid.
    pub fn translate(&self, x: i32, y: i32) -> (p: Point)
        requires
            i32::MIN <= self.x + x <= i32::MAX,
            i32::MIN <= self.y + y <= i32::MAX,
        ensures
            p.x == self.x + x,
            p.y == self.y + y,
    {
        Point { x: self.x + x, y: self.y + y }
    }
}

} // verus!
