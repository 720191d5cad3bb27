use vstd::prelude::*;

verus! {

/// A position on the glyph grid: `x` counts columns to the right, `y` counts
/// rows downwards. A point may lie outside the grid.
#[derive(Copy, Clone, Debug, PartialEq, Eq, Structural)]
pub struct Point {
    pub x: i32,
    pub y: i32,
}

impl Point {
    pub fn new(x: i32, y: i32) -> (p: Point)
        ensures
            p.x == x,
            p.y == y,
    {
        Point { x, y }
    }
}

} // verus!
