//! Integer 2D coordinates, row (`y`) first to match the matrix layout of the
//! board.

use vstd::prelude::*;

verus! {

/// A 2D point with integer coordinates. Y comes first, then X, to match a
/// matrix-like structure: `y` is the row, `x` the column.
#[derive(Clone, Copy, Debug, PartialEq, Eq, Structural)]
pub struct Point2D {
    pub y: isize,
    pub x: isize,
}

impl Point2D {
    /// Creates a new [`Point2D`] with the specified coordinates.
    pub fn new(y: isize, x: isize) -> (p: Self)
        ensures
            p == (Point2D { y, x }),
    {
        Self { y, x }
    }

    /// Creates a default [`Point2D`] at the origin (0, 0).
    pub fn default() -> (p: Self)
        ensures
            p == (Point2D { y: 0 as isize, x: 0 as isize }),
    {
        Self { y: 0, x: 0 }
    }
}

} // verus!
