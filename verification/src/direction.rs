//! Horizontal and vertical movement directions for a falling piece.

use vstd::prelude::*;

verus! {

/// A direction in which a piece can be asked to move.
#[derive(Clone, Copy, Debug, PartialEq, Eq, Structural)]
pub enum Direction {
    Left,
    Right,
    Down,
}

} // verus!
