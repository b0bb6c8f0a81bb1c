//! Rotation directions for a falling piece.

use vstd::prelude::*;

verus! {

/// A direction in which a piece can be rotated about its local origin.
#[derive(Clone, Copy, Debug, PartialEq, Eq, Structural)]
pub enum RotationDirection {
    Clockwise,
    CounterClockwise,
}

} // verus!
