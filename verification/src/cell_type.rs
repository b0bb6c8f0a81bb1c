//! Board cells and the display tags carried by filled cells.

use vstd::prelude::*;

verus! {

/// The visual identity of a piece, carried only for rendering. The engine's
/// logic treats all filled cells alike regardless of their color.
#[derive(Clone, Copy, Debug, PartialEq, Eq, Structural)]
pub enum PieceColor {
    Cyan,
    Blue,
    Orange,
    Yellow,
    Green,
    Purple,
    Red,
}

/// One cell of the board: empty, or filled with the color tag of the piece
/// that was locked there.
#[derive(Clone, Copy, Debug, PartialEq, Eq, Structural)]
pub enum CellType {
    Empty,
    Filled(PieceColor),
}

impl CellType {
    /// True on every filled cell, whatever its color tag.
    pub open spec fn is_filled(self) -> bool {
        self != CellType::Empty
    }
}

} // verus!
