//! Grid dimensions shared by the whole engine.

use vstd::prelude::*;

verus! {

/// Number of rows on the board; row 0 is the top, row `ROWS - 1` the floor.
pub const ROWS: usize = 20;

/// Number of columns on the board; column 0 is the left edge.
pub const COLS: usize = 10;

} // verus!
