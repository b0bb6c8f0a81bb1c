//! The seven tetromino shape identities.

use vstd::prelude::*;

verus! {

/// One of the seven fixed tetromino shapes. Each maps to a fixed initial set
/// of four relative block offsets around a pivot (see `piece::create_piece`).
#[derive(Clone, Copy, Debug, PartialEq, Eq, Structural)]
pub enum PieceType {
    I,
    J,
    L,
    O,
    S,
    T,
    Z,
}

} // verus!
