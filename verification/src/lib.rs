//! A falling-block puzzle game engine: a fixed-size grid on which shaped
//! pieces spawn, fall, translate, rotate, lock on collision, and clear
//! completed rows.
//!
//! The engine is a deterministic state machine over a 2D grid. Rendering,
//! input handling, audio, and the frame clock live outside this crate; they
//! drive the engine through the commands on [`game::Game`] and read it back
//! through the board and piece queries.

pub mod board;
pub mod cell_type;
pub mod constants;
pub mod direction;
pub mod game;
pub mod piece;
pub mod piece_type;
pub mod point_2d;
pub mod rotation_direction;
