//! A chess rules engine: it owns the board state, enumerates legal moves per
//! piece, detects check, checkmate and stalemate, and applies moves including
//! the special rules (castling, pawn promotion, double-step pawn advance).
//!
//! The engine is synchronous and pure: no I/O, no concurrency. A surrounding
//! application renders the board, forwards user input as coordinates, and may
//! ask an external program for a move; all of that talks to the engine through
//! the plain-value API exposed here.

use vstd::prelude::*;

pub mod audio;
pub mod board;
pub mod bot;
pub mod chess_pieces;
pub mod coordinates;
pub mod field;
pub mod moves;
pub mod ui;
pub mod user_input;

verus! {

/// Width and height of the board, in fields.
pub const BOARD_SIZE: usize = 8;

} // verus!
