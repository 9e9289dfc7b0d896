//! Fields: the cells of the board.

use crate::chess_pieces::Piece;
use crate::coordinates::Coordinates;
use vstd::prelude::*;

verus! {

/// The color of a field. It alternates with the parity of `x + y` and serves
/// only the rendering of the board.
#[derive(Clone, Copy, Debug, PartialEq, Eq, Structural)]
pub enum FieldColor {
    White,
    Black,
}

/// One cell of the board: its own coordinates and color, the piece standing on
/// it, if any, and an opaque handle to the visual object the surrounding
/// application renders the cell with.
#[derive(Debug, Clone, Copy, PartialEq, Eq, Structural)]
pub struct Field {
    pub entity: u64,
    pub coordinates: Coordinates,
    pub color: FieldColor,
    pub piece: Option<Piece>,
}

impl Field {
    /// A field with the given parts.
    pub fn new(entity: u64, coordinates: Coordinates, color: FieldColor, maybe_piece: Option<
        Piece,
    >) -> (f: Self)
        ensures
            f == (Field { entity, coordinates, color, piece: maybe_piece }),
    {
        Self { entity, coordinates, color, piece: maybe_piece }
    }
}

} // verus!
