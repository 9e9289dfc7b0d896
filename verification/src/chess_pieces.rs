//! Pieces: identity, kind, color, and the per-kind "has moved" state that the
//! castling, double-step and promotion rules depend on.

use crate::coordinates::Coordinates;
use vstd::prelude::*;

verus! {

/// The color of a piece.
#[derive(Clone, Copy, Debug, PartialEq, Eq, Structural, Hash)]
pub enum PieceColor {
    White,
    Black,
}

/// The kind of a piece. King, Rook and Pawn carry a "has moved" flag, because
/// the legality of castling (King/Rook) and of the double-step advance (Pawn)
/// depends on move history, not just on the kind.
#[derive(Clone, Copy, Debug, PartialEq, Eq, Structural, Hash)]
pub enum PieceType {
    King { moved: bool },
    Queen,
    Rook { moved: bool },
    Bishop,
    Knight,
    Pawn { moved: bool },
}

/// A piece on the board. `entity` is an opaque handle to the visual object
/// owned by the surrounding application; the engine stores it so the
/// application can tell which visual to move or remove, and never interprets
/// it.
#[derive(Debug, Clone, Copy, PartialEq, Eq, Structural)]
pub struct Piece {
    pub entity: Option<u64>,
    pub piece_type: PieceType,
    pub piece_color: PieceColor,
    pub coordinates: Coordinates,
}

impl Piece {
    /// A fresh piece with no visual handle attached yet.
    pub fn new(piece_type: PieceType, piece_color: PieceColor, coordinates: Coordinates) -> (p:
        Self)
        ensures
            p == (Piece { entity: None, piece_type, piece_color, coordinates }),
    {
        Self { entity: None, piece_type, piece_color, coordinates }
    }

    /// The kind of the piece, as text.
    pub fn get_type(&self) -> (r: &'static str)
        ensures
            r@ == self.spec_type_name(),
    {
        match self.piece_type {
            PieceType::King { .. } => "King",
            PieceType::Queen => "Queen",
            PieceType::Rook { .. } => "Rook",
            PieceType::Bishop => "Bishop",
            PieceType::Knight => "Knight",
            PieceType::Pawn { .. } => "Pawn",
        }
    }

    /// The kind of the piece, as the text `get_type` returns.
    pub open spec fn spec_type_name(self) -> Seq<char> {
        match self.piece_type {
            PieceType::King { .. } => "King"@,
            PieceType::Queen => "Queen"@,
            PieceType::Rook { .. } => "Rook"@,
            PieceType::Bishop => "Bishop"@,
            PieceType::Knight => "Knight"@,
            PieceType::Pawn { .. } => "Pawn"@,
        }
    }

    /// The visual handle attached to the piece, if any.
    pub fn get_entity(&self) -> (r: Option<u64>)
        ensures
            r == self.entity,
    {
        self.entity
    }

    /// Attaches a visual handle.
    pub fn set_entity(&mut self, entity: u64)
        ensures
            *final(self) == (Piece { entity: Some(entity), ..*old(self) }),
    {
        self.entity = Some(entity);
    }

    /// The one-character encoding of the piece used by the position export:
    /// the letter encodes the kind, the case encodes the color (White upper
    /// case).
    pub open spec fn spec_fen_char(self) -> char {
        match self.piece_color {
            PieceColor::White => match self.piece_type {
                PieceType::King { .. } => 'K',
                PieceType::Queen => 'Q',
                PieceType::Rook { .. } => 'R',
                PieceType::Bishop => 'B',
                PieceType::Knight => 'N',
                PieceType::Pawn { .. } => 'P',
            },
            PieceColor::Black => match self.piece_type {
                PieceType::King { .. } => 'k',
                PieceType::Queen => 'q',
                PieceType::Rook { .. } => 'r',
                PieceType::Bishop => 'b',
                PieceType::Knight => 'n',
                PieceType::Pawn { .. } => 'p',
            },
        }
    }

    /// The one-character encoding of the piece, for the position export.
    pub fn fen_char(&self) -> (c: char)
        ensures
            c == self.spec_fen_char(),
    {
        match self.piece_color {
            PieceColor::White => match self.piece_type {
                PieceType::King { .. } => 'K',
                PieceType::Queen => 'Q',
                PieceType::Rook { .. } => 'R',
                PieceType::Bishop => 'B',
                PieceType::Knight => 'N',
                PieceType::Pawn { .. } => 'P',
            },
            PieceColor::Black => match self.piece_type {
                PieceType::King { .. } => 'k',
                PieceType::Queen => 'q',
                PieceType::Rook { .. } => 'r',
                PieceType::Bishop => 'b',
                PieceType::Knight => 'n',
                PieceType::Pawn { .. } => 'p',
            },
        }
    }
}

} // verus!
