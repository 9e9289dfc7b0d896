//! The decisions behind a confirmed move: per-piece state updates the caller
//! applies to its own copy of a piece, the post-castle squares, and the
//! game-outcome evaluation that the surrounding application runs once per
//! applied move.

use crate::board::{flag_updated_type, Board};
use crate::chess_pieces::{Piece, PieceColor, PieceType};
use crate::coordinates::Coordinates;
use crate::moves::{
    contains_coord, exists_legal_move, get_possible_moves, king_danger, possible_move,
};
use vstd::prelude::*;

verus! {

/// What a click on a field asks the application to do, once the rules have
/// spoken: change the selection, play a move, castle, or nothing.
#[derive(Clone, Copy, Debug, PartialEq, Eq, Structural)]
pub enum ClickAction {
    SelectPiece { at: Coordinates },
    UnselectPiece,
    Castle { king: Coordinates, rook: Coordinates },
    MovePiece { from: Coordinates, to: Coordinates },
    Ignore,
}

/// The decision behind a click on `clicked` while `selected` names the
/// currently selected piece's field, if any, and `white` says whose turn it
/// is. The application performs the returned action — selection highlights,
/// sprite moves, and the board call itself stay on its side.
///
/// Clicking the selected piece again unselects it; clicking another piece of
/// the side to move selects that piece, except that clicking an unmoved own
/// rook while an unmoved own king is selected plays castling when the rules
/// allow it; clicking anything else plays the move when it is legal, and is
/// otherwise ignored.
pub fn field_click_action(
    board: &Board,
    white: bool,
    selected: Option<Coordinates>,
    clicked: Coordinates,
) -> (r: ClickAction)
    requires
        board@.wf(),
        clicked.spec_in_bounds(),
        selected matches Some(sc) ==> board@.piece_at(sc) is Some,
    ensures
        r == match selected {
            Some(sc) => {
                let sel = board@.piece_at(sc).unwrap();
                match board@.piece_at(clicked) {
                    Some(q) => if (q.piece_color == PieceColor::White) == white {
                        if clicked == sc {
                            ClickAction::UnselectPiece
                        } else if q.piece_type == (PieceType::Rook { moved: false })
                            && sel.piece_type == (PieceType::King { moved: false })
                            && possible_move(board@, sel, clicked, true) {
                            ClickAction::Castle { king: sc, rook: clicked }
                        } else {
                            ClickAction::SelectPiece { at: clicked }
                        }
                    } else if possible_move(board@, sel, clicked, true) {
                        ClickAction::MovePiece { from: sc, to: clicked }
                    } else {
                        ClickAction::Ignore
                    },
                    None => if possible_move(board@, sel, clicked, true) {
                        ClickAction::MovePiece { from: sc, to: clicked }
                    } else {
                        ClickAction::Ignore
                    },
                }
            },
            None => match board@.piece_at(clicked) {
                Some(q) => if (q.piece_color == PieceColor::White) == white {
                    ClickAction::SelectPiece { at: clicked }
                } else {
                    ClickAction::Ignore
                },
                None => ClickAction::Ignore,
            },
        },
{
    let clicked_piece: Option<Piece> = match board.get_piece(clicked) {
        Some(p) => Some(*p),
        None => None,
    };
    match selected {
        Some(sc) => {
            let sel = *board.get_piece(sc).unwrap();
            proof {
                assert(board@.piece_at(sel.coordinates) == Some(sel));
            }
            if let Some(q) = clicked_piece {
                if (q.piece_color == PieceColor::White) == white {
                    if clicked == sc {
                        return ClickAction::UnselectPiece;
                    }
                    if q.piece_type == (PieceType::Rook { moved: false }) && sel.piece_type
                        == (PieceType::King { moved: false }) {
                        let legal = get_possible_moves(&sel, board, true);
                        if contains_coord(&legal, clicked) {
                            return ClickAction::Castle { king: sc, rook: clicked };
                        }
                    }
                    return ClickAction::SelectPiece { at: clicked };
                }
            }
            let legal = get_possible_moves(&sel, board, true);
            if contains_coord(&legal, clicked) {
                ClickAction::MovePiece { from: sc, to: clicked }
            } else {
                ClickAction::Ignore
            }
        },
        None => {
            match clicked_piece {
                Some(q) => {
                    if (q.piece_color == PieceColor::White) == white {
                        ClickAction::SelectPiece { at: clicked }
                    } else {
                        ClickAction::Ignore
                    }
                },
                None => ClickAction::Ignore,
            }
        },
    }
}

/// The color whose turn it is not.
pub open spec fn opposite_color(color: PieceColor) -> PieceColor {
    if color == PieceColor::White {
        PieceColor::Black
    } else {
        PieceColor::White
    }
}

/// What a finished move means for the game: play goes on, the side to move
/// is checkmated, or it is stalemated.
#[derive(Clone, Copy, Debug, PartialEq, Eq, Structural)]
pub enum GameOutcome {
    InProgress,
    Checkmate { winner: PieceColor },
    Stalemate,
}

/// The outcome once `active_color` is to move: checkmate — the other color
/// wins — when it has no legal move while its king is in danger, stalemate
/// when it has no legal move with its king safe, and otherwise the game goes
/// on.
pub fn evaluate_outcome(board: &Board, active_color: PieceColor) -> (r: GameOutcome)
    requires
        board@.wf(),
    ensures
        r == if !exists_legal_move(board@, active_color) {
            if king_danger(board@, active_color) {
                GameOutcome::Checkmate { winner: opposite_color(active_color) }
            } else {
                GameOutcome::Stalemate
            }
        } else {
            GameOutcome::InProgress
        },
{
    let maybe_winner = if active_color == PieceColor::White {
        PieceColor::Black
    } else {
        PieceColor::White
    };
    if board.no_possible_moves(active_color) {
        if board.king_in_danger(active_color) {
            GameOutcome::Checkmate { winner: maybe_winner }
        } else {
            GameOutcome::Stalemate
        }
    } else {
        GameOutcome::InProgress
    }
}

/// Sets the piece's "has moved" flag, whichever kind carries one.
pub fn check_if_piece_already_moved(piece: &mut Piece)
    ensures
        *final(piece) == (Piece { piece_type: flag_updated_type(old(piece).piece_type), ..*old(
            piece,
        ) }),
{
    if piece.piece_type == (PieceType::Pawn { moved: false }) {
        piece.piece_type = PieceType::Pawn { moved: true };
    }

    if piece.piece_type == (PieceType::King { moved: false }) {
        piece.piece_type = PieceType::King { moved: true };
    }

    if piece.piece_type == (PieceType::Rook { moved: false }) {
        piece.piece_type = PieceType::Rook { moved: true };
    }
}

/// Turns the piece into a queen; everything else about it stays.
pub fn promote_pawn(piece: &mut Piece)
    ensures
        *final(piece) == (Piece { piece_type: PieceType::Queen, ..*old(piece) }),
{
    piece.piece_type = PieceType::Queen;
}

/// Promotes the piece to a queen exactly when it is a pawn that has moved
/// and now stands on the farthest rank of its color.
pub fn handle_pawn_promotion(piece: &mut Piece, clicked_coords: Coordinates)
    ensures
        *final(piece) == if old(piece).piece_type == (PieceType::Pawn { moved: true }) && ((old(
            piece,
        ).piece_color == PieceColor::White && clicked_coords.y == 8) || (old(piece).piece_color
            == PieceColor::Black && clicked_coords.y == 1)) {
            Piece { piece_type: PieceType::Queen, ..*old(piece) }
        } else {
            *old(piece)
        },
{
    if piece.piece_type == (PieceType::Pawn { moved: true }) {
        if piece.piece_color == PieceColor::White && clicked_coords.y == 8 {
            promote_pawn(piece);
        } else if piece.piece_color == PieceColor::Black && clicked_coords.y == 1 {
            promote_pawn(piece);
        }
    }
}

/// Where king and rook land when the king on `king_coords` castles with the
/// rook on `rook_coords`: four files apart means the long side — the king
/// two files towards the rook, the rook three files in; otherwise the short
/// side — the king two files towards the rook, the rook two files in.
pub fn castle_destinations(king_coords: Coordinates, rook_coords: Coordinates) -> (r: (
    Coordinates,
    Coordinates,
))
    requires
        king_coords.spec_in_bounds(),
        rook_coords.spec_in_bounds(),
    ensures
        r == if king_coords.x - rook_coords.x == 4 || rook_coords.x - king_coords.x == 4 {
            (
                Coordinates { x: (king_coords.x - 2) as i32, y: king_coords.y },
                Coordinates { x: (rook_coords.x + 3) as i32, y: rook_coords.y },
            )
        } else {
            (
                Coordinates { x: (king_coords.x + 2) as i32, y: king_coords.y },
                Coordinates { x: (rook_coords.x - 2) as i32, y: rook_coords.y },
            )
        },
{
    let diff: i32 = king_coords.x - rook_coords.x;
    if diff == 4 || diff == -4 {
        (
            Coordinates { x: king_coords.x - 2, y: king_coords.y },
            Coordinates { x: rook_coords.x + 3, y: rook_coords.y },
        )
    } else {
        (
            Coordinates { x: king_coords.x + 2, y: king_coords.y },
            Coordinates { x: rook_coords.x - 2, y: rook_coords.y },
        )
    }
}

} // verus!
