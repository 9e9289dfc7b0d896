use chess_masters::board::Board;
use chess_masters::chess_pieces::{Piece, PieceColor, PieceType};
use chess_masters::coordinates::Coordinates;
use chess_masters::moves::get_possible_moves;
use chess_masters::user_input::{evaluate_outcome, GameOutcome};

fn at(x: i32, y: i32) -> Coordinates {
    Coordinates { x, y }
}

fn put(board: &mut Board, x: i32, y: i32, t: PieceType, color: PieceColor) {
    let c = at(x, y);
    board.place_piece(c, Some(Piece::new(t, color, c)));
}

#[test]
fn fools_mate_is_checkmate() {
    let mut board = Board::with_starting_position();
    assert!(board.move_piece(at(6, 2), at(6, 3)));
    assert!(board.move_piece(at(5, 7), at(5, 5)));
    assert!(board.move_piece(at(7, 2), at(7, 4)));
    assert!(board.move_piece(at(4, 8), at(8, 4)));

    assert!(board.no_possible_moves(PieceColor::White));
    assert!(board.king_in_danger(PieceColor::White));
    assert_eq!(
        evaluate_outcome(&board, PieceColor::White),
        GameOutcome::Checkmate { winner: PieceColor::Black }
    );
}

#[test]
fn cornered_king_is_stalemated() {
    let mut board = Board::empty();
    put(&mut board, 1, 8, PieceType::King { moved: true }, PieceColor::Black);
    put(&mut board, 2, 6, PieceType::Queen, PieceColor::White);
    put(&mut board, 3, 6, PieceType::King { moved: true }, PieceColor::White);
    board.black_king_pos = at(1, 8);
    board.white_king_pos = at(3, 6);

    assert!(board.no_possible_moves(PieceColor::Black));
    assert!(!board.king_in_danger(PieceColor::Black));
    assert_eq!(evaluate_outcome(&board, PieceColor::Black), GameOutcome::Stalemate);
}

#[test]
fn game_goes_on_from_the_start() {
    let board = Board::with_starting_position();
    assert_eq!(evaluate_outcome(&board, PieceColor::White), GameOutcome::InProgress);
    assert_eq!(evaluate_outcome(&board, PieceColor::Black), GameOutcome::InProgress);
}

#[test]
fn queenside_castling_clears_and_lands() {
    let mut board = Board::with_starting_position();
    board.remove_piece(at(2, 1));
    board.remove_piece(at(3, 1));
    board.remove_piece(at(4, 1));

    let king = *board.get_piece(at(5, 1)).unwrap();
    let moves = get_possible_moves(&king, &board, true);
    assert!(moves.contains(&at(1, 1)));
    // The kingside rook is still boxed in by the bishop and the knight.
    assert!(!moves.contains(&at(8, 1)));

    assert!(board.move_piece(at(5, 1), at(1, 1)));
    let king_after = board.get_piece(at(3, 1)).unwrap();
    assert_eq!(king_after.piece_type, PieceType::King { moved: true });
    let rook_after = board.get_piece(at(4, 1)).unwrap();
    assert_eq!(rook_after.piece_type, PieceType::Rook { moved: true });
    assert!(board.get_piece(at(5, 1)).is_none());
    assert!(board.get_piece(at(1, 1)).is_none());
    assert!(board.get_piece(at(2, 1)).is_none());
    assert_eq!(board.white_king_pos, at(3, 1));
}

#[test]
fn kingside_castling_clears_and_lands() {
    let mut board = Board::with_starting_position();
    board.remove_piece(at(6, 1));
    board.remove_piece(at(7, 1));

    let king = *board.get_piece(at(5, 1)).unwrap();
    let moves = get_possible_moves(&king, &board, true);
    assert!(moves.contains(&at(8, 1)));

    assert!(board.move_piece(at(5, 1), at(8, 1)));
    assert_eq!(
        board.get_piece(at(7, 1)).unwrap().piece_type,
        PieceType::King { moved: true }
    );
    assert_eq!(
        board.get_piece(at(6, 1)).unwrap().piece_type,
        PieceType::Rook { moved: true }
    );
    assert!(board.get_piece(at(5, 1)).is_none());
    assert!(board.get_piece(at(8, 1)).is_none());
    assert_eq!(board.white_king_pos, at(7, 1));
}

#[test]
fn castling_is_refused_over_an_attacked_square() {
    let mut board = Board::with_starting_position();
    board.remove_piece(at(2, 1));
    board.remove_piece(at(3, 1));
    board.remove_piece(at(4, 1));
    board.remove_piece(at(4, 2));
    put(&mut board, 4, 5, PieceType::Rook { moved: true }, PieceColor::Black);

    let king = *board.get_piece(at(5, 1)).unwrap();
    let moves = get_possible_moves(&king, &board, true);
    assert!(!moves.contains(&at(1, 1)));
}

#[test]
fn castling_is_refused_after_the_king_moved() {
    let mut board = Board::with_starting_position();
    board.remove_piece(at(2, 1));
    board.remove_piece(at(3, 1));
    board.remove_piece(at(4, 1));
    assert!(board.move_piece(at(5, 1), at(4, 1)));
    assert!(board.move_piece(at(4, 1), at(5, 1)));

    let king = *board.get_piece(at(5, 1)).unwrap();
    assert_eq!(king.piece_type, PieceType::King { moved: true });
    let moves = get_possible_moves(&king, &board, true);
    assert!(!moves.contains(&at(1, 1)));
}

#[test]
fn round_trip_keeps_the_moved_flag() {
    let mut board = Board::empty();
    put(&mut board, 1, 1, PieceType::Rook { moved: false }, PieceColor::White);
    let original = *board.get_piece(at(1, 1)).unwrap();

    assert!(board.move_piece(at(1, 1), at(1, 3)));
    assert!(board.move_piece(at(1, 3), at(1, 1)));

    let back = *board.get_piece(at(1, 1)).unwrap();
    assert_eq!(back.piece_type, PieceType::Rook { moved: true });
    assert_ne!(back, original);
    assert_eq!(back.coordinates, original.coordinates);
    assert_eq!(back.piece_color, original.piece_color);
}

#[test]
fn pawn_reaching_the_last_rank_becomes_a_queen() {
    let mut board = Board::empty();
    put(&mut board, 1, 7, PieceType::Pawn { moved: true }, PieceColor::White);
    put(&mut board, 5, 1, PieceType::King { moved: true }, PieceColor::White);
    put(&mut board, 8, 5, PieceType::King { moved: true }, PieceColor::Black);
    board.white_king_pos = at(5, 1);
    board.black_king_pos = at(8, 5);

    assert!(board.move_piece(at(1, 7), at(1, 8)));
    let promoted = *board.get_piece(at(1, 8)).unwrap();
    assert_eq!(promoted.piece_type, PieceType::Queen);

    let moves = get_possible_moves(&promoted, &board, true);
    assert!(moves.contains(&at(1, 1)));
    assert!(moves.contains(&at(8, 8)));
    assert!(moves.contains(&at(2, 7)));
}
