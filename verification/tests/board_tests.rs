use chess_masters::board::Board;
use chess_masters::chess_pieces::{Piece, PieceColor, PieceType};
use chess_masters::coordinates::Coordinates;

fn at(x: i32, y: i32) -> Coordinates {
    Coordinates { x, y }
}

#[test]
fn get_field_out_of_bounds_is_none() {
    let board = Board::with_starting_position();
    assert!(board.get_field(at(0, 5)).is_none());
    assert!(board.get_field(at(9, 1)).is_none());
    assert!(board.get_field(at(3, 0)).is_none());
    assert!(board.get_field(at(3, 9)).is_none());
    assert!(board.get_field(at(-7, 23)).is_none());
    assert!(board.get_piece(at(0, 0)).is_none());
    assert!(board.get_field(at(1, 1)).is_some());
    assert!(board.get_field(at(8, 8)).is_some());
}

#[test]
fn empty_board_has_no_pieces() {
    let board = Board::empty();
    for x in 1..=8 {
        for y in 1..=8 {
            assert!(board.get_piece(at(x, y)).is_none());
            let field = board.get_field(at(x, y)).unwrap();
            assert_eq!(field.coordinates, at(x, y));
        }
    }
    assert_eq!(board.white_king_pos, at(5, 1));
    assert_eq!(board.black_king_pos, at(5, 8));
}

#[test]
fn starting_position_layout() {
    let board = Board::with_starting_position();

    let rook = board.get_piece(at(1, 1)).unwrap();
    assert_eq!(rook.piece_color, PieceColor::White);
    assert_eq!(rook.piece_type, PieceType::Rook { moved: false });

    let white_king = board.get_piece(at(5, 1)).unwrap();
    assert_eq!(white_king.piece_color, PieceColor::White);
    assert_eq!(white_king.piece_type, PieceType::King { moved: false });

    let black_king = board.get_piece(at(5, 8)).unwrap();
    assert_eq!(black_king.piece_color, PieceColor::Black);
    assert_eq!(black_king.piece_type, PieceType::King { moved: false });

    for x in 1..=8 {
        let white_pawn = board.get_piece(at(x, 2)).unwrap();
        assert_eq!(white_pawn.piece_color, PieceColor::White);
        assert_eq!(white_pawn.piece_type, PieceType::Pawn { moved: false });

        let black_pawn = board.get_piece(at(x, 7)).unwrap();
        assert_eq!(black_pawn.piece_color, PieceColor::Black);
        assert_eq!(black_pawn.piece_type, PieceType::Pawn { moved: false });
    }
    for x in 1..=8 {
        for y in 3..=6 {
            assert!(board.get_piece(at(x, y)).is_none());
        }
    }

    assert!(!board.no_possible_moves(PieceColor::White));
    assert!(!board.king_in_danger(PieceColor::White));
}

#[test]
fn move_piece_fails_without_piece_or_target() {
    let mut board = Board::with_starting_position();
    assert!(!board.move_piece(at(4, 4), at(4, 5)));
    assert!(!board.move_piece(at(1, 2), at(1, 9)));
    assert!(board.get_piece(at(1, 2)).is_some());
    assert!(!board.move_piece(at(0, 0), at(1, 3)));
}

#[test]
fn move_piece_moves_and_flips_flag() {
    let mut board = Board::with_starting_position();
    assert!(board.move_piece(at(5, 2), at(5, 4)));
    assert!(board.get_piece(at(5, 2)).is_none());
    let pawn = board.get_piece(at(5, 4)).unwrap();
    assert_eq!(pawn.piece_type, PieceType::Pawn { moved: true });
    assert_eq!(pawn.coordinates, at(5, 4));
}

#[test]
fn move_piece_captures() {
    let mut board = Board::with_starting_position();
    assert!(board.move_piece(at(4, 2), at(4, 4)));
    assert!(board.move_piece(at(5, 7), at(5, 5)));
    assert!(board.move_piece(at(4, 4), at(5, 5)));
    let pawn = board.get_piece(at(5, 5)).unwrap();
    assert_eq!(pawn.piece_color, PieceColor::White);
    assert!(board.get_piece(at(4, 4)).is_none());
}

#[test]
fn remove_piece_clears_the_field() {
    let mut board = Board::with_starting_position();
    let removed = board.remove_piece(at(1, 1)).unwrap();
    assert_eq!(removed.piece_type, PieceType::Rook { moved: false });
    assert!(board.get_piece(at(1, 1)).is_none());
    assert!(board.remove_piece(at(1, 1)).is_none());
    assert!(board.remove_piece(at(42, -3)).is_none());
}

#[test]
fn king_cache_follows_the_king() {
    let mut board = Board::with_starting_position();
    board.remove_piece(at(5, 2));
    assert!(board.move_piece(at(5, 1), at(5, 2)));
    assert_eq!(board.white_king_pos, at(5, 2));
    let king = board.get_piece(at(5, 2)).unwrap();
    assert_eq!(king.piece_type, PieceType::King { moved: true });
}

#[test]
fn to_fen_of_starting_position() {
    let board = Board::with_starting_position();
    assert_eq!(
        board.to_fen(),
        "rnbqkbnr/pppppppp/8/8/8/8/PPPPPPPP/RNBQKBNR b - - 0 1".to_string()
    );
}

#[test]
fn to_fen_counts_black_moves() {
    let mut board = Board::with_starting_position();
    assert!(board.move_piece(at(5, 2), at(5, 4)));
    assert!(board.move_piece(at(5, 7), at(5, 5)));
    assert_eq!(
        board.to_fen(),
        "rnbqkbnr/pppp1ppp/8/4p3/4P3/8/PPPP1PPP/RNBQKBNR b - - 0 2".to_string()
    );
}

#[test]
fn entity_accessors_round_trip() {
    let mut board = Board::with_starting_position();
    board.set_field_entity(at(3, 3), 77);
    assert_eq!(board.get_field_entity(at(3, 3)), Some(77));
    assert_eq!(board.get_field_entity(at(0, 3)), None);

    assert_eq!(board.get_piece_entity(at(1, 1)), None);
    board.set_piece_entity(at(1, 1), 5);
    assert_eq!(board.get_piece_entity(at(1, 1)), Some(5));
    assert_eq!(board.get_piece_entity(at(4, 4)), None);
}

#[test]
fn snapshot_is_independent() {
    let board = Board::with_starting_position();
    let mut copy = board.snapshot();
    assert!(copy.move_piece(at(5, 2), at(5, 4)));
    assert!(board.get_piece(at(5, 2)).is_some());
    assert!(copy.get_piece(at(5, 2)).is_none());
}

#[test]
fn to_fen_of_empty_board() {
    let board = Board::empty();
    assert_eq!(board.to_fen(), "8/8/8/8/8/8/8/8 b - - 0 1".to_string());
}

#[test]
fn castling_request_outside_a_corner_fails() {
    // An unmoved king aimed at an unmoved rook of its own color is read as a
    // castling request, and a request at anything but a corner fails and
    // changes nothing.
    let mut board = Board::empty();
    let king_at = at(5, 1);
    let rook_at = at(4, 4);
    board.place_piece(
        king_at,
        Some(Piece::new(PieceType::King { moved: false }, PieceColor::White, king_at)),
    );
    board.place_piece(
        rook_at,
        Some(Piece::new(PieceType::Rook { moved: false }, PieceColor::White, rook_at)),
    );
    assert!(!board.move_piece(king_at, rook_at));
    assert!(board.get_piece(king_at).is_some());
    assert_eq!(
        board.get_piece(rook_at).unwrap().piece_type,
        PieceType::Rook { moved: false }
    );
}

#[test]
fn place_piece_populates_a_field() {
    let mut board = Board::empty();
    let c = at(4, 4);
    board.place_piece(c, Some(Piece::new(PieceType::Queen, PieceColor::White, c)));
    let queen = board.get_piece(c).unwrap();
    assert_eq!(queen.piece_type, PieceType::Queen);
    board.place_piece(c, None);
    assert!(board.get_piece(c).is_none());
}
