use chess_masters::board::Board;
use chess_masters::chess_pieces::{Piece, PieceColor, PieceType};
use chess_masters::coordinates::Coordinates;
use chess_masters::moves::get_possible_moves;

fn at(x: i32, y: i32) -> Coordinates {
    Coordinates { x, y }
}

fn put(board: &mut Board, x: i32, y: i32, t: PieceType, color: PieceColor) {
    let c = at(x, y);
    board.place_piece(c, Some(Piece::new(t, color, c)));
}

fn same_set(a: &Vec<Coordinates>, b: &Vec<Coordinates>) -> bool {
    a.iter().all(|c| b.contains(c)) && b.iter().all(|c| a.contains(c))
}

#[test]
fn pawn_moves_from_start() {
    let board = Board::with_starting_position();
    let pawn = *board.get_piece(at(5, 2)).unwrap();
    let moves = get_possible_moves(&pawn, &board, true);
    assert!(same_set(&moves, &vec![at(5, 3), at(5, 4)]));
}

#[test]
fn pawn_capture_moves() {
    let mut board = Board::empty();
    put(&mut board, 4, 4, PieceType::Pawn { moved: true }, PieceColor::White);
    put(&mut board, 3, 5, PieceType::Pawn { moved: true }, PieceColor::Black);
    put(&mut board, 5, 5, PieceType::Pawn { moved: true }, PieceColor::Black);
    let pawn = *board.get_piece(at(4, 4)).unwrap();
    let moves = get_possible_moves(&pawn, &board, false);
    assert!(same_set(&moves, &vec![at(4, 5), at(3, 5), at(5, 5)]));
}

#[test]
fn pawn_double_step_needs_both_fields_empty() {
    let mut board = Board::with_starting_position();
    put(&mut board, 5, 4, PieceType::Knight, PieceColor::Black);
    let pawn = *board.get_piece(at(5, 2)).unwrap();
    let moves = get_possible_moves(&pawn, &board, false);
    assert!(same_set(&moves, &vec![at(5, 3)]));

    put(&mut board, 5, 3, PieceType::Knight, PieceColor::Black);
    let blocked = get_possible_moves(&pawn, &board, false);
    assert!(blocked.is_empty());
}

#[test]
fn knight_moves_from_start() {
    let board = Board::with_starting_position();
    let knight = *board.get_piece(at(2, 1)).unwrap();
    let moves = get_possible_moves(&knight, &board, true);
    assert!(same_set(&moves, &vec![at(1, 3), at(3, 3)]));
}

#[test]
fn rook_moves_stop_at_pieces() {
    let mut board = Board::empty();
    put(&mut board, 1, 1, PieceType::Rook { moved: false }, PieceColor::White);
    put(&mut board, 1, 3, PieceType::Pawn { moved: false }, PieceColor::White);
    put(&mut board, 4, 1, PieceType::Pawn { moved: false }, PieceColor::Black);
    let rook = *board.get_piece(at(1, 1)).unwrap();
    let moves = get_possible_moves(&rook, &board, false);
    assert!(same_set(&moves, &vec![at(1, 2), at(2, 1), at(3, 1), at(4, 1)]));
}

#[test]
fn queen_moves_on_open_board() {
    let mut board = Board::empty();
    put(&mut board, 4, 4, PieceType::Queen, PieceColor::White);
    let queen = *board.get_piece(at(4, 4)).unwrap();
    let moves = get_possible_moves(&queen, &board, false);
    assert_eq!(moves.len(), 27);
    assert!(moves.contains(&at(4, 8)));
    assert!(moves.contains(&at(8, 4)));
    assert!(moves.contains(&at(1, 1)));
    assert!(moves.contains(&at(8, 8)));
    assert!(moves.contains(&at(1, 7)));
    assert!(moves.contains(&at(7, 1)));
    assert!(!moves.contains(&at(4, 4)));
}

#[test]
fn king_moves_on_open_board() {
    let mut board = Board::empty();
    put(&mut board, 4, 4, PieceType::King { moved: true }, PieceColor::White);
    board.white_king_pos = at(4, 4);
    let king = *board.get_piece(at(4, 4)).unwrap();
    let moves = get_possible_moves(&king, &board, false);
    assert_eq!(moves.len(), 8);
    for c in vec![
        at(3, 3),
        at(3, 4),
        at(3, 5),
        at(4, 3),
        at(4, 5),
        at(5, 3),
        at(5, 4),
        at(5, 5),
    ] {
        assert!(moves.contains(&c));
    }
}

#[test]
fn possible_moves_query_is_idempotent() {
    let board = Board::with_starting_position();
    for &c in &[at(2, 1), at(5, 2), at(1, 1), at(5, 1)] {
        let piece = *board.get_piece(c).unwrap();
        let first = get_possible_moves(&piece, &board, true);
        let second = get_possible_moves(&piece, &board, true);
        assert!(same_set(&first, &second));
    }
}

#[test]
fn pinned_rook_may_not_leave_the_file() {
    let mut board = Board::empty();
    put(&mut board, 5, 1, PieceType::King { moved: true }, PieceColor::White);
    put(&mut board, 5, 2, PieceType::Rook { moved: true }, PieceColor::White);
    put(&mut board, 5, 8, PieceType::Rook { moved: true }, PieceColor::Black);
    board.white_king_pos = at(5, 1);
    let rook = *board.get_piece(at(5, 2)).unwrap();

    let unfiltered = get_possible_moves(&rook, &board, false);
    assert!(unfiltered.contains(&at(1, 2)));

    let filtered = get_possible_moves(&rook, &board, true);
    assert!(!filtered.contains(&at(1, 2)));
    assert!(filtered.contains(&at(5, 3)));
    assert!(filtered.contains(&at(5, 8)));
}
