use chess_masters::audio::load_audio;
use chess_masters::bot::extract_coordinates_from_move;
use chess_masters::chess_pieces::{Piece, PieceColor, PieceType};
use chess_masters::coordinates::Coordinates;
use chess_masters::field::{Field, FieldColor};
use chess_masters::ui::{get_image, ColorText, GameTextures};
use chess_masters::board::Board;
use chess_masters::user_input::{
    castle_destinations, check_if_piece_already_moved, field_click_action, handle_pawn_promotion,
    promote_pawn, ClickAction,
};

fn at(x: i32, y: i32) -> Coordinates {
    Coordinates { x, y }
}

#[test]
fn coordinates_bounds_check() {
    assert!(at(1, 1).in_board_bounds());
    assert!(at(8, 8).in_board_bounds());
    assert!(!at(0, 4).in_board_bounds());
    assert!(!at(4, 0).in_board_bounds());
    assert!(!at(9, 4).in_board_bounds());
    assert!(!at(4, 9).in_board_bounds());
    let c = at(3, 4).offset(2, -1);
    assert_eq!(c, at(5, 3));
}

#[test]
fn piece_basics() {
    let mut piece = Piece::new(PieceType::Knight, PieceColor::White, at(2, 1));
    assert_eq!(piece.get_type(), "Knight");
    assert_eq!(piece.get_entity(), None);
    piece.set_entity(12);
    assert_eq!(piece.get_entity(), Some(12));
    assert_eq!(piece.fen_char(), 'N');

    let pawn = Piece::new(PieceType::Pawn { moved: false }, PieceColor::Black, at(1, 7));
    assert_eq!(pawn.get_type(), "Pawn");
    assert_eq!(pawn.fen_char(), 'p');

    let king = Piece::new(PieceType::King { moved: true }, PieceColor::White, at(5, 1));
    assert_eq!(king.fen_char(), 'K');
}

#[test]
fn field_holds_its_parts() {
    let piece = Piece::new(PieceType::Queen, PieceColor::Black, at(4, 8));
    let field = Field::new(9, at(4, 8), FieldColor::White, Some(piece));
    assert_eq!(field.entity, 9);
    assert_eq!(field.coordinates, at(4, 8));
    assert_eq!(field.color, FieldColor::White);
    assert_eq!(field.piece.unwrap().piece_type, PieceType::Queen);
}

#[test]
fn extract_coordinates_from_engine_text() {
    let (from, to) = extract_coordinates_from_move("e2e4".to_string());
    assert_eq!(from, at(5, 2));
    assert_eq!(to, at(5, 4));

    let (from, to) = extract_coordinates_from_move("a1h8".to_string());
    assert_eq!(from, at(1, 1));
    assert_eq!(to, at(8, 8));
}

#[test]
fn castle_destinations_by_distance() {
    let (king_to, rook_to) = castle_destinations(at(5, 1), at(1, 1));
    assert_eq!(king_to, at(3, 1));
    assert_eq!(rook_to, at(4, 1));

    let (king_to, rook_to) = castle_destinations(at(5, 8), at(8, 8));
    assert_eq!(king_to, at(7, 8));
    assert_eq!(rook_to, at(6, 8));
}

#[test]
fn moved_flags_flip_once() {
    let mut pawn = Piece::new(PieceType::Pawn { moved: false }, PieceColor::White, at(1, 2));
    check_if_piece_already_moved(&mut pawn);
    assert_eq!(pawn.piece_type, PieceType::Pawn { moved: true });

    let mut knight = Piece::new(PieceType::Knight, PieceColor::White, at(2, 1));
    check_if_piece_already_moved(&mut knight);
    assert_eq!(knight.piece_type, PieceType::Knight);

    let mut rook = Piece::new(PieceType::Rook { moved: false }, PieceColor::Black, at(1, 8));
    check_if_piece_already_moved(&mut rook);
    assert_eq!(rook.piece_type, PieceType::Rook { moved: true });
}

#[test]
fn pawn_promotion_rules() {
    let mut pawn = Piece::new(PieceType::Pawn { moved: true }, PieceColor::White, at(3, 7));
    handle_pawn_promotion(&mut pawn, at(3, 8));
    assert_eq!(pawn.piece_type, PieceType::Queen);

    let mut early = Piece::new(PieceType::Pawn { moved: true }, PieceColor::White, at(3, 4));
    handle_pawn_promotion(&mut early, at(3, 5));
    assert_eq!(early.piece_type, PieceType::Pawn { moved: true });

    let mut black = Piece::new(PieceType::Pawn { moved: true }, PieceColor::Black, at(6, 2));
    handle_pawn_promotion(&mut black, at(6, 1));
    assert_eq!(black.piece_type, PieceType::Queen);

    let mut forced = Piece::new(PieceType::Pawn { moved: true }, PieceColor::Black, at(6, 2));
    promote_pawn(&mut forced);
    assert_eq!(forced.piece_type, PieceType::Queen);
}

#[test]
fn sprite_catalogue_paths() {
    let textures = GameTextures::new();
    let pawn = Piece::new(PieceType::Pawn { moved: false }, PieceColor::White, at(1, 2));
    assert_eq!(
        get_image(&pawn, false, &textures),
        "128px/w_pawn_png_shadow_128px.png".to_string()
    );
    assert_eq!(
        get_image(&pawn, true, &textures),
        "128px/w_pawn_bordered.png".to_string()
    );
    let king = Piece::new(PieceType::King { moved: true }, PieceColor::Black, at(5, 8));
    assert_eq!(
        get_image(&king, false, &textures),
        "128px/b_king_png_shadow_128px.png".to_string()
    );
    assert_eq!(textures.error_image, "ronaldo.png".to_string());
    let _marker = ColorText::default();
}

#[test]
fn clicks_select_move_and_unselect() {
    let board = Board::with_starting_position();

    // Nothing selected: clicking an own piece selects it, anything else is
    // ignored.
    assert_eq!(
        field_click_action(&board, true, None, at(2, 1)),
        ClickAction::SelectPiece { at: at(2, 1) }
    );
    assert_eq!(
        field_click_action(&board, true, None, at(2, 8)),
        ClickAction::Ignore
    );
    assert_eq!(
        field_click_action(&board, true, None, at(4, 4)),
        ClickAction::Ignore
    );

    // With the knight selected: clicking it again unselects, a legal target
    // moves, an illegal one is ignored, another own piece takes over the
    // selection.
    let knight = Some(at(2, 1));
    assert_eq!(
        field_click_action(&board, true, knight, at(2, 1)),
        ClickAction::UnselectPiece
    );
    assert_eq!(
        field_click_action(&board, true, knight, at(3, 3)),
        ClickAction::MovePiece { from: at(2, 1), to: at(3, 3) }
    );
    assert_eq!(
        field_click_action(&board, true, knight, at(4, 4)),
        ClickAction::Ignore
    );
    assert_eq!(
        field_click_action(&board, true, knight, at(5, 2)),
        ClickAction::SelectPiece { at: at(5, 2) }
    );
}

#[test]
fn clicking_the_rook_with_the_king_selected_castles() {
    let mut board = Board::with_starting_position();
    board.remove_piece(at(2, 1));
    board.remove_piece(at(3, 1));
    board.remove_piece(at(4, 1));
    assert_eq!(
        field_click_action(&board, true, Some(at(5, 1)), at(1, 1)),
        ClickAction::Castle { king: at(5, 1), rook: at(1, 1) }
    );
    // The kingside rook is still boxed in: clicking it only reselects.
    assert_eq!(
        field_click_action(&board, true, Some(at(5, 1)), at(8, 1)),
        ClickAction::SelectPiece { at: at(8, 1) }
    );
}

#[test]
fn background_track_is_loaded() {
    let audio = load_audio();
    assert_eq!(audio.background_handle, "background_music.wav".to_string());
}
