//! The sprite catalogue: which image file shows which piece. The surrounding
//! application loads the files and renders them; the engine side owns the
//! association from a piece to its image path, plain and bordered — the
//! bordered one marks the selected piece.

use crate::chess_pieces::{Piece, PieceColor, PieceType};
use vstd::prelude::*;
use vstd::string::StringExecFns;

verus! {

/// The image path of a White piece of kind `t`; `bordered` names the
/// variant drawn for a selected piece.
pub open spec fn white_sprite(t: PieceType, bordered: bool) -> Seq<char> {
    match t {
        PieceType::King { .. } => if bordered {
            "128px/w_king_bordered.png"@
        } else {
            "128px/w_king_png_shadow_128px.png"@
        },
        PieceType::Queen => if bordered {
            "128px/w_queen_bordered.png"@
        } else {
            "128px/w_queen_png_shadow_128px.png"@
        },
        PieceType::Rook { .. } => if bordered {
            "128px/w_rook_bordered.png"@
        } else {
            "128px/w_rook_png_shadow_128px.png"@
        },
        PieceType::Bishop => if bordered {
            "128px/w_bishop_bordered.png"@
        } else {
            "128px/w_bishop_png_shadow_128px.png"@
        },
        PieceType::Knight => if bordered {
            "128px/w_knight_bordered.png"@
        } else {
            "128px/w_knight_png_shadow_128px.png"@
        },
        PieceType::Pawn { .. } => if bordered {
            "128px/w_pawn_bordered.png"@
        } else {
            "128px/w_pawn_png_shadow_128px.png"@
        },
    }
}

/// The image path of a Black piece of kind `t`.
pub open spec fn black_sprite(t: PieceType, bordered: bool) -> Seq<char> {
    match t {
        PieceType::King { .. } => if bordered {
            "128px/b_king_bordered.png"@
        } else {
            "128px/b_king_png_shadow_128px.png"@
        },
        PieceType::Queen => if bordered {
            "128px/b_queen_bordered.png"@
        } else {
            "128px/b_queen_png_shadow_128px.png"@
        },
        PieceType::Rook { .. } => if bordered {
            "128px/b_rook_bordered.png"@
        } else {
            "128px/b_rook_png_shadow_128px.png"@
        },
        PieceType::Bishop => if bordered {
            "128px/b_bishop_bordered.png"@
        } else {
            "128px/b_bishop_png_shadow_128px.png"@
        },
        PieceType::Knight => if bordered {
            "128px/b_knight_bordered.png"@
        } else {
            "128px/b_knight_png_shadow_128px.png"@
        },
        PieceType::Pawn { .. } => if bordered {
            "128px/b_pawn_bordered.png"@
        } else {
            "128px/b_pawn_png_shadow_128px.png"@
        },
    }
}

/// The image path of a piece of `color` and kind `t`.
pub open spec fn sprite_for(color: PieceColor, t: PieceType, bordered: bool) -> Seq<char> {
    if color == PieceColor::White {
        white_sprite(t, bordered)
    } else {
        black_sprite(t, bordered)
    }
}

/// The image path of `piece`, by its color and kind.
pub open spec fn sprite_of(piece: Piece, bordered: bool) -> Seq<char> {
    sprite_for(piece.piece_color, piece.piece_type, bordered)
}

/// The first image pair that an association list maps `t` to.
pub open spec fn image_lookup(s: Seq<(PieceType, (String, String))>, t: PieceType) -> Option<
    (String, String),
>
    decreases s.len(),
{
    if s.len() == 0 {
        None
    } else if s[0].0 == t {
        Some(s[0].1)
    } else {
        image_lookup(s.drop_first(), t)
    }
}

/// A marker for the turn-indicator text; the surrounding application
/// attaches it to the text object whose color it animates.
#[derive(Default, Debug)]
pub struct ColorText;

/// The sprite catalogue: one plain and one bordered image path per piece
/// kind and color, and a fallback image for anything unmapped.
pub struct GameTextures {
    pub white_images_map: Vec<(PieceType, (String, String))>,
    pub black_images_map: Vec<(PieceType, (String, String))>,
    pub error_image: String,
}

/// An owned copy of `lit`.
fn string_of(lit: &str) -> (r: String)
    ensures
        r@ == lit@,
{
    let mut r = String::new();
    r.append(lit);
    r
}

/// Whether an association list maps every piece kind to its standard image
/// pair for `color`.
pub open spec fn complete_map(s: Seq<(PieceType, (String, String))>, color: PieceColor) -> bool {
    forall|t: PieceType|
        match #[trigger] image_lookup(s, t) {
            Some(pair) => pair.0@ == sprite_for(color, t, false) && pair.1@ == sprite_for(
                color,
                t,
                true,
            ),
            None => false,
        }
}

impl GameTextures {
    /// The catalogue with the standard piece images — every kind of either
    /// color mapped, "has moved" flags notwithstanding — and the fallback
    /// image.
    pub fn new() -> (t: GameTextures)
        ensures
            complete_map(t.white_images_map@, PieceColor::White),
            complete_map(t.black_images_map@, PieceColor::Black),
            t.error_image@ == "ronaldo.png"@,
    {
        let mut white: Vec<(PieceType, (String, String))> = Vec::new();
        white.push(
            (
                PieceType::Pawn { moved: false },
                (
                    string_of("128px/w_pawn_png_shadow_128px.png"),
                    string_of("128px/w_pawn_bordered.png"),
                ),
            ),
        );
        white.push(
            (
                PieceType::Pawn { moved: true },
                (
                    string_of("128px/w_pawn_png_shadow_128px.png"),
                    string_of("128px/w_pawn_bordered.png"),
                ),
            ),
        );
        white.push(
            (
                PieceType::Rook { moved: false },
                (
                    string_of("128px/w_rook_png_shadow_128px.png"),
                    string_of("128px/w_rook_bordered.png"),
                ),
            ),
        );
        white.push(
            (
                PieceType::Rook { moved: true },
                (
                    string_of("128px/w_rook_png_shadow_128px.png"),
                    string_of("128px/w_rook_bordered.png"),
                ),
            ),
        );
        white.push(
            (
                PieceType::King { moved: false },
                (
                    string_of("128px/w_king_png_shadow_128px.png"),
                    string_of("128px/w_king_bordered.png"),
                ),
            ),
        );
        white.push(
            (
                PieceType::King { moved: true },
                (
                    string_of("128px/w_king_png_shadow_128px.png"),
                    string_of("128px/w_king_bordered.png"),
                ),
            ),
        );
        white.push(
            (
                PieceType::Queen,
                (
                    string_of("128px/w_queen_png_shadow_128px.png"),
                    string_of("128px/w_queen_bordered.png"),
                ),
            ),
        );
        white.push(
            (
                PieceType::Bishop,
                (
                    string_of("128px/w_bishop_png_shadow_128px.png"),
                    string_of("128px/w_bishop_bordered.png"),
                ),
            ),
        );
        white.push(
            (
                PieceType::Knight,
                (
                    string_of("128px/w_knight_png_shadow_128px.png"),
                    string_of("128px/w_knight_bordered.png"),
                ),
            ),
        );

        let mut black: Vec<(PieceType, (String, String))> = Vec::new();
        black.push(
            (
                PieceType::Pawn { moved: false },
                (
                    string_of("128px/b_pawn_png_shadow_128px.png"),
                    string_of("128px/b_pawn_bordered.png"),
                ),
            ),
        );
        black.push(
            (
                PieceType::Pawn { moved: true },
                (
                    string_of("128px/b_pawn_png_shadow_128px.png"),
                    string_of("128px/b_pawn_bordered.png"),
                ),
            ),
        );
        black.push(
            (
                PieceType::Rook { moved: false },
                (
                    string_of("128px/b_rook_png_shadow_128px.png"),
                    string_of("128px/b_rook_bordered.png"),
                ),
            ),
        );
        black.push(
            (
                PieceType::Rook { moved: true },
                (
                    string_of("128px/b_rook_png_shadow_128px.png"),
                    string_of("128px/b_rook_bordered.png"),
                ),
            ),
        );
        black.push(
            (
                PieceType::King { moved: false },
                (
                    string_of("128px/b_king_png_shadow_128px.png"),
                    string_of("128px/b_king_bordered.png"),
                ),
            ),
        );
        black.push(
            (
                PieceType::King { moved: true },
                (
                    string_of("128px/b_king_png_shadow_128px.png"),
                    string_of("128px/b_king_bordered.png"),
                ),
            ),
        );
        black.push(
            (
                PieceType::Queen,
                (
                    string_of("128px/b_queen_png_shadow_128px.png"),
                    string_of("128px/b_queen_bordered.png"),
                ),
            ),
        );
        black.push(
            (
                PieceType::Bishop,
                (
                    string_of("128px/b_bishop_png_shadow_128px.png"),
                    string_of("128px/b_bishop_bordered.png"),
                ),
            ),
        );
        black.push(
            (
                PieceType::Knight,
                (
                    string_of("128px/b_knight_png_shadow_128px.png"),
                    string_of("128px/b_knight_bordered.png"),
                ),
            ),
        );

        let t = GameTextures {
            white_images_map: white,
            black_images_map: black,
            error_image: string_of("ronaldo.png"),
        };
        proof {
            assert forall|pt: PieceType|
                match #[trigger] image_lookup(t.white_images_map@, pt) {
                    Some(pair) => pair.0@ == sprite_for(PieceColor::White, pt, false) && pair.1@
                        == sprite_for(PieceColor::White, pt, true),
                    None => false,
                } by {
                reveal_with_fuel(image_lookup, 11);
            }
            assert forall|pt: PieceType|
                match #[trigger] image_lookup(t.black_images_map@, pt) {
                    Some(pair) => pair.0@ == sprite_for(PieceColor::Black, pt, false) && pair.1@
                        == sprite_for(PieceColor::Black, pt, true),
                    None => false,
                } by {
                reveal_with_fuel(image_lookup, 11);
            }
        }
        t
    }
}

/// The image to draw for `piece`, from the catalogue: the bordered variant
/// when `bordered` marks the piece as selected, and the fallback image for a
/// piece the catalogue does not map.
pub fn get_image(piece: &Piece, bordered: bool, game_textures: &GameTextures) -> (r: String)
    ensures
        r@ == match image_lookup(
            if piece.piece_color == PieceColor::White {
                game_textures.white_images_map@
            } else {
                game_textures.black_images_map@
            },
            piece.piece_type,
        ) {
            Some(pair) => if bordered {
                pair.1@
            } else {
                pair.0@
            },
            None => game_textures.error_image@,
        },
{
    let map = if piece.piece_color == PieceColor::White {
        &game_textures.white_images_map
    } else {
        &game_textures.black_images_map
    };
    proof {
        assert(map@.skip(0) =~= map@);
    }
    let mut i: usize = 0;
    while i < map.len()
        invariant
            i <= map@.len(),
            map@ == if piece.piece_color == PieceColor::White {
                game_textures.white_images_map@
            } else {
                game_textures.black_images_map@
            },
            image_lookup(map@, piece.piece_type) == image_lookup(
                map@.skip(i as int),
                piece.piece_type,
            ),
        decreases map@.len() - i,
    {
        proof {
            assert(map@.skip(i as int)[0] == map@[i as int]);
        }
        if map[i].0 == piece.piece_type {
            proof {
                assert(image_lookup(map@, piece.piece_type) == Some(map@[i as int].1));
            }
            let pair = &map[i].1;
            return if bordered {
                pair.1.clone()
            } else {
                pair.0.clone()
            };
        }
        proof {
            assert(map@.skip(i as int).drop_first() =~= map@.skip(i as int + 1));
        }
        i = i + 1;
    }
    game_textures.error_image.clone()
}

} // verus!
