//! Move generation: one family of functions per piece kind, producing
//! candidate destinations for a piece on a board snapshot, and the
//! check-filtered "legal moves" entry point.
//!
//! Check detection asks for unfiltered (pseudo-legal) candidates, while only
//! the top-level legality query filters out moves that would leave the moving
//! side's own king in check; that asymmetry is what lets the mutual recursion
//! between the two terminate.

use crate::board::{Board, BoardModel};
use crate::chess_pieces::{Piece, PieceColor, PieceType};
use crate::coordinates::{xy_in_bounds, Coordinates};
use vstd::prelude::*;

verus! {

/// Whether a king or knight may step onto `c`: the square is on the board and
/// does not hold a piece of the mover's own color.
pub open spec fn step_ok(m: BoardModel, color: PieceColor, c: Coordinates) -> bool {
    c.spec_in_bounds() && !(m.piece_at(c) matches Some(q) && q.piece_color == color)
}

/// Whether a pawn of `p`'s color standing at `p.coordinates` may move to `c`:
/// one square forward onto an empty field, two squares forward when the pawn
/// has not moved and both fields are empty, or one square diagonally forward
/// onto an enemy piece.
pub open spec fn pawn_candidate(m: BoardModel, p: Piece, c: Coordinates) -> bool {
    let x = p.coordinates.x as int;
    let y = p.coordinates.y as int;
    let d: int = if p.piece_color == PieceColor::White {
        1
    } else {
        -1
    };
    ||| (c.x == x && c.y == y + d && c.spec_in_bounds() && m.piece_at(c) is None)
    ||| (c.x == x && c.y == y + 2 * d && p.piece_type == (PieceType::Pawn { moved: false })
        && xy_in_bounds(x, y + d) && m.piece_at_xy(x, y + d) is None && c.spec_in_bounds()
        && m.piece_at(c) is None)
    ||| ((c.x == x - 1 || c.x == x + 1) && c.y == y + d && (m.piece_at(c) matches Some(q)
        && q.piece_color != p.piece_color))
}

/// Whether a knight standing at `p.coordinates` may move to `c`.
pub open spec fn knight_candidate(m: BoardModel, p: Piece, c: Coordinates) -> bool {
    let x = p.coordinates.x as int;
    let y = p.coordinates.y as int;
    &&& (((c.x == x + 1 || c.x == x - 1) && (c.y == y + 2 || c.y == y - 2)) || ((c.x == x + 2
        || c.x == x - 2) && (c.y == y + 1 || c.y == y - 1)))
    &&& step_ok(m, p.piece_color, c)
}

/// Whether a king standing at `p.coordinates` may step to the adjacent
/// square `c`; castling is not part of this.
pub open spec fn king_base_candidate(m: BoardModel, p: Piece, c: Coordinates) -> bool {
    let x = p.coordinates.x as int;
    let y = p.coordinates.y as int;
    &&& x - 1 <= c.x <= x + 1
    &&& y - 1 <= c.y <= y + 1
    &&& !(c.x == x && c.y == y)
    &&& step_ok(m, p.piece_color, c)
}

/// Whether the ray that starts one step of `(dx, dy)` beyond `(x, y)` reaches
/// `c`: the ray walks on-board squares, passes empty ones, and stops on the
/// first occupied one, which it reaches only when the occupant is not of the
/// mover's own color.
pub open spec fn ray_reaches(
    m: BoardModel,
    color: PieceColor,
    x: int,
    y: int,
    dx: int,
    dy: int,
    c: Coordinates,
) -> bool
    decreases (if dx > 0 {
        8 - x
    } else if dx < 0 {
        x - 1
    } else if dy > 0 {
        8 - y
    } else {
        y - 1
    }),
{
    if dx == 0 && dy == 0 {
        false
    } else {
        let nx = x + dx;
        let ny = y + dy;
        if !xy_in_bounds(nx, ny) {
            false
        } else if c.x == nx && c.y == ny {
            !(m.piece_at_xy(nx, ny) matches Some(q) && q.piece_color == color)
        } else if m.piece_at_xy(nx, ny) is Some {
            false
        } else {
            ray_reaches(m, color, nx, ny, dx, dy, c)
        }
    }
}

/// Whether the piece `p` may slide to `c` in direction `(dx, dy)`.
pub open spec fn dir_candidate(m: BoardModel, p: Piece, dx: int, dy: int, c: Coordinates) -> bool {
    ray_reaches(m, p.piece_color, p.coordinates.x as int, p.coordinates.y as int, dx, dy, c)
}

/// Whether a rook standing at `p.coordinates` may move to `c`: a slide along
/// one of the four orthogonal directions.
pub open spec fn rook_candidate(m: BoardModel, p: Piece, c: Coordinates) -> bool {
    ||| dir_candidate(m, p, 0, 1, c)
    ||| dir_candidate(m, p, 1, 0, c)
    ||| dir_candidate(m, p, 0, -1, c)
    ||| dir_candidate(m, p, -1, 0, c)
}

/// Whether a bishop standing at `p.coordinates` may move to `c`: a slide
/// along one of the four diagonal directions.
pub open spec fn bishop_candidate(m: BoardModel, p: Piece, c: Coordinates) -> bool {
    ||| dir_candidate(m, p, 1, 1, c)
    ||| dir_candidate(m, p, -1, 1, c)
    ||| dir_candidate(m, p, 1, -1, c)
    ||| dir_candidate(m, p, -1, -1, c)
}

/// Whether an unmoved rook of `color` stands at `rc`.
pub open spec fn rook_ok(m: BoardModel, color: PieceColor, rc: Coordinates) -> bool {
    m.piece_at(rc) matches Some(r) && r.piece_color == color && r.piece_type == (PieceType::Rook {
        moved: false,
    })
}

/// Whether an unmoved king of `color` may castle towards the rook corner `c`:
/// an unmoved rook of its own color stands there, the fields between the
/// king's and the rook's home squares are empty, the king is not in check,
/// and the square the king passes over is not attacked.
pub open spec fn castle_candidate(m: BoardModel, color: PieceColor, c: Coordinates) -> bool
    decreases 0int, 3int,
{
    let home: i32 = if color == PieceColor::Black {
        8
    } else {
        1
    };
    if c.y != home {
        false
    } else if c.x == 1 {
        rook_ok(m, color, c) && m.piece_at_xy(2, home as int) is None && m.piece_at_xy(
            3,
            home as int,
        ) is None && m.piece_at_xy(4, home as int) is None && !king_danger(m, color)
            && !field_danger(m, color, Coordinates { x: 4, y: home })
    } else if c.x == 8 {
        rook_ok(m, color, c) && m.piece_at_xy(6, home as int) is None && m.piece_at_xy(
            7,
            home as int,
        ) is None && !king_danger(m, color) && !field_danger(m, color, Coordinates {
            x: 6,
            y: home,
        })
    } else {
        false
    }
}

/// Whether some piece opposing `my_color` has `target` among its
/// pseudo-legal candidate moves. Check detection always asks for unfiltered
/// candidates: a pinned piece still delivers check.
pub open spec fn field_danger(m: BoardModel, my_color: PieceColor, target: Coordinates) -> bool
    decreases 0int, 1int,
{
    exists|x: int, y: int|
        (#[trigger] m.piece_at_xy(x, y)) matches Some(q) && q.piece_color != my_color && candidate(
            m,
            q,
            target,
            false,
        )
}

/// Whether `color`'s king square — as the board's cache records it — is
/// attacked by an opposing piece.
pub open spec fn king_danger(m: BoardModel, color: PieceColor) -> bool
    decreases 0int, 2int,
{
    field_danger(m, color, m.king_pos(color))
}

/// Whether `c` is a candidate destination for `p`: the piece-movement rules,
/// not yet filtered for leaving one's own king in check. Castling candidates
/// — encoded as the rook's own square — are offered only when
/// `include_castling` is set and the king has never moved.
pub open spec fn candidate(m: BoardModel, p: Piece, c: Coordinates, include_castling: bool) -> bool
    decreases (if include_castling {
        1int
    } else {
        0int
    }), 0int,
{
    match p.piece_type {
        PieceType::King { .. } => king_base_candidate(m, p, c) || (if include_castling {
            p.piece_type == (PieceType::King { moved: false }) && castle_candidate(
                m,
                p.piece_color,
                c,
            )
        } else {
            false
        }),
        PieceType::Queen => rook_candidate(m, p, c) || bishop_candidate(m, p, c),
        PieceType::Rook { .. } => rook_candidate(m, p, c),
        PieceType::Bishop => bishop_candidate(m, p, c),
        PieceType::Knight => knight_candidate(m, p, c),
        PieceType::Pawn { .. } => pawn_candidate(m, p, c),
    }
}

/// Whether applying `p`'s move to `c` would leave `p`'s own king in danger.
pub open spec fn danger_after(m: BoardModel, p: Piece, c: Coordinates) -> bool {
    king_danger(m.apply_move(p.coordinates, c), p.piece_color)
}

/// What `get_possible_moves` offers: a candidate destination, and, when
/// `filter_check` is set, one that does not leave the mover's own king in
/// check.
pub open spec fn possible_move(m: BoardModel, p: Piece, c: Coordinates, filter_check: bool) -> bool {
    candidate(m, p, c, filter_check) && (filter_check ==> !danger_after(m, p, c))
}

/// Whether `p` has any fully legal move on `m`.
pub open spec fn has_legal_move(m: BoardModel, p: Piece) -> bool {
    exists|c: Coordinates| possible_move(m, p, c, true)
}

/// Whether any piece of `color` has a fully legal move on `m`.
pub open spec fn exists_legal_move(m: BoardModel, color: PieceColor) -> bool {
    exists|x: int, y: int|
        (#[trigger] m.piece_at_xy(x, y)) matches Some(q) && q.piece_color == color
            && has_legal_move(m, q)
}

/// Reaching `c` along a ray pins `c` to the ray's quadrant: each coordinate
/// moved strictly in its direction's sign, or not at all where the direction
/// is zero.
proof fn lemma_ray_directional(
    m: BoardModel,
    color: PieceColor,
    x: int,
    y: int,
    dx: int,
    dy: int,
    c: Coordinates,
)
    requires
        ray_reaches(m, color, x, y, dx, dy, c),
    ensures
        dx > 0 ==> c.x > x,
        dx < 0 ==> c.x < x,
        dx == 0 ==> c.x == x,
        dy > 0 ==> c.y > y,
        dy < 0 ==> c.y < y,
        dy == 0 ==> c.y == y,
    decreases (if dx > 0 {
        8 - x
    } else if dx < 0 {
        x - 1
    } else if dy > 0 {
        8 - y
    } else {
        y - 1
    }),
{
    let nx = x + dx;
    let ny = y + dy;
    if !(c.x == nx && c.y == ny) {
        lemma_ray_directional(m, color, nx, ny, dx, dy, c);
    }
}

/// A square reached along a ray is on the board and free of pieces of the
/// mover's own color.
proof fn lemma_ray_props(
    m: BoardModel,
    color: PieceColor,
    x: int,
    y: int,
    dx: int,
    dy: int,
    c: Coordinates,
)
    requires
        ray_reaches(m, color, x, y, dx, dy, c),
    ensures
        c.spec_in_bounds(),
        !(m.piece_at(c) matches Some(q) && q.piece_color == color),
    decreases (if dx > 0 {
        8 - x
    } else if dx < 0 {
        x - 1
    } else if dy > 0 {
        8 - y
    } else {
        y - 1
    }),
{
    let nx = x + dx;
    let ny = y + dy;
    if !(c.x == nx && c.y == ny) {
        lemma_ray_props(m, color, nx, ny, dx, dy, c);
    }
}

/// Pushing onto a sequence adds exactly the pushed element to what it
/// contains.
proof fn lemma_contains_push<T>(s: Seq<T>, v: T, c: T)
    ensures
        s.push(v).contains(c) <==> (s.contains(c) || c == v),
{
    if s.push(v).contains(c) {
        let i = choose|i: int| 0 <= i < s.push(v).len() && s.push(v)[i] == c;
        if i < s.len() {
            assert(s[i] == c);
        } else {
            assert(c == v);
        }
    }
    if s.contains(c) {
        let i = choose|i: int| 0 <= i < s.len() && s[i] == c;
        assert(s.push(v)[i] == c);
    }
    if c == v {
        assert(s.push(v)[s.len() as int] == c);
    }
}

/// Whether `v` holds `c`.
pub fn contains_coord(v: &Vec<Coordinates>, c: Coordinates) -> (r: bool)
    ensures
        r == v@.contains(c),
{
    let mut i: usize = 0;
    while i < v.len()
        invariant
            i <= v@.len(),
            forall|k: int| 0 <= k < i ==> v@[k] != c,
        decreases v@.len() - i,
    {
        if v[i] == c {
            return true;
        }
        i = i + 1;
    }
    false
}

/// Querying the possible moves of a piece is deterministic: any two results
/// of `get_possible_moves` for the same piece, flag and unchanged board hold
/// the same set of destinations, whatever order they list them in.
pub proof fn lemma_possible_moves_deterministic(
    m: BoardModel,
    p: Piece,
    filter_check: bool,
    r1: Seq<Coordinates>,
    r2: Seq<Coordinates>,
)
    requires
        forall|c: Coordinates| #[trigger] r1.contains(c) <==> possible_move(m, p, c, filter_check),
        forall|c: Coordinates| #[trigger] r2.contains(c) <==> possible_move(m, p, c, filter_check),
    ensures
        r1.to_set() == r2.to_set(),
{
    assert forall|c: Coordinates| #[trigger] r1.to_set().contains(c) implies r2.to_set().contains(
        c,
    ) by {
        assert(r1.contains(c));
        assert(r2.contains(c));
    }
    assert forall|c: Coordinates| #[trigger] r2.to_set().contains(c) implies r1.to_set().contains(
        c,
    ) by {
        assert(r2.contains(c));
        assert(r1.contains(c));
    }
    assert(r1.to_set() =~= r2.to_set());
}

/// A candidate destination of a piece that stands on the board can always be
/// played: `move_piece` succeeds on it.
pub proof fn lemma_candidate_move_ok(m: BoardModel, p: Piece, c: Coordinates)
    requires
        m.wf(),
        m.piece_at(p.coordinates) == Some(p),
        candidate(m, p, c, true),
    ensures
        m.move_ok(p.coordinates, c),
{
    match p.piece_type {
        PieceType::King { .. } => {
            if king_base_candidate(m, p, c) {
                assert(!m.is_castle_request(p.coordinates, c));
            } else {
                assert(castle_candidate(m, p.piece_color, c));
                assert(m.is_castle_request(p.coordinates, c));
                assert(crate::board::is_corner(c));
                let kc = crate::board::castle_king_square(c);
                assert(m.piece_at(kc) is None);
                assert(!m.is_castle_request(p.coordinates, kc));
            }
        },
        PieceType::Queen => {
            lemma_slide_props(m, p, c);
        },
        PieceType::Rook { .. } => {
            lemma_slide_props(m, p, c);
        },
        PieceType::Bishop => {
            lemma_slide_props(m, p, c);
        },
        PieceType::Knight => {
            assert(!m.is_castle_request(p.coordinates, c));
        },
        PieceType::Pawn { .. } => {
            assert(!m.is_castle_request(p.coordinates, c));
        },
    }
}

/// A slide destination is on the board and free of the mover's own color.
proof fn lemma_slide_props(m: BoardModel, p: Piece, c: Coordinates)
    requires
        rook_candidate(m, p, c) || bishop_candidate(m, p, c),
    ensures
        c.spec_in_bounds(),
        !(m.piece_at(c) matches Some(q) && q.piece_color == p.piece_color),
{
    let x = p.coordinates.x as int;
    let y = p.coordinates.y as int;
    let color = p.piece_color;
    if ray_reaches(m, color, x, y, 0, 1, c) {
        lemma_ray_props(m, color, x, y, 0, 1, c);
    } else if ray_reaches(m, color, x, y, 1, 0, c) {
        lemma_ray_props(m, color, x, y, 1, 0, c);
    } else if ray_reaches(m, color, x, y, 0, -1, c) {
        lemma_ray_props(m, color, x, y, 0, -1, c);
    } else if ray_reaches(m, color, x, y, -1, 0, c) {
        lemma_ray_props(m, color, x, y, -1, 0, c);
    } else if ray_reaches(m, color, x, y, 1, 1, c) {
        lemma_ray_props(m, color, x, y, 1, 1, c);
    } else if ray_reaches(m, color, x, y, -1, 1, c) {
        lemma_ray_props(m, color, x, y, -1, 1, c);
    } else if ray_reaches(m, color, x, y, 1, -1, c) {
        lemma_ray_props(m, color, x, y, 1, -1, c);
    } else {
        lemma_ray_props(m, color, x, y, -1, -1, c);
    }
}

/// Whether `coords` is on-board, and empty or held by an enemy — the
/// acceptance test shared by king and knight steps.
fn ok_king_knight_move(coords: &Coordinates, board: &Board, color: PieceColor) -> (r: bool)
    requires
        board@.wf(),
    ensures
        r == step_ok(board@, color, *coords),
{
    if let Some(field) = board.get_field(*coords) {
        if let Some(some_piece) = &field.piece {
            some_piece.piece_color != color
        } else {
            true
        }
    } else {
        false
    }
}

/// Appends `dest` to `result` when the field at `dest` exists and is empty,
/// and reports whether it did.
fn add_if_empty(dest: Coordinates, board: &Board, result: &mut Vec<Coordinates>) -> (r: bool)
    requires
        board@.wf(),
    ensures
        r == (dest.spec_in_bounds() && board@.piece_at(dest) is None),
        r ==> final(result)@ == old(result)@.push(dest),
        !r ==> final(result)@ == old(result)@,
{
    if let Some(field) = board.get_field(dest) {
        if field.piece.is_none() {
            result.push(dest);
            return true;
        }
        return false;
    }
    return false;
}

/// Appends the pawn's forward moves in direction `dir`: one square onto an
/// empty field, and, for a pawn that has not moved, a second empty square
/// beyond it.
fn add_forward_moves(piece: &Piece, board: &Board, result: &mut Vec<Coordinates>, dir: i32)
    requires
        board@.wf(),
        piece.coordinates.spec_in_bounds(),
        dir == 1 || dir == -1,
    ensures
        forall|c: Coordinates|
            #[trigger] final(result)@.contains(c) <==> old(result)@.contains(c) || (c.x
                == piece.coordinates.x && c.y == piece.coordinates.y + dir && c.spec_in_bounds()
                && board@.piece_at(c) is None) || (c.x == piece.coordinates.x && c.y
                == piece.coordinates.y + 2 * dir && piece.piece_type == (PieceType::Pawn {
                moved: false,
            }) && xy_in_bounds(piece.coordinates.x as int, piece.coordinates.y + dir)
                && board@.piece_at_xy(piece.coordinates.x as int, piece.coordinates.y + dir)
                is None && c.spec_in_bounds() && board@.piece_at(c) is None),
{
    let ghost r0 = result@;
    let dest = Coordinates { x: piece.coordinates.x, y: piece.coordinates.y + dir };
    let first = add_if_empty(dest, board, result);
    proof {
        assert forall|c: Coordinates|
            #[trigger] result@.contains(c) <==> (r0.contains(c) || (first && c == dest)) by {
            if first {
                lemma_contains_push(r0, dest, c);
            }
        }
    }
    if first {
        if let PieceType::Pawn { moved } = piece.piece_type {
            if !moved {
                let ghost r1 = result@;
                let dest2 = dest.offset(0, dir);
                let second = add_if_empty(dest2, board, result);
                proof {
                    assert forall|c: Coordinates|
                        #[trigger] result@.contains(c) <==> (r1.contains(c) || (second && c
                            == dest2)) by {
                        if second {
                            lemma_contains_push(r1, dest2, c);
                        }
                    }
                }
            }
        }
    }
}

/// The candidate moves of the pawn `piece`: forward onto empty fields, one
/// square or — before its first move — two, and diagonal captures.
fn get_pawn_moves(piece: &Piece, board: &Board) -> (result: Vec<Coordinates>)
    requires
        board@.wf(),
        piece.coordinates.spec_in_bounds(),
    ensures
        forall|c: Coordinates|
            #[trigger] result@.contains(c) <==> pawn_candidate(board@, *piece, c),
{
    let mut result: Vec<Coordinates> = Vec::new();
    let dir: i32 = if piece.piece_color == PieceColor::White {
        1
    } else {
        -1
    };
    add_forward_moves(piece, board, &mut result, dir);

    let capture_left = Coordinates {
        x: piece.coordinates.x - 1,
        y: piece.coordinates.y + dir,
    };
    let capture_right = Coordinates {
        x: piece.coordinates.x + 1,
        y: piece.coordinates.y + dir,
    };
    let ghost r0 = result@;
    let mut pushed_left = false;
    if let Some(field) = board.get_field(capture_left) {
        if let Some(some_piece) = &field.piece {
            if some_piece.piece_color != piece.piece_color {
                result.push(capture_left);
                pushed_left = true;
            }
        }
    }
    proof {
        assert forall|c: Coordinates|
            #[trigger] result@.contains(c) <==> (r0.contains(c) || (pushed_left && c
                == capture_left)) by {
            if pushed_left {
                lemma_contains_push(r0, capture_left, c);
            }
        }
    }
    let ghost r1 = result@;
    let mut pushed_right = false;
    if let Some(field) = board.get_field(capture_right) {
        if let Some(some_piece) = &field.piece {
            if some_piece.piece_color != piece.piece_color {
                result.push(capture_right);
                pushed_right = true;
            }
        }
    }
    proof {
        assert forall|c: Coordinates|
            #[trigger] result@.contains(c) <==> (r1.contains(c) || (pushed_right && c
                == capture_right)) by {
            if pushed_right {
                lemma_contains_push(r1, capture_right, c);
            }
        }
    }
    result
}

/// Appends `dest` to `result` when a king or knight may step onto it, and
/// proves what the appended sequence contains.
fn push_if_step_ok(dest: Coordinates, board: &Board, color: PieceColor, result: &mut Vec<
    Coordinates,
>)
    requires
        board@.wf(),
    ensures
        forall|c: Coordinates|
            #[trigger] final(result)@.contains(c) <==> (old(result)@.contains(c) || (c == dest
                && step_ok(board@, color, dest))),
{
    let ghost r0 = result@;
    let ok = ok_king_knight_move(&dest, board, color);
    if ok {
        result.push(dest);
    }
    proof {
        assert forall|c: Coordinates|
            #[trigger] result@.contains(c) <==> (r0.contains(c) || (c == dest && step_ok(
                board@,
                color,
                dest,
            ))) by {
            if ok {
                lemma_contains_push(r0, dest, c);
            }
        }
    }
}

/// The candidate moves of the knight `piece`: the eight (1, 2)-pattern
/// offsets, each accepted when on the board and not held by a piece of the
/// knight's own color.
fn get_knight_moves(piece: &Piece, board: &Board) -> (result: Vec<Coordinates>)
    requires
        board@.wf(),
        piece.coordinates.spec_in_bounds(),
    ensures
        forall|c: Coordinates|
            #[trigger] result@.contains(c) <==> knight_candidate(board@, *piece, c),
{
    let mut result: Vec<Coordinates> = Vec::new();
    let color = piece.piece_color;
    push_if_step_ok(piece.coordinates.offset(1, 2), board, color, &mut result);
    push_if_step_ok(piece.coordinates.offset(1, -2), board, color, &mut result);
    push_if_step_ok(piece.coordinates.offset(-1, 2), board, color, &mut result);
    push_if_step_ok(piece.coordinates.offset(-1, -2), board, color, &mut result);
    push_if_step_ok(piece.coordinates.offset(2, 1), board, color, &mut result);
    push_if_step_ok(piece.coordinates.offset(2, -1), board, color, &mut result);
    push_if_step_ok(piece.coordinates.offset(-2, 1), board, color, &mut result);
    push_if_step_ok(piece.coordinates.offset(-2, -1), board, color, &mut result);
    result
}

/// One sliding step family: appends to `result` every square the piece
/// reaches from its position in direction `(dx, dy)`.
fn slide_dir(piece: &Piece, board: &Board, dx: i32, dy: i32, result: &mut Vec<Coordinates>)
    requires
        board@.wf(),
        piece.coordinates.spec_in_bounds(),
        -1 <= dx <= 1,
        -1 <= dy <= 1,
        !(dx == 0 && dy == 0),
    ensures
        forall|c: Coordinates|
            #[trigger] final(result)@.contains(c) <==> (old(result)@.contains(c) || dir_candidate(
                board@,
                *piece,
                dx as int,
                dy as int,
                c,
            )),
{
    let ghost m = board@;
    let ghost r0 = result@;
    let ghost color = piece.piece_color;
    let mut coords = piece.coordinates.offset(dx, dy);
    while coords.in_board_bounds()
        invariant
            board@ == m,
            board@.wf(),
            r0 == old(result)@,
            -1 <= dx <= 1,
            -1 <= dy <= 1,
            !(dx == 0 && dy == 0),
            color == piece.piece_color,
            forall|c: Coordinates|
                #[trigger] result@.contains(c) <==> (r0.contains(c) || (dir_candidate(
                    m,
                    *piece,
                    dx as int,
                    dy as int,
                    c,
                ) && !ray_reaches(m, color, coords.x - dx, coords.y - dy, dx as int, dy as int, c))),
            forall|c: Coordinates|
                ray_reaches(m, color, coords.x - dx, coords.y - dy, dx as int, dy as int, c)
                    ==> dir_candidate(m, *piece, dx as int, dy as int, c),
        decreases (if dx > 0 {
            9 - coords.x
        } else if dx < 0 {
            coords.x as int
        } else if dy > 0 {
            9 - coords.y
        } else {
            coords.y as int
        }),
    {
        let ghost px: int = coords.x - dx;
        let ghost py: int = coords.y - dy;
        let occupant: Option<Piece> = match board.get_field(coords) {
            Some(field) => field.piece,
            None => None,
        };
        match occupant {
            Some(some_piece) => {
                let ghost r1 = result@;
                let enemy = some_piece.piece_color != piece.piece_color;
                if enemy {
                    result.push(coords);
                }
                proof {
                    assert forall|c: Coordinates|
                        #[trigger] result@.contains(c) <==> (r0.contains(c) || dir_candidate(
                            m,
                            *piece,
                            dx as int,
                            dy as int,
                            c,
                        )) by {
                        if enemy {
                            lemma_contains_push(r1, coords, c);
                        }
                        assert(ray_reaches(m, color, px, py, dx as int, dy as int, c) <==> (c
                            == coords && enemy));
                    }
                }
                return ;
            },
            None => {
                let ghost r1 = result@;
                result.push(coords);
                let next = coords.offset(dx, dy);
                proof {
                    // The square just passed is empty, so the remaining ray
                    // is the old one minus its first step; and a ray never
                    // reaches its own starting square.
                    if ray_reaches(m, color, coords.x as int, coords.y as int, dx as int, dy as int, coords) {
                        lemma_ray_directional(
                            m,
                            color,
                            coords.x as int,
                            coords.y as int,
                            dx as int,
                            dy as int,
                            coords,
                        );
                    }
                    assert(ray_reaches(m, color, px, py, dx as int, dy as int, coords));
                    assert forall|c: Coordinates|
                        ray_reaches(
                            m,
                            color,
                            coords.x as int,
                            coords.y as int,
                            dx as int,
                            dy as int,
                            c,
                        ) implies dir_candidate(m, *piece, dx as int, dy as int, c) by {
                        lemma_ray_directional(
                            m,
                            color,
                            coords.x as int,
                            coords.y as int,
                            dx as int,
                            dy as int,
                            c,
                        );
                        assert(ray_reaches(m, color, px, py, dx as int, dy as int, c));
                    }
                    assert forall|c: Coordinates|
                        #[trigger] result@.contains(c) <==> (r0.contains(c) || (dir_candidate(
                            m,
                            *piece,
                            dx as int,
                            dy as int,
                            c,
                        ) && !ray_reaches(
                            m,
                            color,
                            coords.x as int,
                            coords.y as int,
                            dx as int,
                            dy as int,
                            c,
                        ))) by {
                        lemma_contains_push(r1, coords, c);
                    }
                }
                coords = next;
            },
        }
    }
    proof {
        assert forall|c: Coordinates|
            #[trigger] result@.contains(c) <==> (r0.contains(c) || dir_candidate(
                m,
                *piece,
                dx as int,
                dy as int,
                c,
            )) by {
            assert(!ray_reaches(m, color, coords.x - dx, coords.y - dy, dx as int, dy as int, c));
        }
    }
}

/// Whether `color` may castle with the rook on `rook_coords`: an unmoved
/// rook of that color stands there, every field listed in `need_empty` is
/// empty, the king is not in check, and `need_safe` is not attacked.
fn check_castling(
    color: PieceColor,
    board: &Board,
    rook_coords: &Coordinates,
    need_safe: &Coordinates,
    need_empty: &Vec<(i32, i32)>,
) -> (r: bool)
    requires
        board@.wf(),
    ensures
        r == (rook_ok(board@, color, *rook_coords) && (forall|k: int|
            #![trigger need_empty@[k]]
            0 <= k < need_empty@.len() ==> board@.piece_at_xy(
                need_empty@[k].0 as int,
                need_empty@[k].1 as int,
            ) is None) && !king_danger(board@, color) && !field_danger(board@, color, *need_safe)),
    decreases 0int, 6int,
{
    let rook_is_ok = match board.get_piece(*rook_coords) {
        Some(some_piece) => some_piece.piece_color == color && some_piece.piece_type
            == (PieceType::Rook { moved: false }),
        None => false,
    };
    if !rook_is_ok {
        return false;
    }
    let mut k: usize = 0;
    while k < need_empty.len()
        invariant
            board@.wf(),
            k <= need_empty@.len(),
            forall|i: int|
                #![trigger need_empty@[i]]
                0 <= i < k ==> board@.piece_at_xy(
                    need_empty@[i].0 as int,
                    need_empty@[i].1 as int,
                ) is None,
        decreases need_empty@.len() - k,
    {
        let pair = need_empty[k];
        let coords = Coordinates { x: pair.0, y: pair.1 };
        if board.get_piece(coords).is_some() {
            return false;
        }
        k = k + 1;
    }

    if board.king_in_danger(color) {
        return false;
    }
    if board.field_in_danger(color, *need_safe) {
        return false;
    }
    return true;
}

/// Appends to `result` the castling destinations open to `color`: the square
/// of each rook the king may castle with, queenside first.
fn check_for_castlings(board: &Board, color: PieceColor, result: &mut Vec<Coordinates>)
    requires
        board@.wf(),
    ensures
        forall|c: Coordinates|
            #[trigger] final(result)@.contains(c) <==> (old(result)@.contains(c)
                || castle_candidate(board@, color, c)),
    decreases 0int, 7int,
{
    let ghost r0 = result@;
    let home: i32 = if color == PieceColor::Black {
        8
    } else {
        1
    };
    let rook_coords1 = Coordinates { x: 1, y: home };
    let rook_coords2 = Coordinates { x: 8, y: home };

    let need_safe1 = Coordinates { x: 4, y: home };
    let mut need_empty1: Vec<(i32, i32)> = Vec::new();
    need_empty1.push((2, home));
    need_empty1.push((3, home));
    need_empty1.push((4, home));

    let need_safe2 = Coordinates { x: 6, y: home };
    let mut need_empty2: Vec<(i32, i32)> = Vec::new();
    need_empty2.push((6, home));
    need_empty2.push((7, home));

    let ok1 = check_castling(color, board, &rook_coords1, &need_safe1, &need_empty1);
    proof {
        assert(need_empty1@[0] == (2i32, home));
        assert(need_empty1@[1] == (3i32, home));
        assert(need_empty1@[2] == (4i32, home));
        if rook_ok(board@, color, rook_coords1) && board@.piece_at_xy(2, home as int) is None
            && board@.piece_at_xy(3, home as int) is None && board@.piece_at_xy(4, home as int)
            is None && !king_danger(board@, color) && !field_danger(board@, color, need_safe1) {
            assert forall|k: int| #![trigger need_empty1@[k]] 0 <= k < need_empty1@.len() implies board@.piece_at_xy(
                need_empty1@[k].0 as int,
                need_empty1@[k].1 as int,
            ) is None by {
                if k == 0 {
                } else if k == 1 {
                } else {
                    assert(k == 2);
                }
            }
        }
        assert(ok1 == castle_candidate(board@, color, rook_coords1));
    }
    if ok1 {
        result.push(rook_coords1);
    }
    let ghost r1 = result@;
    proof {
        assert forall|c: Coordinates|
            #[trigger] result@.contains(c) <==> (r0.contains(c) || (ok1 && c == rook_coords1)) by {
            if ok1 {
                lemma_contains_push(r0, rook_coords1, c);
            }
        }
    }

    let ok2 = check_castling(color, board, &rook_coords2, &need_safe2, &need_empty2);
    proof {
        assert(need_empty2@[0] == (6i32, home));
        assert(need_empty2@[1] == (7i32, home));
        if rook_ok(board@, color, rook_coords2) && board@.piece_at_xy(6, home as int) is None
            && board@.piece_at_xy(7, home as int) is None && !king_danger(board@, color)
            && !field_danger(board@, color, need_safe2) {
            assert forall|k: int| #![trigger need_empty2@[k]] 0 <= k < need_empty2@.len() implies board@.piece_at_xy(
                need_empty2@[k].0 as int,
                need_empty2@[k].1 as int,
            ) is None by {
                if k == 0 {
                } else {
                    assert(k == 1);
                }
            }
        }
        assert(ok2 == castle_candidate(board@, color, rook_coords2));
    }
    if ok2 {
        result.push(rook_coords2);
    }
    proof {
        assert forall|c: Coordinates|
            #[trigger] result@.contains(c) <==> (r0.contains(c) || castle_candidate(
                board@,
                color,
                c,
            )) by {
            if ok2 {
                lemma_contains_push(r1, rook_coords2, c);
            }
            if castle_candidate(board@, color, c) {
                assert(c == rook_coords1 || c == rook_coords2);
            }
        }
    }
}

/// The candidate moves of the king `piece`: the eight adjacent squares, and,
/// when `check_castling` is requested and the king has never moved, the
/// castling destinations.
fn get_king_moves(piece: &Piece, board: &Board, check_castling: bool) -> (result: Vec<Coordinates>)
    requires
        board@.wf(),
        piece.coordinates.spec_in_bounds(),
    ensures
        forall|c: Coordinates|
            #[trigger] result@.contains(c) <==> (king_base_candidate(board@, *piece, c) || (
            check_castling && piece.piece_type == (PieceType::King { moved: false })
                && castle_candidate(board@, piece.piece_color, c))),
    decreases (if check_castling {
        1int
    } else {
        0int
    }), 2int,
{
    let mut result: Vec<Coordinates> = Vec::new();
    let color = piece.piece_color;
    push_if_step_ok(piece.coordinates.offset(-1, 1), board, color, &mut result);
    push_if_step_ok(piece.coordinates.offset(1, -1), board, color, &mut result);
    push_if_step_ok(piece.coordinates.offset(1, 1), board, color, &mut result);
    push_if_step_ok(piece.coordinates.offset(-1, -1), board, color, &mut result);
    push_if_step_ok(piece.coordinates.offset(0, 1), board, color, &mut result);
    push_if_step_ok(piece.coordinates.offset(1, 0), board, color, &mut result);
    push_if_step_ok(piece.coordinates.offset(0, -1), board, color, &mut result);
    push_if_step_ok(piece.coordinates.offset(-1, 0), board, color, &mut result);

    if check_castling {
        if piece.piece_type == (PieceType::King { moved: false }) {
            check_for_castlings(board, piece.piece_color, &mut result);
        }
    }
    result
}

/// The moves a caller may offer for `piece`: the candidate destinations by
/// the piece-movement rules and, when `filter_check` is set, only those that
/// do not leave the mover's own king in check. The same flag turns castling
/// candidates on: check detection asks with it unset, and so never recurses.
pub fn get_possible_moves(piece: &Piece, board: &Board, filter_check: bool) -> (result: Vec<
    Coordinates,
>)
    requires
        board@.wf(),
        board@.piece_at(piece.coordinates) == Some(*piece),
    ensures
        forall|c: Coordinates|
            #[trigger] result@.contains(c) <==> possible_move(board@, *piece, c, filter_check),
    decreases (if filter_check {
        1int
    } else {
        0int
    }), 3int,
{
    let result: Vec<Coordinates>;
    match piece.piece_type {
        PieceType::King { .. } => {
            result = get_king_moves(piece, board, filter_check);
        },
        PieceType::Queen => {
            result = get_queen_moves(piece, board);
        },
        PieceType::Rook { .. } => {
            result = get_rook_moves(piece, board);
        },
        PieceType::Bishop => {
            result = get_bishop_moves(piece, board);
        },
        PieceType::Knight => {
            result = get_knight_moves(piece, board);
        },
        PieceType::Pawn { .. } => {
            result = get_pawn_moves(piece, board);
        },
    }
    proof {
        assert forall|c: Coordinates|
            #[trigger] result@.contains(c) <==> candidate(board@, *piece, c, filter_check) by {}
    }
    if filter_check {
        let mut filtered: Vec<Coordinates> = Vec::new();
        let mut i: usize = 0;
        while i < result.len()
            invariant
                filter_check,
                board@.wf(),
                board@.piece_at(piece.coordinates) == Some(*piece),
                i <= result@.len(),
                forall|c: Coordinates|
                    #[trigger] result@.contains(c) <==> candidate(board@, *piece, c, true),
                forall|c: Coordinates|
                    #[trigger] filtered@.contains(c) ==> (candidate(board@, *piece, c, true)
                        && !danger_after(board@, *piece, c)),
                forall|k: int|
                    0 <= k < i ==> (!danger_after(board@, *piece, #[trigger] result@[k])
                        ==> filtered@.contains(result@[k])),
            decreases result@.len() - i,
        {
            let c = result[i];
            proof {
                assert(result@.contains(result@[i as int]));
                lemma_candidate_move_ok(board@, *piece, c);
            }
            let ghost f0 = filtered@;
            if !board.is_check_after_move(&piece.coordinates, &c, piece.piece_color) {
                filtered.push(c);
            }
            proof {
                assert forall|cc: Coordinates|
                    #[trigger] filtered@.contains(cc) <==> (f0.contains(cc) || (!danger_after(
                        board@,
                        *piece,
                        c,
                    ) && cc == c)) by {
                    if !danger_after(board@, *piece, c) {
                        lemma_contains_push(f0, c, cc);
                    }
                }
            }
            i = i + 1;
        }
        proof {
            assert forall|c: Coordinates|
                #[trigger] filtered@.contains(c) <==> possible_move(board@, *piece, c, true) by {
                if possible_move(board@, *piece, c, true) {
                    assert(result@.contains(c));
                    let k = choose|k: int| 0 <= k < result@.len() && result@[k] == c;
                    assert(!danger_after(board@, *piece, result@[k]));
                }
            }
        }
        filtered
    } else {
        result
    }
}

/// The candidate moves of a sliding piece: ray-casts along the four diagonal
/// directions when `diagonal` is set, along the four orthogonal ones
/// otherwise.
fn get_rook_bishop_moves(piece: &Piece, board: &Board, diagonal: bool) -> (result: Vec<Coordinates>)
    requires
        board@.wf(),
        piece.coordinates.spec_in_bounds(),
    ensures
        forall|c: Coordinates|
            #[trigger] result@.contains(c) <==> if diagonal {
                bishop_candidate(board@, *piece, c)
            } else {
                rook_candidate(board@, *piece, c)
            },
{
    let mut result: Vec<Coordinates> = Vec::new();
    if diagonal {
        slide_dir(piece, board, 1, 1, &mut result);
        slide_dir(piece, board, -1, 1, &mut result);
        slide_dir(piece, board, 1, -1, &mut result);
        slide_dir(piece, board, -1, -1, &mut result);
    } else {
        slide_dir(piece, board, 0, 1, &mut result);
        slide_dir(piece, board, 1, 0, &mut result);
        slide_dir(piece, board, 0, -1, &mut result);
        slide_dir(piece, board, -1, 0, &mut result);
    }
    result
}

/// The candidate moves of the rook `piece`.
fn get_rook_moves(piece: &Piece, board: &Board) -> (result: Vec<Coordinates>)
    requires
        board@.wf(),
        piece.coordinates.spec_in_bounds(),
    ensures
        forall|c: Coordinates|
            #[trigger] result@.contains(c) <==> rook_candidate(board@, *piece, c),
{
    get_rook_bishop_moves(piece, board, false)
}

/// The candidate moves of the bishop `piece`.
fn get_bishop_moves(piece: &Piece, board: &Board) -> (result: Vec<Coordinates>)
    requires
        board@.wf(),
        piece.coordinates.spec_in_bounds(),
    ensures
        forall|c: Coordinates|
            #[trigger] result@.contains(c) <==> bishop_candidate(board@, *piece, c),
{
    get_rook_bishop_moves(piece, board, true)
}

/// The candidate moves of the queen `piece`: the union of the rook's and the
/// bishop's rays.
fn get_queen_moves(piece: &Piece, board: &Board) -> (result: Vec<Coordinates>)
    requires
        board@.wf(),
        piece.coordinates.spec_in_bounds(),
    ensures
        forall|c: Coordinates|
            #[trigger] result@.contains(c) <==> (rook_candidate(board@, *piece, c)
                || bishop_candidate(board@, *piece, c)),
{
    let mut result = get_rook_bishop_moves(piece, board, false);
    slide_dir(piece, board, 1, 1, &mut result);
    slide_dir(piece, board, -1, 1, &mut result);
    slide_dir(piece, board, 1, -1, &mut result);
    slide_dir(piece, board, -1, -1, &mut result);
    result
}

} // verus!
