//! The board: an 8 x 8 grid of fields, a cached position for each king, and a
//! full-move counter. The board owns the lookup and mutation primitives and
//! the check, checkmate and stalemate predicates.

use crate::chess_pieces::{Piece, PieceColor, PieceType};
use crate::coordinates::{xy_in_bounds, Coordinates};
use crate::field::{Field, FieldColor};
use vstd::prelude::*;
use vstd::string::StringExecFns;

verus! {

/// The mathematical value of a board: the grid of fields, the cached king
/// positions and the full-move counter.
#[verifier::ext_equal]
pub struct BoardModel {
    /// `grid[y - 1][x - 1]` is the field at `(x, y)`.
    pub grid: Seq<Seq<Field>>,
    pub white_king: Coordinates,
    pub black_king: Coordinates,
    pub move_number: u32,
}

impl BoardModel {
    /// Well-formed: the grid is 8 x 8, and every piece records the coordinates
    /// of the field it stands on.
    pub open spec fn wf(self) -> bool {
        &&& self.grid.len() == 8
        &&& (forall|i: int| 0 <= i < 8 ==> (#[trigger] self.grid[i]).len() == 8)
        &&& (forall|x: int, y: int|
            xy_in_bounds(x, y) ==> ((#[trigger] self.piece_at_xy(x, y)) matches Some(p)
                ==> p.coordinates == (Coordinates { x: x as i32, y: y as i32 })))
    }

    /// The field at `(x, y)`, both 1-indexed and on the board.
    pub open spec fn field_at_xy(self, x: int, y: int) -> Field {
        self.grid[y - 1][x - 1]
    }

    /// The field at an on-board position.
    pub open spec fn field_at(self, c: Coordinates) -> Field {
        self.field_at_xy(c.x as int, c.y as int)
    }

    /// The piece standing at `(x, y)`: `None` off the board and on empty
    /// fields.
    pub open spec fn piece_at_xy(self, x: int, y: int) -> Option<Piece> {
        if xy_in_bounds(x, y) {
            self.field_at_xy(x, y).piece
        } else {
            None
        }
    }

    /// The piece standing at `c`: `None` off the board and on empty fields.
    pub open spec fn piece_at(self, c: Coordinates) -> Option<Piece> {
        self.piece_at_xy(c.x as int, c.y as int)
    }

    /// The cached position of `color`'s king.
    pub open spec fn king_pos(self, color: PieceColor) -> Coordinates {
        if color == PieceColor::White {
            self.white_king
        } else {
            self.black_king
        }
    }

    /// The model with the occupant of `c` replaced by `piece`; everything
    /// else, the field's own data included, stays. Off the board: unchanged.
    pub open spec fn with_piece(self, c: Coordinates, piece: Option<Piece>) -> BoardModel {
        if c.spec_in_bounds() {
            let y = c.y - 1;
            let x = c.x - 1;
            BoardModel {
                grid: self.grid.update(
                    y,
                    self.grid[y].update(x, Field { piece, ..self.grid[y][x] }),
                ),
                ..self
            }
        } else {
            self
        }
    }

    /// Whether moving from `from` to `to` is read as a castling request: the
    /// destination holds a rook of the mover's own color and neither the
    /// moving king nor that rook has ever moved.
    pub open spec fn is_castle_request(self, from: Coordinates, to: Coordinates) -> bool {
        match (self.piece_at(from), self.piece_at(to)) {
            (Some(k), Some(r)) => k.piece_color == r.piece_color && k.piece_type
                == (PieceType::King { moved: false }) && r.piece_type == (PieceType::Rook {
                moved: false,
            }),
            _ => false,
        }
    }

    /// Whether the ordinary (non-castling) move from `from` to `to` goes
    /// through: the origin holds a piece and the destination is on the board.
    pub open spec fn plain_move_ok(self, from: Coordinates, to: Coordinates) -> bool {
        self.piece_at(from) is Some && to.spec_in_bounds()
    }

    /// Whether `move_piece(from, to)` succeeds. A castling request succeeds
    /// exactly when it names a corner and the king's post-castle square does
    /// not itself hold an unmoved rook of the same color; any other move
    /// succeeds exactly when the origin is occupied and the destination is on
    /// the board.
    pub open spec fn move_ok(self, from: Coordinates, to: Coordinates) -> bool {
        if self.is_castle_request(from, to) {
            is_corner(to) && !self.is_castle_request(from, castle_king_square(to))
        } else {
            self.plain_move_ok(from, to)
        }
    }

    /// The model after one ordinary move from `from` to `to`: the origin is
    /// cleared, the piece — flags flipped, promoted where due, coordinates
    /// updated — overwrites whatever stood on `to`, the king cache follows a
    /// moving king, and the full-move counter counts Black's moves.
    pub open spec fn apply_plain(self, from: Coordinates, to: Coordinates) -> BoardModel {
        let p = self.piece_at(from).unwrap();
        let p2 = moved_piece(p, to);
        let m2 = self.with_piece(from, None).with_piece(to, Some(p2));
        BoardModel {
            white_king: if p.piece_type matches PieceType::King { .. } && p.piece_color
                == PieceColor::White {
                to
            } else {
                self.white_king
            },
            black_king: if p.piece_type matches PieceType::King { .. } && p.piece_color
                == PieceColor::Black {
                to
            } else {
                self.black_king
            },
            move_number: bumped_counter(self.move_number, p.piece_color),
            ..m2
        }
    }

    /// The model after `move_piece(from, to)`: unchanged when the move fails;
    /// a successful castling request relocates king and rook in two steps;
    /// any other successful move is one ordinary move.
    pub open spec fn apply_move(self, from: Coordinates, to: Coordinates) -> BoardModel {
        if !self.move_ok(from, to) {
            self
        } else if self.is_castle_request(from, to) {
            self.apply_plain(from, castle_king_square(to)).apply_plain(to, castle_rook_square(to))
        } else {
            self.apply_plain(from, to)
        }
    }
}

/// Whether `c` is one of the board's four corners, the home squares of the
/// rooks.
pub open spec fn is_corner(c: Coordinates) -> bool {
    (c.x == 1 || c.x == 8) && (c.y == 1 || c.y == 8)
}

/// The king's post-castle square for a castling request aimed at the rook
/// corner `to`.
pub open spec fn castle_king_square(to: Coordinates) -> Coordinates {
    Coordinates { x: if to.x == 1 { 3 } else { 7 }, y: to.y }
}

/// The rook's post-castle square for a castling request aimed at the rook
/// corner `to`.
pub open spec fn castle_rook_square(to: Coordinates) -> Coordinates {
    Coordinates { x: if to.x == 1 { 4 } else { 6 }, y: to.y }
}

/// The kind of a piece after it has moved once: the "has moved" flags of
/// pawns, rooks and kings become set; other kinds are unchanged.
pub open spec fn flag_updated_type(t: PieceType) -> PieceType {
    match t {
        PieceType::Pawn { moved: false } => PieceType::Pawn { moved: true },
        PieceType::Rook { moved: false } => PieceType::Rook { moved: true },
        PieceType::King { .. } => PieceType::King { moved: true },
        _ => t,
    }
}

/// The piece as it stands after moving to `to`: flags flipped, a pawn landing
/// on the farthest rank promoted to a queen, coordinates updated; color and
/// visual handle kept.
pub open spec fn moved_piece(p: Piece, to: Coordinates) -> Piece {
    let t1 = flag_updated_type(p.piece_type);
    let t2 = if t1 == (PieceType::Pawn { moved: true }) && (to.y == 1 || to.y == 8) {
        PieceType::Queen
    } else {
        t1
    };
    Piece { piece_type: t2, coordinates: to, ..p }
}

/// The full-move counter after a move of `color`: Black's moves are counted,
/// saturating at the largest representable value.
pub open spec fn bumped_counter(n: u32, color: PieceColor) -> u32 {
    if color == PieceColor::Black {
        if n < u32::MAX {
            (n + 1) as u32
        } else {
            n
        }
    } else {
        n
    }
}

/// The board. `fields[y - 1][x - 1]` is the field at `(x, y)`.
#[derive(Debug, PartialEq, Eq)]
pub struct Board {
    pub fields: Vec<Vec<Field>>,
    pub white_king_pos: Coordinates,
    pub black_king_pos: Coordinates,
    pub full_move_number: u32,
}

impl View for Board {
    type V = BoardModel;

    open spec fn view(&self) -> BoardModel {
        BoardModel {
            grid: Seq::new(self.fields@.len(), |i: int| self.fields@[i]@),
            white_king: self.white_king_pos,
            black_king: self.black_king_pos,
            move_number: self.full_move_number,
        }
    }
}

/// The piece the standard starting position puts on `c`: pawns on ranks 2
/// and 7, the Rook-Knight-Bishop-Queen-King-Bishop-Knight-Rook back ranks on
/// ranks 1 and 8, White below, Black above, nothing in between.
pub open spec fn spec_starting_piece(c: Coordinates) -> Option<Piece> {
    if 3 <= c.y <= 6 {
        None
    } else {
        let color = if c.y < 3 {
            PieceColor::White
        } else {
            PieceColor::Black
        };
        let t = if c.y == 2 || c.y == 7 {
            PieceType::Pawn { moved: false }
        } else if c.x == 1 || c.x == 8 {
            PieceType::Rook { moved: false }
        } else if c.x == 2 || c.x == 7 {
            PieceType::Knight
        } else if c.x == 3 || c.x == 6 {
            PieceType::Bishop
        } else if c.x == 4 {
            PieceType::Queen
        } else {
            PieceType::King { moved: false }
        };
        Some(Piece { entity: None, piece_type: t, piece_color: color, coordinates: c })
    }
}

/// The piece the standard starting position puts on `coordinates`, or
/// nothing.
pub fn starting_piece_from_coordinates(coordinates: Coordinates) -> (r: Option<Piece>)
    ensures
        r == spec_starting_piece(coordinates),
{
    let piece_color = if coordinates.y < 3 {
        PieceColor::White
    } else if coordinates.y > 6 {
        PieceColor::Black
    } else {
        return None;
    };

    let piece_type = if coordinates.y == 2 || coordinates.y == 7 {
        PieceType::Pawn { moved: false }
    } else if coordinates.x == 1 || coordinates.x == 8 {
        PieceType::Rook { moved: false }
    } else if coordinates.x == 2 || coordinates.x == 7 {
        PieceType::Knight
    } else if coordinates.x == 3 || coordinates.x == 6 {
        PieceType::Bishop
    } else if coordinates.x == 4 {
        PieceType::Queen
    } else {
        PieceType::King { moved: false }
    };
    Some(Piece::new(piece_type, piece_color, coordinates))
}

/// Whether `t` is a king, either flag.
pub open spec fn is_king(t: PieceType) -> bool {
    t matches PieceType::King { .. }
}

/// Whether `color`'s king stands at `(x, y)`.
pub open spec fn king_of(m: BoardModel, color: PieceColor, x: int, y: int) -> bool {
    m.piece_at_xy(x, y) matches Some(k) && k.piece_color == color && is_king(k.piece_type)
}

/// Whether the board's cache tracks `color`'s king: the cached square holds
/// that king, and no other field does. Every mutation that moves a king must
/// keep this in the same operation — there is no window where the cache is
/// stale and observable.
pub open spec fn king_tracked(m: BoardModel, color: PieceColor) -> bool {
    &&& king_of(m, color, m.king_pos(color).x as int, m.king_pos(color).y as int)
    &&& (forall|x: int, y: int|
        #[trigger] king_of(m, color, x, y) ==> (x == m.king_pos(color).x as int && y == m.king_pos(
            color,
        ).y as int))
}

/// One ordinary move application keeps the board well-formed: the grid
/// keeps its shape and the moved piece records its new square.
proof fn lemma_apply_plain_wf(m: BoardModel, from: Coordinates, to: Coordinates)
    requires
        m.wf(),
        m.piece_at(from) is Some,
        to.spec_in_bounds(),
    ensures
        m.apply_plain(from, to).wf(),
{
    let m2 = m.apply_plain(from, to);
    assert forall|x: int, y: int| xy_in_bounds(x, y) implies ((#[trigger] m2.piece_at_xy(x, y))
        matches Some(p) ==> p.coordinates == (Coordinates { x: x as i32, y: y as i32 })) by {
        if !(x == to.x as int && y == to.y as int) && !(x == from.x as int && y == from.y as int) {
            assert(m2.piece_at_xy(x, y) == m.piece_at_xy(x, y));
        }
    }
}

/// An ordinary move keeps both king caches correct, as long as it does not
/// capture a king — capturing one removes it with no square left for the
/// cache to point at, which no move offered by the move generator ever does.
pub proof fn lemma_plain_move_tracks_kings(m: BoardModel, from: Coordinates, to: Coordinates)
    requires
        m.wf(),
        king_tracked(m, PieceColor::White),
        king_tracked(m, PieceColor::Black),
        !m.is_castle_request(from, to),
        m.move_ok(from, to),
        !(m.piece_at(to) matches Some(cap) && is_king(cap.piece_type)),
    ensures
        king_tracked(m.apply_move(from, to), PieceColor::White),
        king_tracked(m.apply_move(from, to), PieceColor::Black),
{
    let p = m.piece_at(from).unwrap();
    let p2 = moved_piece(p, to);
    let m2 = m.apply_move(from, to);
    assert forall|color: PieceColor| king_tracked(m, color) implies king_tracked(m2, color) by {
        let kp = m.king_pos(color);
        if is_king(p.piece_type) && p.piece_color == color {
            assert(king_of(m, color, from.x as int, from.y as int));
            assert(from == kp);
            assert(m2.king_pos(color) == to);
            assert(m2.piece_at(to) == Some(p2));
            assert forall|x: int, y: int| #[trigger] king_of(m2, color, x, y) implies (x
                == to.x as int && y == to.y as int) by {
                if !(x == to.x as int && y == to.y as int) && !(x == from.x as int && y
                    == from.y as int) {
                    assert(m2.piece_at_xy(x, y) == m.piece_at_xy(x, y));
                    assert(king_of(m, color, x, y));
                }
            }
        } else {
            assert(m2.king_pos(color) == kp);
            assert(king_of(m, color, kp.x as int, kp.y as int));
            assert(!(kp.x == from.x && kp.y == from.y));
            assert(!(kp.x == to.x && kp.y == to.y));
            assert(m2.piece_at_xy(kp.x as int, kp.y as int) == m.piece_at_xy(
                kp.x as int,
                kp.y as int,
            ));
            assert forall|x: int, y: int| #[trigger] king_of(m2, color, x, y) implies (x
                == kp.x as int && y == kp.y as int) by {
                if !(x == to.x as int && y == to.y as int) && !(x == from.x as int && y
                    == from.y as int) {
                    assert(m2.piece_at_xy(x, y) == m.piece_at_xy(x, y));
                    assert(king_of(m, color, x, y));
                }
            }
        }
    }
}

/// Castling as the move generator offers it — empty path included — keeps
/// both king caches correct: the king's cache follows it to its post-castle
/// square in the same operation, and the rook's relocation touches no king.
pub proof fn lemma_castling_tracks_kings(m: BoardModel, from: Coordinates, to: Coordinates)
    requires
        m.wf(),
        king_tracked(m, PieceColor::White),
        king_tracked(m, PieceColor::Black),
        m.is_castle_request(from, to),
        crate::moves::castle_candidate(m, m.piece_at(from).unwrap().piece_color, to),
    ensures
        king_tracked(m.apply_move(from, to), PieceColor::White),
        king_tracked(m.apply_move(from, to), PieceColor::Black),
{
    let p = m.piece_at(from).unwrap();
    let kc = castle_king_square(to);
    let rc = castle_rook_square(to);
    assert(m.piece_at(kc) is None);
    assert(m.piece_at(rc) is None);
    assert(m.move_ok(from, to));

    // The king's step is an ordinary move onto an empty square.
    assert(!m.is_castle_request(from, kc));
    assert(m.move_ok(from, kc));
    lemma_plain_move_tracks_kings(m, from, kc);
    let m2 = m.apply_move(from, kc);
    assert(m2 == m.apply_plain(from, kc));
    lemma_apply_plain_wf(m, from, kc);

    // So is the rook's: its corner was not written by the king's step, and
    // its destination lay on the empty path.
    assert(m2.piece_at(to) == m.piece_at(to));
    assert(m2.piece_at(rc) is None);
    assert(!m2.is_castle_request(to, rc));
    assert(m2.move_ok(to, rc));
    lemma_plain_move_tracks_kings(m2, to, rc);
    assert(m2.apply_move(to, rc) == m2.apply_plain(to, rc));
    assert(m.apply_move(from, to) == m2.apply_plain(to, rc));
}

/// Moving a flag-carrying piece away and back does not restore its original
/// state: the "has moved" flag the first move sets is sticky, so after
/// `move_piece(a, b)` and `move_piece(b, a)` a piece stands on `a` again,
/// but never in its original state. This holds of every unmoved pawn, rook
/// or king and every plain (non-castling) round trip.
pub proof fn lemma_round_trip_keeps_moved_flag(m: BoardModel, a: Coordinates, b: Coordinates)
    requires
        m.wf(),
        a != b,
        b.spec_in_bounds(),
        m.piece_at(a) matches Some(p) ==> (p.piece_type == (PieceType::Pawn { moved: false })
            || p.piece_type == (PieceType::Rook { moved: false }) || p.piece_type
            == (PieceType::King { moved: false })),
        m.piece_at(a) is Some,
        !m.is_castle_request(a, b),
    ensures
        m.apply_move(a, b).apply_move(b, a).piece_at(a) is Some,
        m.apply_move(a, b).apply_move(b, a).piece_at(a) != m.piece_at(a),
{
    let p = m.piece_at(a).unwrap();
    assert(m.move_ok(a, b));
    let m1 = m.apply_move(a, b);
    let p2 = moved_piece(p, b);
    assert(m1.piece_at(b) == Some(p2));
    assert(m1.piece_at(a) is None);
    assert(!m1.is_castle_request(b, a));
    assert(m1.move_ok(b, a));
    let m2 = m1.apply_move(b, a);
    let q = moved_piece(p2, a);
    assert(m2.piece_at(a) == Some(q));
    assert(q.piece_type != p.piece_type);
}

/// The digit character for `n`, for `0 <= n <= 9`.
pub open spec fn digit10(n: int) -> char {
    if n == 0 {
        '0'
    } else if n == 1 {
        '1'
    } else if n == 2 {
        '2'
    } else if n == 3 {
        '3'
    } else if n == 4 {
        '4'
    } else if n == 5 {
        '5'
    } else if n == 6 {
        '6'
    } else if n == 7 {
        '7'
    } else if n == 8 {
        '8'
    } else {
        '9'
    }
}

/// The decimal digits of `n`, most significant first.
pub open spec fn dec_digits(n: int) -> Seq<char>
    decreases n,
{
    if n < 10 {
        seq![digit10(n)]
    } else {
        dec_digits(n / 10).push(digit10(n % 10))
    }
}

/// The export text of one rank, from column `j` on, with `pending` empty
/// fields waiting to be written as one digit: a letter per piece, a digit
/// per run of empty fields.
pub open spec fn row_fen(row: Seq<Field>, j: int, pending: int) -> Seq<char>
    decreases 8 - j,
{
    if j < 0 || j >= 8 {
        if pending > 0 {
            seq![digit10(pending)]
        } else {
            Seq::empty()
        }
    } else {
        match row[j].piece {
            Some(p) => (if pending > 0 {
                seq![digit10(pending)]
            } else {
                Seq::empty()
            }) + seq![p.spec_fen_char()] + row_fen(row, j + 1, 0),
            None => row_fen(row, j + 1, pending + 1),
        }
    }
}

/// The export text of the ranks from row index `i` down to 0 — rank `i + 1`
/// down to rank 1 — separated by `/`.
pub open spec fn rows_fen(m: BoardModel, i: int) -> Seq<char>
    decreases i,
{
    if i <= 0 {
        row_fen(m.grid[0], 0, 0)
    } else {
        row_fen(m.grid[i], 0, 0) + seq!['/'] + rows_fen(m, i - 1)
    }
}

/// The digit character for `d`, as text.
fn digit_str(d: u32) -> (r: &'static str)
    requires
        d < 10,
    ensures
        r@ == seq![digit10(d as int)],
{
    proof {
        reveal_strlit("0");
        reveal_strlit("1");
        reveal_strlit("2");
        reveal_strlit("3");
        reveal_strlit("4");
        reveal_strlit("5");
        reveal_strlit("6");
        reveal_strlit("7");
        reveal_strlit("8");
        reveal_strlit("9");
    }
    if d == 0 {
        "0"
    } else if d == 1 {
        "1"
    } else if d == 2 {
        "2"
    } else if d == 3 {
        "3"
    } else if d == 4 {
        "4"
    } else if d == 5 {
        "5"
    } else if d == 6 {
        "6"
    } else if d == 7 {
        "7"
    } else if d == 8 {
        "8"
    } else {
        "9"
    }
}

/// Appends the decimal digits of `n`.
fn push_decimal(s: &mut String, n: u32)
    ensures
        final(s)@ == old(s)@ + dec_digits(n as int),
    decreases n,
{
    if n < 10 {
        s.append(digit_str(n));
    } else {
        push_decimal(s, n / 10);
        s.append(digit_str(n % 10));
        proof {
            assert(s@ =~= old(s)@ + dec_digits(n as int));
        }
    }
}

/// The letter of the piece, as text: the kind's letter, upper case for
/// White.
fn fen_symbol(piece: &Piece) -> (r: &'static str)
    ensures
        r@ == seq![piece.spec_fen_char()],
{
    proof {
        reveal_strlit("K");
        reveal_strlit("Q");
        reveal_strlit("R");
        reveal_strlit("B");
        reveal_strlit("N");
        reveal_strlit("P");
        reveal_strlit("k");
        reveal_strlit("q");
        reveal_strlit("r");
        reveal_strlit("b");
        reveal_strlit("n");
        reveal_strlit("p");
    }
    match piece.piece_color {
        PieceColor::White => match piece.piece_type {
            PieceType::King { .. } => "K",
            PieceType::Queen => "Q",
            PieceType::Rook { .. } => "R",
            PieceType::Bishop => "B",
            PieceType::Knight => "N",
            PieceType::Pawn { .. } => "P",
        },
        PieceColor::Black => match piece.piece_type {
            PieceType::King { .. } => "k",
            PieceType::Queen => "q",
            PieceType::Rook { .. } => "r",
            PieceType::Bishop => "b",
            PieceType::Knight => "n",
            PieceType::Pawn { .. } => "p",
        },
    }
}

/// A well-formed board's view maps each row of `fields` to the same row of
/// the grid, all of length 8.
proof fn lemma_view_row(b: &Board, i: int)
    requires
        b@.wf(),
        0 <= i < 8,
    ensures
        b.fields@.len() == 8,
        b@.grid[i] == b.fields@[i]@,
        b.fields@[i]@.len() == 8,
{
    assert(b@.grid.len() == b.fields@.len());
    assert(b@.grid[i] == b.fields@[i]@);
    assert(b@.grid[i].len() == 8);
}

impl Board {
    /// A board whose fields are all unoccupied; the king caches default to the
    /// kings' starting squares, and the full-move counter to 1.
    pub fn empty() -> (b: Board)
        ensures
            b@.wf(),
            forall|i: int, j: int|
                0 <= i < 8 && 0 <= j < 8 ==> #[trigger] b@.grid[i][j] == (Field {
                    entity: 0,
                    coordinates: Coordinates { x: (j + 1) as i32, y: (i + 1) as i32 },
                    color: if (i + j) % 2 == 0 {
                        FieldColor::Black
                    } else {
                        FieldColor::White
                    },
                    piece: None::<Piece>,
                }),
            b@.white_king == (Coordinates { x: 5, y: 1 }),
            b@.black_king == (Coordinates { x: 5, y: 8 }),
            b@.move_number == 1,
    {
        let mut fields: Vec<Vec<Field>> = Vec::new();
        let mut i: usize = 0;
        while i < 8
            invariant
                0 <= i <= 8,
                fields@.len() == i,
                forall|a: int, j: int|
                    0 <= a < i && 0 <= j < 8 ==> #[trigger] fields@[a]@[j] == (Field {
                        entity: 0,
                        coordinates: Coordinates { x: (j + 1) as i32, y: (a + 1) as i32 },
                        color: if (a + j) % 2 == 0 {
                            FieldColor::Black
                        } else {
                            FieldColor::White
                        },
                        piece: None::<Piece>,
                    }),
                forall|a: int| 0 <= a < i ==> (#[trigger] fields@[a])@.len() == 8,
            decreases 8 - i,
        {
            let mut row: Vec<Field> = Vec::new();
            let mut j: usize = 0;
            while j < 8
                invariant
                    0 <= j <= 8,
                    i < 8,
                    row@.len() == j,
                    forall|k: int|
                        0 <= k < j ==> #[trigger] row@[k] == (Field {
                            entity: 0,
                            coordinates: Coordinates { x: (k + 1) as i32, y: (i + 1) as i32 },
                            color: if (i + k) % 2 == 0 {
                                FieldColor::Black
                            } else {
                                FieldColor::White
                            },
                            piece: None::<Piece>,
                        }),
                decreases 8 - j,
            {
                let color = if (i + j) % 2 == 0 {
                    FieldColor::Black
                } else {
                    FieldColor::White
                };
                row.push(
                    Field {
                        entity: 0,
                        coordinates: Coordinates { x: (j + 1) as i32, y: (i + 1) as i32 },
                        color,
                        piece: None,
                    },
                );
                j = j + 1;
            }
            fields.push(row);
            i = i + 1;
        }
        let b = Board {
            fields,
            white_king_pos: Coordinates { x: 5, y: 1 },
            black_king_pos: Coordinates { x: 5, y: 8 },
            full_move_number: 1,
        };
        proof {
            assert forall|x: int, y: int| xy_in_bounds(x, y) implies !((#[trigger] b@.piece_at_xy(
                x,
                y,
            )) matches Some(p)) by {
                assert(b@.grid[y - 1][x - 1].piece is None);
            }
        }
        b
    }

    /// The board populated with the standard starting position, the king
    /// caches already pointing at the kings' squares.
    pub fn with_starting_position() -> (b: Board)
        ensures
            b@.wf(),
            forall|x: int, y: int|
                xy_in_bounds(x, y) ==> #[trigger] b@.piece_at_xy(x, y) == spec_starting_piece(
                    Coordinates { x: x as i32, y: y as i32 },
                ),
            b@.white_king == (Coordinates { x: 5, y: 1 }),
            b@.black_king == (Coordinates { x: 5, y: 8 }),
            b@.move_number == 1,
            king_tracked(b@, PieceColor::White),
            king_tracked(b@, PieceColor::Black),
    {
        let mut b = Board::empty();
        let mut y: i32 = 1;
        while y <= 8
            invariant
                1 <= y <= 9,
                b@.wf(),
                b@.white_king == (Coordinates { x: 5, y: 1 }),
                b@.black_king == (Coordinates { x: 5, y: 8 }),
                b@.move_number == 1,
                forall|cx: int, cy: int|
                    xy_in_bounds(cx, cy) ==> #[trigger] b@.piece_at_xy(cx, cy) == if cy < y {
                        spec_starting_piece(Coordinates { x: cx as i32, y: cy as i32 })
                    } else {
                        None::<Piece>
                    },
            decreases 9 - y,
        {
            let mut x: i32 = 1;
            while x <= 8
                invariant
                    1 <= x <= 9,
                    1 <= y <= 8,
                    b@.wf(),
                    b@.white_king == (Coordinates { x: 5, y: 1 }),
                    b@.black_king == (Coordinates { x: 5, y: 8 }),
                    b@.move_number == 1,
                    forall|cx: int, cy: int|
                        xy_in_bounds(cx, cy) ==> #[trigger] b@.piece_at_xy(cx, cy) == if cy < y
                            || (cy == y && cx < x) {
                            spec_starting_piece(Coordinates { x: cx as i32, y: cy as i32 })
                        } else {
                            None::<Piece>
                        },
                decreases 9 - x,
            {
                let c = Coordinates { x, y };
                let ghost b0 = b@;
                b.place_piece(c, starting_piece_from_coordinates(c));
                proof {
                    assert forall|cx: int, cy: int| xy_in_bounds(cx, cy) implies #[trigger] b@.piece_at_xy(
                        cx,
                        cy,
                    ) == (if cy < y || (cy == y && cx < x + 1) {
                        spec_starting_piece(Coordinates { x: cx as i32, y: cy as i32 })
                    } else {
                        None::<Piece>
                    }) by {
                        if cx == x as int && cy == y as int {
                            assert(b@.piece_at_xy(cx, cy) == spec_starting_piece(c));
                        } else {
                            assert(b@.piece_at_xy(cx, cy) == b0.piece_at_xy(cx, cy));
                        }
                    }
                }
                x = x + 1;
            }
            y = y + 1;
        }
        proof {
            assert(b@.piece_at_xy(5, 1) == spec_starting_piece(Coordinates { x: 5, y: 1 }));
            assert(b@.piece_at_xy(5, 8) == spec_starting_piece(Coordinates { x: 5, y: 8 }));
            assert forall|color: PieceColor, x: int, y: int|
                #[trigger] king_of(b@, color, x, y) implies (x == b@.king_pos(color).x as int && y
                == b@.king_pos(color).y as int) by {
                assert(xy_in_bounds(x, y));
                assert(b@.piece_at_xy(x, y) == spec_starting_piece(
                    Coordinates { x: x as i32, y: y as i32 },
                ));
            }
        }
        b
    }

    /// An independent copy of the board, taken to try a candidate move on.
    pub fn snapshot(&self) -> (b: Board)
        requires
            self@.wf(),
        ensures
            b@ == self@,
    {
        let mut fields: Vec<Vec<Field>> = Vec::new();
        let mut i: usize = 0;
        while i < 8
            invariant
                self@.wf(),
                0 <= i <= 8,
                fields@.len() == i,
                forall|a: int| 0 <= a < i ==> (#[trigger] fields@[a])@ == self@.grid[a],
            decreases 8 - i,
        {
            proof {
                lemma_view_row(self, i as int);
            }
            let mut row: Vec<Field> = Vec::new();
            let mut j: usize = 0;
            while j < 8
                invariant
                    self@.wf(),
                    0 <= i < 8,
                    0 <= j <= 8,
                    self.fields@.len() == 8,
                    self.fields@[i as int]@.len() == 8,
                    self@.grid[i as int] == self.fields@[i as int]@,
                    row@.len() == j,
                    forall|k: int| 0 <= k < j ==> #[trigger] row@[k] == self@.grid[i as int][k],
                decreases 8 - j,
            {
                row.push(self.fields[i][j]);
                j = j + 1;
            }
            proof {
                assert(row@ =~= self@.grid[i as int]);
            }
            fields.push(row);
            i = i + 1;
        }
        let b = Board {
            fields,
            white_king_pos: self.white_king_pos,
            black_king_pos: self.black_king_pos,
            full_move_number: self.full_move_number,
        };
        proof {
            assert(b@ =~~= self@);
        }
        b
    }

    /// The field at `coordinates`: `None` exactly off the board — never
    /// panics.
    pub fn get_field(&self, coordinates: Coordinates) -> (r: Option<&Field>)
        requires
            self@.wf(),
        ensures
            r is Some <==> coordinates.spec_in_bounds(),
            r matches Some(f) ==> *f == self@.field_at(coordinates),
    {
        if coordinates.x < 1 || coordinates.x > crate::BOARD_SIZE as i32 {
            return None;
        }
        if coordinates.y < 1 || coordinates.y > crate::BOARD_SIZE as i32 {
            return None;
        }
        proof {
            lemma_view_row(self, coordinates.y - 1);
        }
        Some(&self.fields[(coordinates.y - 1) as usize][(coordinates.x - 1) as usize])
    }

    /// The piece at `coordinates`: `None` off the board and on empty fields.
    pub fn get_piece(&self, coordinates: Coordinates) -> (r: Option<&Piece>)
        requires
            self@.wf(),
        ensures
            r is Some <==> self@.piece_at(coordinates) is Some,
            r matches Some(p) ==> self@.piece_at(coordinates) == Some(*p),
    {
        match self.get_field(coordinates) {
            Some(field) => match &field.piece {
                Some(piece) => Some(piece),
                None => None,
            },
            None => None,
        }
    }

    /// Replaces the occupant of `coordinates` by `piece`; off the board the
    /// board stays as it is. This is the population primitive: the king
    /// caches are not touched.
    pub fn place_piece(&mut self, coordinates: Coordinates, piece: Option<Piece>)
        requires
            old(self)@.wf(),
            piece matches Some(p) ==> p.coordinates == coordinates,
        ensures
            final(self)@.wf(),
            final(self)@ == old(self)@.with_piece(coordinates, piece),
    {
        if coordinates.x < 1 || coordinates.x > crate::BOARD_SIZE as i32 || coordinates.y < 1
            || coordinates.y > crate::BOARD_SIZE as i32 {
            assert(self@ =~~= old(self)@.with_piece(coordinates, piece));
            return ;
        }
        let yi = (coordinates.y - 1) as usize;
        let xi = (coordinates.x - 1) as usize;
        proof {
            lemma_view_row(self, yi as int);
        }
        let old_field = self.fields[yi][xi];
        let row = &mut self.fields[yi];
        row[xi] = Field { piece, ..old_field };
        proof {
            let m = old(self)@.with_piece(coordinates, piece);
            assert forall|i: int| 0 <= i < 8 implies #[trigger] self@.grid[i] =~= m.grid[i] by {}
            assert(self@ =~~= m);
            assert forall|x: int, y: int| xy_in_bounds(x, y) implies ((#[trigger] self@.piece_at_xy(
                x,
                y,
            )) matches Some(p) ==> p.coordinates == (Coordinates { x: x as i32, y: y as i32 }))
            by {
                if !(x == coordinates.x as int && y == coordinates.y as int) {
                    assert(self@.piece_at_xy(x, y) == old(self)@.piece_at_xy(x, y));
                }
            }
        }
    }

    /// Clears the field at `coordinates` and returns what was there, or
    /// nothing.
    pub fn remove_piece(&mut self, coordinates: Coordinates) -> (r: Option<Piece>)
        requires
            old(self)@.wf(),
        ensures
            final(self)@.wf(),
            r == old(self)@.piece_at(coordinates),
            final(self)@ == old(self)@.with_piece(coordinates, None),
    {
        match self.get_piece(coordinates) {
            Some(piece) => {
                let p = *piece;
                self.place_piece(coordinates, None);
                Some(p)
            },
            None => {
                proof {
                    assert(self@ =~~= old(self)@.with_piece(coordinates, None));
                }
                None
            },
        }
    }

    /// The cached position of `my_color`'s king.
    pub(crate) fn get_king_position(&self, my_color: PieceColor) -> (r: Coordinates)
        ensures
            r == self@.king_pos(my_color),
    {
        let mut king_position = self.white_king_pos;
        if my_color == PieceColor::Black {
            king_position = self.black_king_pos;
        }
        king_position
    }

    /// Serializes the occupancy rank by rank, rank 8 first, run-length
    /// encoding empty fields, followed by fixed placeholder fields and the
    /// full-move counter. The text is handed to an external
    /// move-recommendation collaborator; it is not a complete standard
    /// position encoding, and nothing reads it back in.
    pub fn to_fen(&self) -> (s: String)
        requires
            self@.wf(),
        ensures
            s@ == rows_fen(self@, 7) + " b - - 0 "@ + dec_digits(self@.move_number as int),
    {
        let ghost m = self@;
        let mut fen = String::new();
        let mut i: usize = 8;
        while i > 0
            invariant
                self@.wf(),
                self@ == m,
                i <= 8,
                i > 0 ==> fen@ + rows_fen(m, i - 1) == rows_fen(m, 7),
                i == 0 ==> fen@ == rows_fen(m, 7),
            decreases i,
        {
            i = i - 1;
            proof {
                lemma_view_row(self, i as int);
            }
            let ghost s_row = fen@;
            let mut empty_fields: u32 = 0;
            let mut j: usize = 0;
            while j < 8
                invariant
                    self@.wf(),
                    self@ == m,
                    i < 8,
                    j <= 8,
                    empty_fields <= j,
                    self.fields@.len() == 8,
                    self.fields@[i as int]@.len() == 8,
                    self@.grid[i as int] == self.fields@[i as int]@,
                    fen@ + row_fen(m.grid[i as int], j as int, empty_fields as int) == s_row
                        + row_fen(m.grid[i as int], 0, 0),
                decreases 8 - j,
            {
                match &self.fields[i][j].piece {
                    Some(piece) => {
                        if empty_fields > 0 {
                            fen.append(digit_str(empty_fields));
                            empty_fields = 0;
                        }
                        fen.append(fen_symbol(piece));
                        proof {
                            assert(fen@ + row_fen(m.grid[i as int], j + 1, 0) =~= s_row + row_fen(
                                m.grid[i as int],
                                0,
                                0,
                            ));
                        }
                    },
                    None => {
                        empty_fields = empty_fields + 1;
                    },
                }
                j = j + 1;
            }
            if empty_fields > 0 {
                fen.append(digit_str(empty_fields));
            }
            if i > 0 {
                fen.append("/");
                proof {
                    reveal_strlit("/");
                    assert(fen@ + rows_fen(m, i - 1) =~= rows_fen(m, 7));
                }
            } else {
                proof {
                    assert(fen@ =~= rows_fen(m, 7));
                }
            }
        }
        fen.append(" b - - 0 ");
        push_decimal(&mut fen, self.full_move_number);
        proof {
            assert(fen@ =~= rows_fen(m, 7) + " b - - 0 "@ + dec_digits(m.move_number as int));
        }
        fen
    }

    /// Whether any piece opposing `my_color` could move onto `coords`:
    /// scans every field, and asks for pseudo-legal candidate moves only, so
    /// that check detection never recurses into itself.
    pub fn field_in_danger(&self, my_color: PieceColor, coords: Coordinates) -> (r: bool)
        requires
            self@.wf(),
        ensures
            r == crate::moves::field_danger(self@, my_color, coords),
        decreases 0int, 4int,
    {
        let ghost m = self@;
        let mut yi: usize = 0;
        while yi < 8
            invariant
                self@.wf(),
                self@ == m,
                yi <= 8,
                forall|x: int, y: int|
                    xy_in_bounds(x, y) && y <= yi ==> !((#[trigger] m.piece_at_xy(x, y))
                        matches Some(q) && q.piece_color != my_color && crate::moves::candidate(
                        m,
                        q,
                        coords,
                        false,
                    )),
            decreases 8 - yi,
        {
            let mut xi: usize = 0;
            while xi < 8
                invariant
                    self@.wf(),
                    self@ == m,
                    yi < 8,
                    xi <= 8,
                    forall|x: int, y: int|
                        xy_in_bounds(x, y) && (y <= yi || (y == yi + 1 && x <= xi)) ==> !((
                        #[trigger] m.piece_at_xy(x, y)) matches Some(q) && q.piece_color
                            != my_color && crate::moves::candidate(m, q, coords, false)),
                decreases 8 - xi,
            {
                let c = Coordinates { x: xi as i32 + 1, y: yi as i32 + 1 };
                let attacker: Option<Piece> = match self.get_piece(c) {
                    Some(p) => Some(*p),
                    None => None,
                };
                if let Some(some_piece) = attacker {
                    if some_piece.piece_color != my_color {
                        proof {
                            assert(m.piece_at(c) == Some(some_piece));
                            assert(some_piece.coordinates == c);
                        }
                        let possible_moves = crate::moves::get_possible_moves(
                            &some_piece,
                            self,
                            false,
                        );
                        if crate::moves::contains_coord(&possible_moves, coords) {
                            proof {
                                assert(m.piece_at_xy(c.x as int, c.y as int) matches Some(q)
                                    && q.piece_color != my_color && crate::moves::candidate(
                                    m,
                                    q,
                                    coords,
                                    false,
                                ));
                            }
                            return true;
                        }
                    }
                }
                xi = xi + 1;
            }
            yi = yi + 1;
        }
        proof {
            if crate::moves::field_danger(m, my_color, coords) {
                let (x, y): (int, int) = choose|x: int, y: int|
                    (#[trigger] m.piece_at_xy(x, y)) matches Some(q) && q.piece_color != my_color
                        && crate::moves::candidate(m, q, coords, false);
                assert(xy_in_bounds(x, y));
                assert(false);
            }
        }
        false
    }

    /// Whether `my_color`'s king — on the square the cache records — is
    /// attacked by an opposing piece.
    pub fn king_in_danger(&self, my_color: PieceColor) -> (r: bool)
        requires
            self@.wf(),
        ensures
            r == crate::moves::king_danger(self@, my_color),
        decreases 0int, 5int,
    {
        let king_position = self.get_king_position(my_color);
        return self.field_in_danger(my_color, king_position);
    }

    /// Whether playing `from` to `to` would leave `my_color`'s king in
    /// danger: tries the move on a copy of the board and looks. The move must
    /// be playable.
    pub fn is_check_after_move(
        &self,
        from: &Coordinates,
        to: &Coordinates,
        my_color: PieceColor,
    ) -> (r: bool)
        requires
            self@.wf(),
            self@.move_ok(*from, *to),
        ensures
            r == crate::moves::king_danger(self@.apply_move(*from, *to), my_color),
        decreases 0int, 6int,
    {
        let mut dummy_board: Board = self.snapshot();
        let _moved = dummy_board.move_piece(*from, *to);

        match my_color {
            PieceColor::White => dummy_board.king_in_danger(PieceColor::White),
            PieceColor::Black => dummy_board.king_in_danger(PieceColor::Black),
        }
    }

    /// Whether `my_color` has no fully legal move at all — the condition
    /// that, combined with `king_in_danger`, separates checkmate from
    /// stalemate.
    pub fn no_possible_moves(&self, my_color: PieceColor) -> (r: bool)
        requires
            self@.wf(),
        ensures
            r == !crate::moves::exists_legal_move(self@, my_color),
    {
        let ghost m = self@;
        let mut all_moves: Vec<Coordinates> = Vec::new();
        let mut yi: usize = 0;
        while yi < 8
            invariant
                self@.wf(),
                self@ == m,
                yi <= 8,
                all_moves@.len() != 0 ==> crate::moves::exists_legal_move(m, my_color),
                forall|x: int, y: int|
                    xy_in_bounds(x, y) && y <= yi ==> ((#[trigger] m.piece_at_xy(x, y))
                        matches Some(q) ==> (q.piece_color == my_color ==> (all_moves@.len() != 0
                        || !crate::moves::has_legal_move(m, q)))),
            decreases 8 - yi,
        {
            let mut xi: usize = 0;
            while xi < 8
                invariant
                    self@.wf(),
                    self@ == m,
                    yi < 8,
                    xi <= 8,
                    all_moves@.len() != 0 ==> crate::moves::exists_legal_move(m, my_color),
                    forall|x: int, y: int|
                        xy_in_bounds(x, y) && (y <= yi || (y == yi + 1 && x <= xi)) ==> ((
                        #[trigger] m.piece_at_xy(x, y)) matches Some(q) ==> (q.piece_color
                            == my_color ==> (all_moves@.len() != 0
                            || !crate::moves::has_legal_move(m, q)))),
                decreases 8 - xi,
            {
                let c = Coordinates { x: xi as i32 + 1, y: yi as i32 + 1 };
                let own: Option<Piece> = match self.get_piece(c) {
                    Some(p) => Some(*p),
                    None => None,
                };
                if let Some(some_piece) = own {
                    if some_piece.piece_color == my_color {
                        proof {
                            assert(m.piece_at(c) == Some(some_piece));
                            assert(some_piece.coordinates == c);
                        }
                        let mut possible_moves = crate::moves::get_possible_moves(
                            &some_piece,
                            self,
                            true,
                        );
                        proof {
                            if possible_moves@.len() != 0 {
                                assert(possible_moves@.contains(possible_moves@[0]));
                                assert(crate::moves::has_legal_move(m, some_piece));
                                assert(m.piece_at_xy(c.x as int, c.y as int) matches Some(q)
                                    && q.piece_color == my_color
                                    && crate::moves::has_legal_move(m, q));
                            } else {
                                assert forall|cc: Coordinates| !crate::moves::possible_move(
                                    m,
                                    some_piece,
                                    cc,
                                    true,
                                ) by {
                                    if crate::moves::possible_move(m, some_piece, cc, true) {
                                        assert(possible_moves@.contains(cc));
                                    }
                                }
                            }
                        }
                        all_moves.append(&mut possible_moves);
                    }
                }
                xi = xi + 1;
            }
            yi = yi + 1;
        }
        proof {
            if all_moves@.len() == 0 && crate::moves::exists_legal_move(m, my_color) {
                let (x, y): (int, int) = choose|x: int, y: int|
                    (#[trigger] m.piece_at_xy(x, y)) matches Some(q) && q.piece_color == my_color
                        && crate::moves::has_legal_move(m, q);
                assert(xy_in_bounds(x, y));
                assert(false);
            }
        }
        all_moves.is_empty()
    }

    /// Performs the two relocations of a castling request aimed at the rook
    /// corner `to`: the king to its post-castle square, then the rook to its
    /// own. A request aimed anywhere else fails and changes nothing.
    fn castling(&mut self, from: Coordinates, to: Coordinates) -> (r: bool)
        requires
            old(self)@.wf(),
            old(self)@.is_castle_request(from, to),
        ensures
            final(self)@.wf(),
            r == old(self)@.move_ok(from, to),
            final(self)@ == old(self)@.apply_move(from, to),
        decreases (if is_corner(to) {
            2int
        } else {
            0int
        }),
    {
        if to == (Coordinates { x: 1, y: 1 }) {
            self.move_piece(from, Coordinates { x: 3, y: 1 }) && self.move_piece(
                to,
                Coordinates { x: 4, y: 1 },
            )
        } else if to == (Coordinates { x: 1, y: 8 }) {
            self.move_piece(from, Coordinates { x: 3, y: 8 }) && self.move_piece(
                to,
                Coordinates { x: 4, y: 8 },
            )
        } else if to == (Coordinates { x: 8, y: 8 }) {
            self.move_piece(from, Coordinates { x: 7, y: 8 }) && self.move_piece(
                to,
                Coordinates { x: 6, y: 8 },
            )
        } else if to == (Coordinates { x: 8, y: 1 }) {
            self.move_piece(from, Coordinates { x: 7, y: 1 }) && self.move_piece(
                to,
                Coordinates { x: 6, y: 1 },
            )
        } else {
            false
        }
    }

    /// The central mutator. Fails, changing nothing, when `from` holds no
    /// piece or `to` is off the board. On success the piece leaves `from`,
    /// its "has moved" flags flip, a pawn reaching the farthest rank becomes
    /// a queen, whatever stood on `to` is overwritten (a capture), and a
    /// moving king drags its cache along. One special case: when the
    /// destination holds an unmoved rook of the mover's own color and the
    /// moving piece is an unmoved king, the call is read as a castling
    /// request and relocates king and rook to their post-castle squares.
    pub fn move_piece(&mut self, from: Coordinates, to: Coordinates) -> (r: bool)
        requires
            old(self)@.wf(),
        ensures
            final(self)@.wf(),
            r == old(self)@.move_ok(from, to),
            final(self)@ == old(self)@.apply_move(from, to),
        decreases (if is_corner(to) {
            3int
        } else {
            1int
        }),
    {
        let to_piece: Option<Piece> = match self.get_piece(to) {
            Some(p) => Some(*p),
            None => None,
        };
        if let Some(pt) = to_piece {
            match self.get_piece(from) {
                Some(pf) => {
                    if pf.piece_color == pt.piece_color && pt.piece_type == (PieceType::Rook {
                        moved: false,
                    }) && pf.piece_type == (PieceType::King { moved: false }) {
                        return self.castling(from, to);
                    }
                },
                None => {
                    // The destination is occupied but the origin is empty:
                    // there is nothing to move.
                    return false;
                },
            }
        }
        if !to.in_board_bounds() {
            return false;
        }
        let piece = self.remove_piece(from);
        match piece {
            Some(piece) => {
                let mut piece = piece;
                piece.coordinates = to;

                if piece.piece_type == (PieceType::Pawn { moved: false }) {
                    piece.piece_type = PieceType::Pawn { moved: true };
                }
                if piece.piece_type == (PieceType::Rook { moved: false }) {
                    piece.piece_type = PieceType::Rook { moved: true };
                }

                let mut white_king_moved = false;
                let mut black_king_moved = false;
                if piece.piece_type == (PieceType::King { moved: false }) || piece.piece_type
                    == (PieceType::King { moved: true }) {
                    piece.piece_type = PieceType::King { moved: true };
                    if piece.piece_color == PieceColor::White {
                        white_king_moved = true;
                    } else {
                        black_king_moved = true;
                    }
                }
                if piece.piece_type == (PieceType::Pawn { moved: true }) && (piece.coordinates.y
                    == 1 || piece.coordinates.y == 8) {
                    piece.piece_type = PieceType::Queen;
                }

                self.place_piece(to, Some(piece));
                let ghost m_placed = self@;
                if white_king_moved {
                    self.white_king_pos = to;
                }
                if black_king_moved {
                    self.black_king_pos = to;
                }
                if piece.piece_color == PieceColor::Black && self.full_move_number < u32::MAX {
                    self.full_move_number = self.full_move_number + 1;
                }
                proof {
                    assert(old(self)@.move_ok(from, to));
                    assert(self@.grid =~~= m_placed.grid);
                    assert forall|x: int, y: int| xy_in_bounds(x, y) implies #[trigger] self@.piece_at_xy(
                        x,
                        y,
                    ) == m_placed.piece_at_xy(x, y) by {}
                    assert(self@.wf());
                    assert(self@ =~~= old(self)@.apply_move(from, to));
                }
                true
            },
            None => {
                proof {
                    assert(self@ =~~= old(self)@);
                }
                false
            },
        }
    }

    /// Attaches a visual handle to the field at `coordinates`; off the board
    /// nothing happens.
    pub fn set_field_entity(&mut self, coordinates: Coordinates, entity: u64)
        requires
            old(self)@.wf(),
        ensures
            final(self)@.wf(),
            coordinates.spec_in_bounds() ==> final(self)@ == (BoardModel {
                grid: old(self)@.grid.update(
                    coordinates.y - 1,
                    old(self)@.grid[coordinates.y - 1].update(
                        coordinates.x - 1,
                        Field { entity, ..old(self)@.field_at(coordinates) },
                    ),
                ),
                ..old(self)@
            }),
            !coordinates.spec_in_bounds() ==> final(self)@ == old(self)@,
    {
        if coordinates.x < 1 || coordinates.x > crate::BOARD_SIZE as i32 || coordinates.y < 1
            || coordinates.y > crate::BOARD_SIZE as i32 {
            assert(self@ =~~= old(self)@);
            return ;
        }
        let yi = (coordinates.y - 1) as usize;
        let xi = (coordinates.x - 1) as usize;
        proof {
            lemma_view_row(self, yi as int);
        }
        let old_field = self.fields[yi][xi];
        let row = &mut self.fields[yi];
        row[xi] = Field { entity, ..old_field };
        proof {
            let m = BoardModel {
                grid: old(self)@.grid.update(
                    coordinates.y - 1,
                    old(self)@.grid[coordinates.y - 1].update(
                        coordinates.x - 1,
                        Field { entity, ..old(self)@.field_at(coordinates) },
                    ),
                ),
                ..old(self)@
            };
            assert forall|i: int| 0 <= i < 8 implies #[trigger] self@.grid[i] =~= m.grid[i] by {}
            assert(self@ =~~= m);
            assert forall|x: int, y: int| xy_in_bounds(x, y) implies ((#[trigger] self@.piece_at_xy(
                x,
                y,
            )) matches Some(p) ==> p.coordinates == (Coordinates { x: x as i32, y: y as i32 }))
            by {
                assert(self@.piece_at_xy(x, y) == old(self)@.piece_at_xy(x, y));
            }
        }
    }

    /// The visual handle of the field at `coordinates`.
    pub fn get_field_entity(&self, coordinates: Coordinates) -> (r: Option<u64>)
        requires
            self@.wf(),
        ensures
            r == if coordinates.spec_in_bounds() {
                Some(self@.field_at(coordinates).entity)
            } else {
                None::<u64>
            },
    {
        match self.get_field(coordinates) {
            Some(field) => Some(field.entity),
            None => None,
        }
    }

    /// The visual handle of the piece at `coordinates`, if a piece stands
    /// there and a handle is attached to it.
    pub fn get_piece_entity(&self, coordinates: Coordinates) -> (r: Option<u64>)
        requires
            self@.wf(),
        ensures
            r == match self@.piece_at(coordinates) {
                Some(p) => p.entity,
                None => None::<u64>,
            },
    {
        match self.get_field(coordinates) {
            Some(field) => match &field.piece {
                Some(piece) => piece.entity,
                None => None,
            },
            None => None,
        }
    }

    /// Attaches a visual handle to the piece at `coordinates`, if a piece
    /// stands there.
    pub fn set_piece_entity(&mut self, coordinates: Coordinates, entity: u64)
        requires
            old(self)@.wf(),
        ensures
            final(self)@.wf(),
            final(self)@ == match old(self)@.piece_at(coordinates) {
                Some(p) => old(self)@.with_piece(
                    coordinates,
                    Some(Piece { entity: Some(entity), ..p }),
                ),
                None => old(self)@,
            },
    {
        let p = match self.get_piece(coordinates) {
            Some(piece) => *piece,
            None => {
                return ;
            },
        };
        self.place_piece(coordinates, Some(Piece { entity: Some(entity), ..p }));
    }
}

} // verus!
