//! Pieces and the movement rule of each kind.
use vstd::prelude::*;

use super::{contains_square, lemma_push_new_square, on_board, Board, Position};

verus! {

broadcast use vstd::seq_lib::lemma_seq_contains_after_push;

/// The two sides.
#[derive(Clone, Copy, Debug, PartialEq, Eq, Structural)]
pub enum PieceColor {
    White,
    Black,
}

impl PieceColor {
    /// The other side.
    pub open spec fn other(&self) -> PieceColor {
        match self {
            PieceColor::White => PieceColor::Black,
            PieceColor::Black => PieceColor::White,
        }
    }

    #[verifier::when_used_as_spec(other)]
    pub fn opposite(&self) -> (r: PieceColor)
        ensures
            r == self.other(),
            r != *self,
    {
        match self {
            PieceColor::White => PieceColor::Black,
            PieceColor::Black => PieceColor::White,
        }
    }

    /// Row step of a pawn of this side: White advances toward row 0,
    /// Black toward row 7.
    pub open spec fn forward(&self) -> int {
        match self {
            PieceColor::White => -1,
            PieceColor::Black => 1,
        }
    }
}

#[derive(Clone, Copy, Debug, PartialEq, Eq, Structural)]
pub struct Pawn {
    pub color: PieceColor,
    pub has_moved: bool,
    pub can_en_passant_col: Option<usize>,
}

#[derive(Clone, Copy, Debug, PartialEq, Eq, Structural)]
pub struct Knight {
    pub color: PieceColor,
}

#[derive(Clone, Copy, Debug, PartialEq, Eq, Structural)]
pub struct Bishop {
    pub color: PieceColor,
}

#[derive(Clone, Copy, Debug, PartialEq, Eq, Structural)]
pub struct Rook {
    pub color: PieceColor,
    pub has_moved: bool,
}

#[derive(Clone, Copy, Debug, PartialEq, Eq, Structural)]
pub struct Queen {
    pub color: PieceColor,
}

#[derive(Clone, Copy, Debug, PartialEq, Eq, Structural)]
pub struct King {
    pub color: PieceColor,
    pub has_moved: bool,
}

#[derive(Clone, Copy, Debug, PartialEq, Eq, Structural)]
pub struct Empty {}

/// What a square holds.
#[derive(Clone, Copy, Debug, PartialEq, Eq, Structural)]
pub enum Piece {
    Pawn(Pawn),
    Knight(Knight),
    Bishop(Bishop),
    Rook(Rook),
    Queen(Queen),
    King(King),
    Empty(Empty),
}

impl Piece {
    pub open spec fn color_of(&self) -> Option<PieceColor> {
        match self {
            Piece::Empty(_) => None,
            Piece::Pawn(p) => Some(p.color),
            Piece::Knight(k) => Some(k.color),
            Piece::Bishop(b) => Some(b.color),
            Piece::Rook(r) => Some(r.color),
            Piece::Queen(q) => Some(q.color),
            Piece::King(k) => Some(k.color),
        }
    }

    /// The piece after it has made a move: pawns, rooks and kings remember it.
    pub open spec fn after_moving(&self) -> Piece {
        match self {
            Piece::Pawn(p) => Piece::Pawn(Pawn { has_moved: true, ..*p }),
            Piece::Rook(r) => Piece::Rook(Rook { has_moved: true, ..*r }),
            Piece::King(k) => Piece::King(King { has_moved: true, ..*k }),
            _ => *self,
        }
    }

    /// The side of the piece, `None` for an empty square.
    #[verifier::when_used_as_spec(color_of)]
    pub fn color(&self) -> (r: Option<PieceColor>)
        ensures
            r == self.color_of(),
    {
        match self {
            Piece::Empty(_) => None,
            Piece::Pawn(p) => Some(p.color),
            Piece::Knight(k) => Some(k.color),
            Piece::Bishop(b) => Some(b.color),
            Piece::Rook(r) => Some(r.color),
            Piece::Queen(q) => Some(q.color),
            Piece::King(k) => Some(k.color),
        }
    }

    pub fn is_empty(&self) -> (r: bool)
        ensures
            r == (*self is Empty),
            r == (self.color() is None),
    {
        match self {
            Piece::Empty(_) => true,
            _ => false,
        }
    }

    /// Marks the piece as having moved; a no-op for kinds that keep no such state.
    pub fn become_moved(&mut self)
        ensures
            *final(self) == old(self).after_moving(),
    {
        match self {
            Piece::Pawn(p) => p.has_moved = true,
            Piece::Rook(r) => r.has_moved = true,
            Piece::King(k) => k.has_moved = true,
            _ => (),
        }
    }
}

/// The characters of the board-layout code: a letter per kind, upper case for
/// Black, lower case for White, `*` for an empty square.
pub open spec fn is_layout_char(c: char) -> bool {
    c == 'P' || c == 'N' || c == 'B' || c == 'R' || c == 'Q' || c == 'K' || c == 'p' || c == 'n'
        || c == 'b' || c == 'r' || c == 'q' || c == 'k' || c == '*'
}

pub open spec fn char_color(c: char) -> PieceColor {
    if c == 'p' || c == 'n' || c == 'b' || c == 'r' || c == 'q' || c == 'k' {
        PieceColor::White
    } else {
        PieceColor::Black
    }
}

/// The piece that a layout character stands for, in its unmoved state.
pub open spec fn piece_of_char(c: char) -> Piece {
    let color = char_color(c);
    if c == 'p' || c == 'P' {
        Piece::Pawn(Pawn { color, has_moved: false, can_en_passant_col: None })
    } else if c == 'n' || c == 'N' {
        Piece::Knight(Knight { color })
    } else if c == 'b' || c == 'B' {
        Piece::Bishop(Bishop { color })
    } else if c == 'r' || c == 'R' {
        Piece::Rook(Rook { color, has_moved: false })
    } else if c == 'q' || c == 'Q' {
        Piece::Queen(Queen { color })
    } else if c == 'k' || c == 'K' {
        Piece::King(King { color, has_moved: false })
    } else {
        Piece::Empty(Empty {})
    }
}

/// Decodes one character of the board-layout code.
pub fn piece_from_char(c: char) -> (r: Piece)
    requires
        is_layout_char(c),
    ensures
        r == piece_of_char(c),
{
    let color = if c == 'p' || c == 'n' || c == 'b' || c == 'r' || c == 'q' || c == 'k' {
        PieceColor::White
    } else {
        PieceColor::Black
    };
    if c == 'p' || c == 'P' {
        Piece::Pawn(Pawn { color, has_moved: false, can_en_passant_col: None })
    } else if c == 'n' || c == 'N' {
        Piece::Knight(Knight { color })
    } else if c == 'b' || c == 'B' {
        Piece::Bishop(Bishop { color })
    } else if c == 'r' || c == 'R' {
        Piece::Rook(Rook { color, has_moved: false })
    } else if c == 'q' || c == 'Q' {
        Piece::Queen(Queen { color })
    } else if c == 'k' || c == 'K' {
        Piece::King(King { color, has_moved: false })
    } else {
        Piece::Empty(Empty {})
    }
}

/// Coordinate reached from `x` after `k` steps in direction `d` (-1, 0 or 1).
pub open spec fn step(x: int, d: int, k: int) -> int {
    if d > 0 {
        x + k
    } else if d < 0 {
        x - k
    } else {
        x
    }
}

/// Number of steps in direction (dr, dc) from (r, c) to (tr, tc), for a
/// target that lies on that ray.
pub open spec fn ray_length(r: int, c: int, dr: int, dc: int, tr: int, tc: int) -> int {
    if dr > 0 {
        tr - r
    } else if dr < 0 {
        r - tr
    } else if dc > 0 {
        tc - c
    } else {
        c - tc
    }
}

/// (tr, tc) lies on the ray from (r, c) in direction (dr, dc), at least one step out.
pub open spec fn on_ray(r: int, c: int, dr: int, dc: int, tr: int, tc: int) -> bool {
    let k = ray_length(r, c, dr, dc, tr, tc);
    1 <= k && tr == step(r, dr, k) && tc == step(c, dc, k)
}

/// The first `k - 1` squares of the ray from (r, c) in direction (dr, dc) are empty.
pub open spec fn path_clear(p: Position, r: int, c: int, dr: int, dc: int, k: int) -> bool {
    forall|j: int| 1 <= j < k ==> #[trigger] p.is_empty_at(step(r, dr, j), step(c, dc, j))
}

/// A sliding piece of `color` on (r, c) reaches (tr, tc) along direction (dr, dc):
/// every square before the target is empty and the target holds no friendly piece.
pub open spec fn slides_to(
    p: Position,
    color: PieceColor,
    r: int,
    c: int,
    dr: int,
    dc: int,
    tr: int,
    tc: int,
) -> bool {
    let k = ray_length(r, c, dr, dc, tr, tc);
    &&& 1 <= k
    &&& tr == step(r, dr, k)
    &&& tc == step(c, dc, k)
    &&& on_board(tr, tc)
    &&& path_clear(p, r, c, dr, dc, k)
    &&& !p.holds(tr, tc, color)
}

/// Bishop movement: along the four diagonals.
pub open spec fn diagonal_reach(p: Position, color: PieceColor, r: int, c: int, tr: int, tc: int) -> bool {
    ||| slides_to(p, color, r, c, -1, -1, tr, tc)
    ||| slides_to(p, color, r, c, -1, 1, tr, tc)
    ||| slides_to(p, color, r, c, 1, -1, tr, tc)
    ||| slides_to(p, color, r, c, 1, 1, tr, tc)
}

/// Rook movement: along the row and the column.
pub open spec fn straight_reach(p: Position, color: PieceColor, r: int, c: int, tr: int, tc: int) -> bool {
    ||| slides_to(p, color, r, c, -1, 0, tr, tc)
    ||| slides_to(p, color, r, c, 1, 0, tr, tc)
    ||| slides_to(p, color, r, c, 0, -1, tr, tc)
    ||| slides_to(p, color, r, c, 0, 1, tr, tc)
}

/// A single step from (r, c) by (dr, dc) to (tr, tc), onto a square on the
/// board that holds no piece of `color`.
pub open spec fn steps_to(
    p: Position,
    color: PieceColor,
    r: int,
    c: int,
    dr: int,
    dc: int,
    tr: int,
    tc: int,
) -> bool {
    &&& tr == r + dr
    &&& tc == c + dc
    &&& on_board(tr, tc)
    &&& !p.holds(tr, tc, color)
}

pub open spec fn abs(x: int) -> int {
    if x < 0 {
        -x
    } else {
        x
    }
}

/// Knight movement: two squares one way and one square the other.
pub open spec fn knight_reach(p: Position, color: PieceColor, r: int, c: int, tr: int, tc: int) -> bool {
    &&& on_board(tr, tc)
    &&& !p.holds(tr, tc, color)
    &&& {
        ||| abs(tr - r) == 1 && abs(tc - c) == 2
        ||| abs(tr - r) == 2 && abs(tc - c) == 1
    }
}

/// King movement: one of the eight neighbouring squares.
pub open spec fn king_reach(p: Position, color: PieceColor, r: int, c: int, tr: int, tc: int) -> bool {
    &&& on_board(tr, tc)
    &&& !p.holds(tr, tc, color)
    &&& abs(tr - r) <= 1
    &&& abs(tc - c) <= 1
    &&& (tr != r || tc != c)
}

/// Pawn movement: one square forward onto an empty square; two squares forward
/// from an unmoved pawn over two empty squares; one square diagonally forward
/// onto an opposing piece; one square forward onto the en-passant column when
/// that column is set.
pub open spec fn pawn_reach(p: Position, pawn: Pawn, r: int, c: int, tr: int, tc: int) -> bool {
    let f = pawn.color.forward();
    &&& on_board(tr, tc)
    &&& !p.holds(tr, tc, pawn.color)
    &&& {
        ||| tr == r + f && tc == c && p.is_empty_at(tr, tc)
        ||| !pawn.has_moved && tr == r + 2 * f && tc == c && p.is_empty_at(r + f, c)
            && p.is_empty_at(tr, tc)
        ||| tr == r + f && (tc == c - 1 || tc == c + 1) && p.holds(tr, tc, pawn.color.other())
        ||| tr == r + f && pawn.can_en_passant_col == Some(tc as usize)
    }
}

impl Piece {
    /// The movement rule of this piece standing on (r, c): it may go to
    /// (tr, tc), before any regard for its own king.
    pub open spec fn reaches(self, p: Position, r: int, c: int, tr: int, tc: int) -> bool {
        match self {
            Piece::Pawn(pw) => pawn_reach(p, pw, r, c, tr, tc),
            Piece::Knight(k) => knight_reach(p, k.color, r, c, tr, tc),
            Piece::Bishop(b) => diagonal_reach(p, b.color, r, c, tr, tc),
            Piece::Rook(rk) => straight_reach(p, rk.color, r, c, tr, tc),
            Piece::Queen(q) => straight_reach(p, q.color, r, c, tr, tc) || diagonal_reach(
                p,
                q.color,
                r,
                c,
                tr,
                tc,
            ),
            Piece::King(k) => king_reach(p, k.color, r, c, tr, tc),
            Piece::Empty(_) => false,
        }
    }
}

/// Appends every square that a sliding piece of `color` on (row, col) reaches
/// in direction (dr, dc): the walk stops before a friendly piece and on an
/// opposing one.
fn push_ray(
    board: &Board,
    color: PieceColor,
    row: usize,
    col: usize,
    dr: i32,
    dc: i32,
    moves: &mut Vec<(usize, usize)>,
)
    requires
        row < 8,
        col < 8,
        -1 <= dr <= 1,
        -1 <= dc <= 1,
        dr != 0 || dc != 0,
        old(moves)@.no_duplicates(),
        forall|t: (usize, usize)|
            old(moves)@.contains(t) ==> !on_ray(
                row as int,
                col as int,
                dr as int,
                dc as int,
                t.0 as int,
                t.1 as int,
            ),
    ensures
        final(moves)@.no_duplicates(),
        forall|t: (usize, usize)|
            final(moves)@.contains(t) <==> (old(moves)@.contains(t) || slides_to(
                board@,
                color,
                row as int,
                col as int,
                dr as int,
                dc as int,
                t.0 as int,
                t.1 as int,
            )),
{
    let ghost p = board@;
    let mut k: i32 = 1;
    let mut tr: i32 = row as i32 + dr;
    let mut tc: i32 = col as i32 + dc;
    loop
        invariant_except_break
            forall|t: (usize, usize)|
                moves@.contains(t) <==> (old(moves)@.contains(t) || (slides_to(
                    p,
                    color,
                    row as int,
                    col as int,
                    dr as int,
                    dc as int,
                    t.0 as int,
                    t.1 as int,
                ) && ray_length(row as int, col as int, dr as int, dc as int, t.0 as int, t.1 as int)
                    < k)),
        invariant
            moves@.no_duplicates(),
            forall|t: (usize, usize)|
                old(moves)@.contains(t) ==> !on_ray(
                    row as int,
                    col as int,
                    dr as int,
                    dc as int,
                    t.0 as int,
                    t.1 as int,
                ),
            p == board@,
            row < 8,
            col < 8,
            -1 <= dr <= 1,
            -1 <= dc <= 1,
            dr != 0 || dc != 0,
            1 <= k <= 8,
            tr == step(row as int, dr as int, k as int),
            tc == step(col as int, dc as int, k as int),
            path_clear(p, row as int, col as int, dr as int, dc as int, k as int),
        ensures
            forall|t: (usize, usize)|
                moves@.contains(t) <==> (old(moves)@.contains(t) || slides_to(
                    p,
                    color,
                    row as int,
                    col as int,
                    dr as int,
                    dc as int,
                    t.0 as int,
                    t.1 as int,
                )),
        decreases 8 - k,
    {
        if tr < 0 || tr >= 8 || tc < 0 || tc >= 8 {
            assert forall|t: (usize, usize)|
                slides_to(
                    p,
                    color,
                    row as int,
                    col as int,
                    dr as int,
                    dc as int,
                    t.0 as int,
                    t.1 as int,
                ) implies ray_length(
                row as int,
                col as int,
                dr as int,
                dc as int,
                t.0 as int,
                t.1 as int,
            ) < k by {}
            break;
        }
        let dest = board.get_piece(tr as usize, tc as usize);
        assert(p.piece_at(step(row as int, dr as int, k as int), step(col as int, dc as int, k as int))
            == *dest);
        if dest.color() == Some(color) {
            assert forall|t: (usize, usize)|
                slides_to(
                    p,
                    color,
                    row as int,
                    col as int,
                    dr as int,
                    dc as int,
                    t.0 as int,
                    t.1 as int,
                ) implies ray_length(
                row as int,
                col as int,
                dr as int,
                dc as int,
                t.0 as int,
                t.1 as int,
            ) < k by {
                let l = ray_length(row as int, col as int, dr as int, dc as int, t.0 as int, t.1 as int);
                if l > k {
                    assert(p.is_empty_at(step(row as int, dr as int, k as int), step(col as int, dc as int, k as int)));
                }
            }
            break;
        }
        assert(slides_to(
            p,
            color,
            row as int,
            col as int,
            dr as int,
            dc as int,
            tr as int,
            tc as int,
        ));
        proof {
            lemma_push_new_square(moves@, (tr as usize, tc as usize));
        }
        moves.push((tr as usize, tc as usize));
        if !dest.is_empty() {
            assert forall|t: (usize, usize)|
                slides_to(
                    p,
                    color,
                    row as int,
                    col as int,
                    dr as int,
                    dc as int,
                    t.0 as int,
                    t.1 as int,
                ) implies ray_length(
                row as int,
                col as int,
                dr as int,
                dc as int,
                t.0 as int,
                t.1 as int,
            ) < k || t == (tr as usize, tc as usize) by {
                let l = ray_length(row as int, col as int, dr as int, dc as int, t.0 as int, t.1 as int);
                if l > k {
                    assert(p.is_empty_at(step(row as int, dr as int, k as int), step(col as int, dc as int, k as int)));
                }
            }
            break;
        }
        assert(path_clear(p, row as int, col as int, dr as int, dc as int, k + 1));
        tr = tr + dr;
        tc = tc + dc;
        k = k + 1;
    }
}

/// Appends (row + dr, col + dc) when it lies on the board and holds no piece of `color`.
fn push_step(
    board: &Board,
    color: PieceColor,
    row: usize,
    col: usize,
    dr: i32,
    dc: i32,
    moves: &mut Vec<(usize, usize)>,
)
    requires
        row < 8,
        col < 8,
        -2 <= dr <= 2,
        -2 <= dc <= 2,
        old(moves)@.no_duplicates(),
        forall|t: (usize, usize)|
            old(moves)@.contains(t) ==> !(t.0 == row + dr && t.1 == col + dc),
    ensures
        final(moves)@.no_duplicates(),
        forall|t: (usize, usize)|
            final(moves)@.contains(t) <==> (old(moves)@.contains(t) || steps_to(
                board@,
                color,
                row as int,
                col as int,
                dr as int,
                dc as int,
                t.0 as int,
                t.1 as int,
            )),
{
    let tr: i32 = row as i32 + dr;
    let tc: i32 = col as i32 + dc;
    if 0 <= tr && tr < 8 && 0 <= tc && tc < 8 {
        if board.get_piece(tr as usize, tc as usize).color() != Some(color) {
            proof {
                lemma_push_new_square(moves@, (tr as usize, tc as usize));
            }
            moves.push((tr as usize, tc as usize));
        }
    }
}

impl Bishop {
    /// The squares this bishop on (row, col) may move to, before any regard for its king.
    pub fn moves_to_consider(&self, row: usize, col: usize, board: &Board) -> (moves: Vec<(usize, usize)>)
        requires
            row < 8,
            col < 8,
        ensures
            moves@.no_duplicates(),
            forall|t: (usize, usize)|
                moves@.contains(t) <==> diagonal_reach(
                    board@,
                    self.color,
                    row as int,
                    col as int,
                    t.0 as int,
                    t.1 as int,
                ),
    {
        let mut moves = Vec::new();
        push_ray(board, self.color, row, col, -1, -1, &mut moves);
        push_ray(board, self.color, row, col, -1, 1, &mut moves);
        push_ray(board, self.color, row, col, 1, -1, &mut moves);
        push_ray(board, self.color, row, col, 1, 1, &mut moves);
        moves
    }
}

impl Rook {
    /// The squares this rook on (row, col) may move to, before any regard for its king.
    pub fn moves_to_consider(&self, row: usize, col: usize, board: &Board) -> (moves: Vec<(usize, usize)>)
        requires
            row < 8,
            col < 8,
        ensures
            moves@.no_duplicates(),
            forall|t: (usize, usize)|
                moves@.contains(t) <==> straight_reach(
                    board@,
                    self.color,
                    row as int,
                    col as int,
                    t.0 as int,
                    t.1 as int,
                ),
    {
        let mut moves = Vec::new();
        push_ray(board, self.color, row, col, -1, 0, &mut moves);
        push_ray(board, self.color, row, col, 1, 0, &mut moves);
        push_ray(board, self.color, row, col, 0, -1, &mut moves);
        push_ray(board, self.color, row, col, 0, 1, &mut moves);
        moves
    }
}

impl Queen {
    /// The squares this queen on (row, col) may move to, before any regard for its king.
    pub fn moves_to_consider(&self, row: usize, col: usize, board: &Board) -> (moves: Vec<(usize, usize)>)
        requires
            row < 8,
            col < 8,
        ensures
            moves@.no_duplicates(),
            forall|t: (usize, usize)|
                moves@.contains(t) <==> (straight_reach(
                    board@,
                    self.color,
                    row as int,
                    col as int,
                    t.0 as int,
                    t.1 as int,
                ) || diagonal_reach(board@, self.color, row as int, col as int, t.0 as int, t.1 as int)),
    {
        let mut moves = Vec::new();
        push_ray(board, self.color, row, col, -1, 0, &mut moves);
        push_ray(board, self.color, row, col, 1, 0, &mut moves);
        push_ray(board, self.color, row, col, 0, -1, &mut moves);
        push_ray(board, self.color, row, col, 0, 1, &mut moves);
        push_ray(board, self.color, row, col, -1, -1, &mut moves);
        push_ray(board, self.color, row, col, -1, 1, &mut moves);
        push_ray(board, self.color, row, col, 1, -1, &mut moves);
        push_ray(board, self.color, row, col, 1, 1, &mut moves);
        moves
    }
}

impl Pawn {
    /// The squares this pawn on (row, col) may move to, before any regard for its king.
    pub fn moves_to_consider(&self, row: usize, col: usize, board: &Board) -> (moves: Vec<(usize, usize)>)
        requires
            row < 8,
            col < 8,
        ensures
            moves@.no_duplicates(),
            forall|t: (usize, usize)|
                moves@.contains(t) <==> pawn_reach(
                    board@,
                    *self,
                    row as int,
                    col as int,
                    t.0 as int,
                    t.1 as int,
                ),
    {
        let mut moves: Vec<(usize, usize)> = Vec::new();
        let direction: i32 = match self.color {
            PieceColor::White => -1,
            PieceColor::Black => 1,
        };
        let ahead: i32 = row as i32 + direction;
        if 0 <= ahead && ahead < 8 {
            let ahead = ahead as usize;
            if board.get_piece(ahead, col).is_empty() {
                proof {
                    lemma_push_new_square(moves@, (ahead, col));
                }
                moves.push((ahead, col));
                let two_ahead: i32 = ahead as i32 + direction;
                if !self.has_moved && 0 <= two_ahead && two_ahead < 8 {
                    if board.get_piece(two_ahead as usize, col).is_empty() {
                        proof {
                            lemma_push_new_square(moves@, (two_ahead as usize, col));
                        }
                        moves.push((two_ahead as usize, col));
                    }
                }
            }
            let enemy = self.color.opposite();
            if col >= 1 && board.get_piece(ahead, col - 1).color() == Some(enemy) {
                proof {
                    lemma_push_new_square(moves@, (ahead, (col - 1) as usize));
                }
                moves.push((ahead, col - 1));
            }
            if col + 1 < 8 && board.get_piece(ahead, col + 1).color() == Some(enemy) {
                proof {
                    lemma_push_new_square(moves@, (ahead, (col + 1) as usize));
                }
                moves.push((ahead, col + 1));
            }
            match self.can_en_passant_col {
                Some(ep_col) => {
                    // The en-passant square may already be listed as a step
                    // or a capture; it is listed once.
                    if ep_col < 8 && board.get_piece(ahead, ep_col).color() != Some(self.color)
                        && !contains_square(&moves, (ahead, ep_col)) {
                        proof {
                            lemma_push_new_square(moves@, (ahead, ep_col));
                        }
                        moves.push((ahead, ep_col));
                    }
                },
                None => {},
            }
        }
        moves
    }
}

impl Knight {
    /// The squares this knight on (row, col) may move to, before any regard for its king.
    pub fn moves_to_consider(&self, row: usize, col: usize, board: &Board) -> (moves: Vec<(usize, usize)>)
        requires
            row < 8,
            col < 8,
        ensures
            moves@.no_duplicates(),
            forall|t: (usize, usize)|
                moves@.contains(t) <==> knight_reach(
                    board@,
                    self.color,
                    row as int,
                    col as int,
                    t.0 as int,
                    t.1 as int,
                ),
    {
        let mut moves = Vec::new();
        push_step(board, self.color, row, col, -1, -2, &mut moves);
        push_step(board, self.color, row, col, -2, -1, &mut moves);
        push_step(board, self.color, row, col, -2, 1, &mut moves);
        push_step(board, self.color, row, col, -1, 2, &mut moves);
        push_step(board, self.color, row, col, 1, -2, &mut moves);
        push_step(board, self.color, row, col, 2, -1, &mut moves);
        push_step(board, self.color, row, col, 2, 1, &mut moves);
        push_step(board, self.color, row, col, 1, 2, &mut moves);
        moves
    }
}

impl King {
    /// The squares this king on (row, col) may move to, before any regard for
    /// its own safety. Castling is not generated.
    pub fn moves_to_consider(&self, row: usize, col: usize, board: &Board) -> (moves: Vec<(usize, usize)>)
        requires
            row < 8,
            col < 8,
        ensures
            moves@.no_duplicates(),
            forall|t: (usize, usize)|
                moves@.contains(t) <==> king_reach(
                    board@,
                    self.color,
                    row as int,
                    col as int,
                    t.0 as int,
                    t.1 as int,
                ),
    {
        let mut moves = Vec::new();
        push_step(board, self.color, row, col, -1, -1, &mut moves);
        push_step(board, self.color, row, col, -1, 0, &mut moves);
        push_step(board, self.color, row, col, -1, 1, &mut moves);
        push_step(board, self.color, row, col, 0, -1, &mut moves);
        push_step(board, self.color, row, col, 0, 1, &mut moves);
        push_step(board, self.color, row, col, 1, -1, &mut moves);
        push_step(board, self.color, row, col, 1, 0, &mut moves);
        push_step(board, self.color, row, col, 1, 1, &mut moves);
        moves
    }
}

impl Piece {
    /// The squares this piece on (row, col) may move to by its kind's rule,
    /// before any regard for its own king. Nothing for an empty square.
    pub fn moves_to_consider(&self, row: usize, col: usize, board: &Board) -> (moves: Vec<(usize, usize)>)
        requires
            row < 8,
            col < 8,
        ensures
            moves@.no_duplicates(),
            forall|t: (usize, usize)|
                moves@.contains(t) <==> self.reaches(
                    board@,
                    row as int,
                    col as int,
                    t.0 as int,
                    t.1 as int,
                ),
    {
        match self {
            Piece::Empty(_) => Vec::new(),
            Piece::Pawn(p) => p.moves_to_consider(row, col, board),
            Piece::Knight(k) => k.moves_to_consider(row, col, board),
            Piece::Bishop(b) => b.moves_to_consider(row, col, board),
            Piece::Rook(r) => r.moves_to_consider(row, col, board),
            Piece::Queen(q) => q.moves_to_consider(row, col, board),
            Piece::King(k) => k.moves_to_consider(row, col, board),
        }
    }
}

} // verus!
