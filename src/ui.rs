//! The decisions behind the board's graphical front end: which square is
//! selected, what a click on a square does, and which image shows a piece.
use vstd::prelude::*;

use crate::board::piece::{Piece, PieceColor};
use crate::board::{Board, MoveType, Position};

verus! {

/// The square that was clicked first and waits for a destination, if any.
pub struct UIBoardState {
    pressed_piece: Option<(usize, usize)>,
}

impl View for UIBoardState {
    type V = Option<(usize, usize)>;

    closed spec fn view(&self) -> Option<(usize, usize)> {
        self.pressed_piece
    }
}

/// A selected square lies on the board.
pub open spec fn selection_ok(s: Option<(usize, usize)>) -> bool {
    s matches Some(sq) ==> sq.0 < 8 && sq.1 < 8
}

/// What the front end shows after a click.
pub enum ClickOutcome {
    /// A move was played from `from` to `to`; `checkmate` tells that the side
    /// now to move has a king and no legal move.
    Moved { from: (usize, usize), to: (usize, usize), kind: MoveType, checkmate: bool },
    /// `square` is now selected and `moves` are its legal moves.
    Selected { square: (usize, usize), moves: Vec<(usize, usize)> },
    /// The click was no legal move and did not select a piece of the side to move.
    Cleared,
}

impl UIBoardState {
    /// No square selected.
    pub fn new() -> (r: UIBoardState)
        ensures
            r@ is None,
    {
        UIBoardState { pressed_piece: None }
    }

    /// A click on `square`. With a square already selected, the click plays
    /// the move from it when that move is legal; otherwise it selects
    /// `square` when that holds a piece of the side to move, and clears the
    /// selection when not. With nothing selected, the click selects `square`.
    pub fn click(&mut self, board: &mut Board, square: (usize, usize)) -> (r: ClickOutcome)
        requires
            selection_ok(old(self)@),
            square.0 < 8,
            square.1 < 8,
            old(board)@.has_king(old(board)@.turn),
        ensures
            selection_ok(final(self)@),
            match old(self)@ {
                Some(from) => if old(board)@.legal_move(
                    from.0 as int,
                    from.1 as int,
                    square.0 as int,
                    square.1 as int,
                ) {
                    &&& final(board)@ == old(board)@.play(
                        from.0 as int,
                        from.1 as int,
                        square.0 as int,
                        square.1 as int,
                    )
                    &&& final(self)@ is None
                    &&& r matches ClickOutcome::Moved { from: f, to, kind, checkmate }
                    &&& f == from
                    &&& to == square
                    &&& kind == old(board)@.move_kind(
                        from.0 as int,
                        from.1 as int,
                        square.0 as int,
                        square.1 as int,
                    )
                    &&& checkmate == (final(board)@.has_king(final(board)@.turn)
                        && final(board)@.no_legal_moves())
                } else if old(board)@.holds(square.0 as int, square.1 as int, old(board)@.turn) {
                    &&& *final(board) == *old(board)
                    &&& selects(r, final(self)@, old(board)@, square)
                } else {
                    &&& *final(board) == *old(board)
                    &&& final(self)@ is None
                    &&& r is Cleared
                },
                None => {
                    &&& *final(board) == *old(board)
                    &&& selects(r, final(self)@, old(board)@, square)
                },
            },
    {
        match self.pressed_piece {
            Some(from) => {
                self.pressed_piece = None;
                match board.try_move_piece(from, square) {
                    Ok(kind) => {
                        let checkmate = board.has_king(board.turn()) && board.is_checkmate();
                        ClickOutcome::Moved { from, to: square, kind, checkmate }
                    },
                    Err(_) => {
                        if board.get_piece(square.0, square.1).color() == Some(board.turn()) {
                            self.pressed_piece = Some(square);
                            let moves = board.get_legal_moves(square);
                            ClickOutcome::Selected { square, moves }
                        } else {
                            ClickOutcome::Cleared
                        }
                    },
                }
            },
            None => {
                self.pressed_piece = Some(square);
                let moves = board.get_legal_moves(square);
                ClickOutcome::Selected { square, moves }
            },
        }
    }
}

/// `square` is selected and the outcome lists exactly its legal moves in `p`.
pub open spec fn selects(
    r: ClickOutcome,
    selected: Option<(usize, usize)>,
    p: Position,
    square: (usize, usize),
) -> bool {
    &&& selected == Some(square)
    &&& r matches ClickOutcome::Selected { square: s, moves }
    &&& s == square
    &&& forall|t: (usize, usize)|
        moves@.contains(t) <==> p.legal_move(square.0 as int, square.1 as int, t.0 as int, t.1 as int)
}

/// Letter of a piece's kind and of its shade (`l` for White, `d` for Black)
/// in the name of its image; none for an empty square.
pub open spec fn image_code_of(piece: Piece) -> Option<(char, char)> {
    match piece {
        Piece::Pawn(p) => Some(('p', shade_of(p.color))),
        Piece::Knight(n) => Some(('n', shade_of(n.color))),
        Piece::Bishop(b) => Some(('b', shade_of(b.color))),
        Piece::Rook(r) => Some(('r', shade_of(r.color))),
        Piece::Queen(q) => Some(('q', shade_of(q.color))),
        Piece::King(k) => Some(('k', shade_of(k.color))),
        Piece::Empty(_) => None,
    }
}

pub open spec fn shade_of(color: PieceColor) -> char {
    match color {
        PieceColor::White => 'l',
        PieceColor::Black => 'd',
    }
}

/// The kind and shade letters that name the image of `piece`.
pub fn image_code(piece: &Piece) -> (r: Option<(char, char)>)
    ensures
        r == image_code_of(*piece),
{
    let (kind, color) = match piece {
        Piece::Pawn(p) => ('p', p.color),
        Piece::Knight(n) => ('n', n.color),
        Piece::Bishop(b) => ('b', b.color),
        Piece::Rook(r) => ('r', r.color),
        Piece::Queen(q) => ('q', q.color),
        Piece::King(k) => ('k', k.color),
        Piece::Empty(_) => {
            return None;
        },
    };
    let shade = match color {
        PieceColor::White => 'l',
        PieceColor::Black => 'd',
    };
    Some((kind, shade))
}

} // verus!
