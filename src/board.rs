//! The board: 64 squares and the side to move.
pub mod laws;
pub mod piece;

use vstd::prelude::*;

use piece::{
    is_layout_char, piece_from_char, piece_of_char, Empty, Piece, PieceColor, Queen,
};

verus! {

broadcast use {vstd::seq_lib::lemma_seq_contains_after_push, vstd::seq::Seq::lemma_filter_push};

/// A square lies on the board.
pub open spec fn on_board(r: int, c: int) -> bool {
    0 <= r < 8 && 0 <= c < 8
}

/// The mathematical model of a board: the 64 squares in row-major order and
/// the side to move.
pub struct Position {
    pub cells: Seq<Piece>,
    pub turn: PieceColor,
}

impl Position {
    /// Exactly 64 squares.
    pub open spec fn wf(self) -> bool {
        self.cells.len() == 64
    }

    pub open spec fn piece_at(self, r: int, c: int) -> Piece {
        self.cells[r * 8 + c]
    }

    pub open spec fn is_empty_at(self, r: int, c: int) -> bool {
        self.piece_at(r, c) is Empty
    }

    /// The square holds a piece of `color`.
    pub open spec fn holds(self, r: int, c: int, color: PieceColor) -> bool {
        self.piece_at(r, c).color() == Some(color)
    }

    /// The piece on (r, c) may move to (tr, tc) by its kind's rule, before
    /// any regard for its own king.
    pub open spec fn candidate(self, r: int, c: int, tr: int, tc: int) -> bool {
        self.piece_at(r, c).reaches(self, r, c, tr, tc)
    }

    /// The position after the piece on (fr, fc) goes to (tr, tc), without
    /// promotion: the origin is emptied, the piece is marked as moved, and the
    /// other side is to move.
    pub open spec fn after_move(self, fr: int, fc: int, tr: int, tc: int) -> Position {
        Position {
            cells: self.cells.update(tr * 8 + tc, self.piece_at(fr, fc).after_moving()).update(
                fr * 8 + fc,
                Piece::Empty(Empty {}),
            ),
            turn: self.turn.other(),
        }
    }

    /// Index, in row-major order, of the first square from `i` on that holds
    /// a king of `color`; 64 when there is none.
    pub open spec fn king_from(self, color: PieceColor, i: int) -> int
        decreases 64 - i,
    {
        if i >= 64 {
            64
        } else if is_king_of(self.cells[i], color) {
            i
        } else {
            self.king_from(color, i + 1)
        }
    }

    /// A king of `color` stands on the board.
    pub open spec fn has_king(self, color: PieceColor) -> bool {
        exists|i: int| 0 <= i < 64 && #[trigger] is_king_of(self.cells[i], color)
    }

    /// Some piece of `by` may move to (tr, tc) by its kind's rule.
    pub open spec fn attacked(self, tr: int, tc: int, by: PieceColor) -> bool {
        exists|r: int, c: int|
            on_board(r, c) && self.holds(r, c, by) && #[trigger] self.candidate(r, c, tr, tc)
    }

    /// The king of `color` (the first one in row-major order) is attacked by
    /// the other side.
    pub open spec fn in_check(self, color: PieceColor) -> bool {
        let k = self.king_from(color, 0);
        k < 64 && self.attacked(k / 8, k % 8, color.other())
    }

    /// The side to move may play (fr, fc) to (tr, tc): a piece of its own
    /// stands on the origin, its rule allows the target, and afterwards its
    /// king is not attacked.
    pub open spec fn legal_move(self, fr: int, fc: int, tr: int, tc: int) -> bool {
        &&& on_board(fr, fc)
        &&& self.holds(fr, fc, self.turn)
        &&& self.candidate(fr, fc, tr, tc)
        &&& !self.after_move(fr, fc, tr, tc).in_check(self.turn)
    }

    /// The side to move has no legal move anywhere on the board.
    pub open spec fn no_legal_moves(self) -> bool {
        forall|fr: int, fc: int, tr: int, tc: int| !#[trigger] self.legal_move(fr, fc, tr, tc)
    }

    /// A pawn stands on (r, c) on the farthest row for its side.
    pub open spec fn promotes(self, r: int, c: int) -> bool {
        match self.piece_at(r, c) {
            Piece::Pawn(p) => (p.color == PieceColor::White && r == 0) || (p.color
                == PieceColor::Black && r == 7),
            _ => false,
        }
    }

    /// A promoting pawn on (r, c) replaced by a queen of its side.
    pub open spec fn promoted(self, r: int, c: int) -> Position {
        if self.promotes(r, c) {
            Position {
                cells: self.cells.update(
                    r * 8 + c,
                    Piece::Queen(Queen { color: self.piece_at(r, c).color().unwrap() }),
                ),
                turn: self.turn,
            }
        } else {
            self
        }
    }

    /// The position after the move (fr, fc) to (tr, tc) is played, promotion included.
    pub open spec fn play(self, fr: int, fc: int, tr: int, tc: int) -> Position {
        self.after_move(fr, fc, tr, tc).promoted(tr, tc)
    }

    /// What a successful move reports.
    pub open spec fn move_kind(self, fr: int, fc: int, tr: int, tc: int) -> MoveType {
        let moved = self.after_move(fr, fc, tr, tc);
        if moved.promotes(tr, tc) {
            MoveType::Promotion(Piece::Queen(Queen { color: self.turn }))
        } else {
            MoveType::Capture
        }
    }

    /// The standard starting layout with White to move.
    pub open spec fn initial() -> Position {
        Position { cells: Seq::new(64, |i: int| piece_of_char(start_char(i))), turn: PieceColor::White }
    }
}

pub open spec fn is_king_of(p: Piece, color: PieceColor) -> bool {
    p matches Piece::King(k) && k.color == color
}

/// Layout character of the back rank at column `c`, in White's lower case.
pub open spec fn back_rank_char(c: int) -> char {
    if c == 0 || c == 7 {
        'r'
    } else if c == 1 || c == 6 {
        'n'
    } else if c == 2 || c == 5 {
        'b'
    } else if c == 3 {
        'q'
    } else {
        'k'
    }
}

pub open spec fn upper(c: char) -> char {
    if c == 'r' {
        'R'
    } else if c == 'n' {
        'N'
    } else if c == 'b' {
        'B'
    } else if c == 'q' {
        'Q'
    } else {
        'K'
    }
}

/// Layout character of square `i` (row-major) in the starting position:
/// Black's pieces on rows 0 and 1, White's on rows 6 and 7.
pub open spec fn start_char(i: int) -> char {
    if i < 8 {
        upper(back_rank_char(i))
    } else if i < 16 {
        'P'
    } else if i < 48 {
        '*'
    } else if i < 56 {
        'p'
    } else {
        back_rank_char(i - 56)
    }
}

/// The result of a move that was played.
#[derive(Clone, Copy, Debug, PartialEq, Eq, Structural)]
pub enum MoveType {
    Capture,
    Move,
    Castle,
    EnPassant,
    Promotion(Piece),
}

/// A chess board with the side to move.
#[derive(Clone, Copy, Debug, PartialEq)]
pub struct Board {
    board: [Piece; 64],
    pub turn_player: PieceColor,
}

impl View for Board {
    type V = Position;

    closed spec fn view(&self) -> Position {
        Position { cells: self.board@, turn: self.turn_player }
    }
}

/// A board always has exactly 64 squares.
pub broadcast proof fn lemma_board_wf(b: &Board)
    ensures
        #[trigger] b@.wf(),
{
}

impl Board {
    /// The side to move.
    pub fn turn(&self) -> (r: PieceColor)
        ensures
            r == self@.turn,
    {
        self.turn_player
    }

    pub fn get_piece(&self, row: usize, col: usize) -> (r: &Piece)
        requires
            row < 8,
            col < 8,
        ensures
            *r == self@.piece_at(row as int, col as int),
    {
        &self.board[row * 8 + col]
    }

    /// Overwrites one square.
    pub fn set_piece(&mut self, row: usize, col: usize, piece: Piece)
        requires
            row < 8,
            col < 8,
        ensures
            final(self)@ == (Position {
                cells: old(self)@.cells.update(row * 8 + col, piece),
                turn: old(self)@.turn,
            }),
    {
        self.board[row * 8 + col] = piece;
    }

    /// Plays `from` to `to` when it is a legal move: the piece goes to `to`,
    /// `from` is emptied, the piece is marked as moved, a pawn on the farthest
    /// row becomes a queen, and the turn passes. Otherwise nothing changes.
    pub fn try_move_piece(&mut self, from: (usize, usize), to: (usize, usize)) -> (r: Result<
        MoveType,
        &str,
    >)
        requires
            from.0 < 8,
            from.1 < 8,
            old(self)@.has_king(old(self)@.turn),
        ensures
            r is Ok <==> old(self)@.legal_move(from.0 as int, from.1 as int, to.0 as int, to.1 as int),
            r is Ok ==> final(self)@ == old(self)@.play(
                from.0 as int,
                from.1 as int,
                to.0 as int,
                to.1 as int,
            ),
            r is Ok ==> r->Ok_0 == old(self)@.move_kind(
                from.0 as int,
                from.1 as int,
                to.0 as int,
                to.1 as int,
            ),
            r is Ok ==> final(self)@.turn == old(self)@.turn.other(),
            r is Err ==> *final(self) == *old(self),
            r is Err ==> final(self)@ == old(self)@,
    {
        let legal_moves = self.get_legal_moves(from);
        if contains_square(&legal_moves, to) {
            proof {
                lemma_candidate_target(self@, from.0 as int, from.1 as int, to.0 as int, to.1 as int);
            }
            self.move_piece(from, to);
            let landed = *self.get_piece(to.0, to.1);
            if let Piece::Pawn(p) = landed {
                if (p.color == PieceColor::White && to.0 == 0) || (p.color == PieceColor::Black && to.0
                    == 7) {
                    let cur_color = p.color;
                    self.set_piece(to.0, to.1, Piece::Queen(Queen { color: p.color }));
                    return Ok(MoveType::Promotion(Piece::Queen(Queen { color: cur_color })));
                }
            }
            return Ok(MoveType::Capture);
        }
        Err("Invalid move")
    }

    /// Whether the side to move has no legal move anywhere on the board
    /// (checkmate or stalemate).
    pub fn is_checkmate(&self) -> (r: bool)
        requires
            self@.has_king(self@.turn),
        ensures
            r == self@.no_legal_moves(),
    {
        let cur_player = self.turn_player;
        let mut row: usize = 0;
        while row < 8
            invariant
                row <= 8,
                cur_player == self@.turn,
                self@.has_king(self@.turn),
                forall|fr: int, fc: int, tr: int, tc: int|
                    on_board(fr, fc) && fr < row ==> !#[trigger] self@.legal_move(fr, fc, tr, tc),
            decreases 8 - row,
        {
            let mut col: usize = 0;
            while col < 8
                invariant
                    row < 8,
                    col <= 8,
                    cur_player == self@.turn,
                    self@.has_king(self@.turn),
                    forall|fr: int, fc: int, tr: int, tc: int|
                        on_board(fr, fc) && (fr < row || (fr == row && fc < col))
                            ==> !#[trigger] self@.legal_move(fr, fc, tr, tc),
                decreases 8 - col,
            {
                if self.get_piece(row, col).color() == Some(cur_player) {
                    let legal_moves = self.get_legal_moves((row, col));
                    if legal_moves.len() != 0 {
                        assert(legal_moves@.contains(legal_moves@[0]));
                        return false;
                    }
                    assert forall|tr: int, tc: int|
                        !#[trigger] self@.legal_move(row as int, col as int, tr, tc) by {
                        if self@.legal_move(row as int, col as int, tr, tc) {
                            lemma_candidate_target(self@, row as int, col as int, tr, tc);
                            assert(legal_moves@.contains((tr as usize, tc as usize)));
                        }
                    }
                }
                col = col + 1;
            }
            row = row + 1;
        }
        true
    }

    /// Moves the piece on `from` to `to`, empties `from`, marks the piece as
    /// moved and passes the turn. No promotion.
    fn move_piece(&mut self, from: (usize, usize), to: (usize, usize))
        requires
            from.0 < 8,
            from.1 < 8,
            to.0 < 8,
            to.1 < 8,
        ensures
            final(self)@ == old(self)@.after_move(
                from.0 as int,
                from.1 as int,
                to.0 as int,
                to.1 as int,
            ),
    {
        let (from_row, from_col) = from;
        let (to_row, to_col) = to;
        let mut piece = self.board[from_row * 8 + from_col];
        piece.become_moved();
        self.board[to_row * 8 + to_col] = piece;
        self.board[from_row * 8 + from_col] = Piece::Empty(Empty {});
        self.turn_player = self.turn_player.opposite();
    }

    /// The squares the piece on `from` may move to by its kind's rule, when
    /// it belongs to the side to move; nothing otherwise.
    fn get_valid_moves_to_consider(&self, from: (usize, usize)) -> (moves: Vec<(usize, usize)>)
        requires
            from.0 < 8,
            from.1 < 8,
        ensures
            moves@.no_duplicates(),
            forall|t: (usize, usize)|
                moves@.contains(t) <==> (self@.holds(from.0 as int, from.1 as int, self@.turn)
                    && self@.candidate(from.0 as int, from.1 as int, t.0 as int, t.1 as int)),
    {
        let (from_row, from_col) = from;
        let piece = self.get_piece(from_row, from_col);
        if piece.color() != Some(self.turn_player) {
            return Vec::new();
        }
        piece.moves_to_consider(from_row, from_col, self)
    }

    /// Whether the king of `color` is attacked by a piece of the other side.
    fn king_still_in_check(&self, color: PieceColor) -> (r: bool)
        requires
            self@.has_king(color),
        ensures
            r == self@.in_check(color),
    {
        let king_position = self.get_king_position(color);
        let ghost (kr, kc) = (king_position.0 as int, king_position.1 as int);
        assert(kr == self@.king_from(color, 0) / 8 && kc == self@.king_from(color, 0) % 8);
        let attacking_color = color.opposite();
        let mut row: usize = 0;
        while row < 8
            invariant
                row <= 8,
                kr == king_position.0,
                kc == king_position.1,
                self@.king_from(color, 0) < 64,
                kr == self@.king_from(color, 0) / 8,
                kc == self@.king_from(color, 0) % 8,
                kr < 8,
                kc < 8,
                attacking_color == color.other(),
                forall|r: int, c: int|
                    on_board(r, c) && r < row ==> !(self@.holds(r, c, attacking_color)
                        && #[trigger] self@.candidate(r, c, kr, kc)),
            decreases 8 - row,
        {
            let mut col: usize = 0;
            while col < 8
                invariant
                    row < 8,
                    col <= 8,
                    kr == king_position.0,
                    kc == king_position.1,
                    self@.king_from(color, 0) < 64,
                    kr == self@.king_from(color, 0) / 8,
                    kc == self@.king_from(color, 0) % 8,
                    kr < 8,
                    kc < 8,
                    attacking_color == color.other(),
                    forall|r: int, c: int|
                        on_board(r, c) && (r < row || (r == row && c < col)) ==> !(self@.holds(
                            r,
                            c,
                            attacking_color,
                        ) && #[trigger] self@.candidate(r, c, kr, kc)),
                decreases 8 - col,
            {
                let piece = self.get_piece(row, col);
                if piece.color() == Some(attacking_color) {
                    let moves = piece.moves_to_consider(row, col, self);
                    if contains_square(&moves, king_position) {
                        assert(self@.candidate(row as int, col as int, kr, kc));
                        return true;
                    }
                }
                col = col + 1;
            }
            row = row + 1;
        }
        false
    }

    /// Keeps the moves from `from` after which the mover's king is not attacked.
    fn filter_legal_moves_check(&self, from: (usize, usize), moves: &Vec<(usize, usize)>) -> (r: Vec<
        (usize, usize),
    >)
        requires
            from.0 < 8,
            from.1 < 8,
            self@.has_king(self@.turn),
            moves@.no_duplicates(),
            forall|t: (usize, usize)|
                moves@.contains(t) ==> self@.holds(from.0 as int, from.1 as int, self@.turn)
                    && self@.candidate(from.0 as int, from.1 as int, t.0 as int, t.1 as int),
        ensures
            r@ == moves@.filter(
                |t: (usize, usize)|
                    !self@.after_move(from.0 as int, from.1 as int, t.0 as int, t.1 as int).in_check(
                        self@.turn,
                    ),
            ),
            r@.no_duplicates(),
            forall|t: (usize, usize)|
                r@.contains(t) <==> (moves@.contains(t) && !self@.after_move(
                    from.0 as int,
                    from.1 as int,
                    t.0 as int,
                    t.1 as int,
                ).in_check(self@.turn)),
    {
        let mut res: Vec<(usize, usize)> = Vec::new();
        let mut i: usize = 0;
        while i < moves.len()
            invariant
                i <= moves.len(),
                from.0 < 8,
                from.1 < 8,
                self@.has_king(self@.turn),
                moves@.no_duplicates(),
                res@.no_duplicates(),
                res@ == moves@.take(i as int).filter(
                    |t: (usize, usize)|
                        !self@.after_move(from.0 as int, from.1 as int, t.0 as int, t.1 as int).in_check(
                            self@.turn,
                        ),
                ),
                forall|t: (usize, usize)|
                    moves@.contains(t) ==> self@.holds(from.0 as int, from.1 as int, self@.turn)
                        && self@.candidate(from.0 as int, from.1 as int, t.0 as int, t.1 as int),
                forall|t: (usize, usize)|
                    res@.contains(t) <==> ((exists|j: int| 0 <= j < i && moves@[j] == t)
                        && !self@.after_move(
                        from.0 as int,
                        from.1 as int,
                        t.0 as int,
                        t.1 as int,
                    ).in_check(self@.turn)),
            decreases moves.len() - i,
        {
            let to = moves[i];
            assert(moves@.contains(to));
            proof {
                lemma_candidate_target(self@, from.0 as int, from.1 as int, to.0 as int, to.1 as int);
                lemma_move_keeps_king(self@, from.0 as int, from.1 as int, to.0 as int, to.1 as int);
            }
            let mut board = *self;
            let cur_player = board.turn_player;
            board.move_piece(from, to);
            let safe = !board.king_still_in_check(cur_player);
            assert(moves@.take(i + 1) =~= moves@.take(i as int).push(to));
            if safe {
                proof {
                    if res@.contains(to) {
                        let j = choose|j: int| 0 <= j < i && moves@[j] == to;
                        assert(moves@[j] == moves@[i as int]);
                    }
                    lemma_push_new_square(res@, to);
                }
                res.push(to);
            }
            assert forall|t: (usize, usize)|
                res@.contains(t) <==> ((exists|j: int| 0 <= j < i + 1 && moves@[j] == t)
                    && !self@.after_move(
                    from.0 as int,
                    from.1 as int,
                    t.0 as int,
                    t.1 as int,
                ).in_check(self@.turn)) by {
                assert(moves@[i as int] == to);
                if exists|j: int| 0 <= j < i + 1 && moves@[j] == t {
                    let j = choose|j: int| 0 <= j < i + 1 && moves@[j] == t;
                    if j < i {
                        assert(exists|j: int| 0 <= j < i && moves@[j] == t);
                    }
                }
                if t == to {
                    assert(exists|j: int| 0 <= j < i + 1 && moves@[j] == t);
                }
            }
            i = i + 1;
        }
        assert(moves@.take(moves@.len() as int) =~= moves@);
        res
    }

    /// The legal moves of the piece on `from`: empty unless it belongs to the
    /// side to move; otherwise the targets of its rule after which its own
    /// king is not attacked.
    pub fn get_legal_moves(&self, from: (usize, usize)) -> (moves: Vec<(usize, usize)>)
        requires
            from.0 < 8,
            from.1 < 8,
            self@.has_king(self@.turn),
        ensures
            moves@.no_duplicates(),
            forall|t: (usize, usize)|
                moves@.contains(t) <==> self@.legal_move(
                    from.0 as int,
                    from.1 as int,
                    t.0 as int,
                    t.1 as int,
                ),
    {
        let moves = self.get_valid_moves_to_consider(from);
        self.filter_legal_moves_check(from, &moves)
    }

    /// Whether a king of `color` stands on the board.
    pub fn has_king(&self, color: PieceColor) -> (r: bool)
        ensures
            r == self@.has_king(color),
    {
        proof {
            lemma_king_from(self@, color, 0);
        }
        let mut i: usize = 0;
        while i < 64
            invariant
                i <= 64,
                self@.king_from(color, 0) == self@.king_from(color, i as int),
            decreases 64 - i,
        {
            match self.board[i] {
                Piece::King(k) => {
                    if k.color == color {
                        return true;
                    }
                },
                _ => {},
            }
            i = i + 1;
        }
        false
    }

    /// The square of the first king of `color` in row-major order.
    pub fn get_king_position(&self, color: PieceColor) -> (r: (usize, usize))
        requires
            self@.has_king(color),
        ensures
            r.0 < 8,
            r.1 < 8,
            r.0 * 8 + r.1 == self@.king_from(color, 0),
    {
        proof {
            lemma_king_from(self@, color, 0);
        }
        let mut i: usize = 0;
        loop
            invariant
                i < 64,
                self@.king_from(color, 0) == self@.king_from(color, i as int),
                self@.king_from(color, 0) < 64,
            decreases 64 - i,
        {
            match self.board[i] {
                Piece::King(k) => {
                    if k.color == color {
                        return (i / 8, i % 8);
                    }
                },
                _ => {},
            }
            proof {
                lemma_king_from(self@, color, i + 1);
            }
            i = i + 1;
        }
    }
}

/// Layout character of square `i` (row-major) in the starting position.
fn starting_char(i: usize) -> (c: char)
    requires
        i < 64,
    ensures
        c == start_char(i as int),
        is_layout_char(c),
{
    if i < 8 || i >= 56 {
        let col = if i < 8 {
            i
        } else {
            i - 56
        };
        if i < 8 {
            if col == 0 || col == 7 {
                'R'
            } else if col == 1 || col == 6 {
                'N'
            } else if col == 2 || col == 5 {
                'B'
            } else if col == 3 {
                'Q'
            } else {
                'K'
            }
        } else {
            if col == 0 || col == 7 {
                'r'
            } else if col == 1 || col == 6 {
                'n'
            } else if col == 2 || col == 5 {
                'b'
            } else if col == 3 {
                'q'
            } else {
                'k'
            }
        }
    } else if i < 16 {
        'P'
    } else if i < 48 {
        '*'
    } else {
        'p'
    }
}

impl Default for Board {
    /// The standard starting position, White to move.
    fn default() -> (r: Board)
        ensures
            r@ == Position::initial(),
    {
        let mut board = [Piece::Empty(Empty {}); 64];
        let mut i: usize = 0;
        while i < 64
            invariant
                i <= 64,
                forall|j: int| 0 <= j < i ==> board@[j] == piece_of_char(start_char(j)),
            decreases 64 - i,
        {
            board[i] = piece_from_char(starting_char(i));
            i = i + 1;
        }
        let r = Board { board, turn_player: PieceColor::White };
        assert(r@.cells =~= Position::initial().cells);
        r
    }
}

/// A move allowed by a piece's rule ends on the board, on a square that holds
/// no piece of the mover's side.
pub proof fn lemma_candidate_target(p: Position, r: int, c: int, tr: int, tc: int)
    requires
        p.candidate(r, c, tr, tc),
    ensures
        on_board(tr, tc),
        p.piece_at(r, c).color() is Some,
        !p.holds(tr, tc, p.piece_at(r, c).color().unwrap()),
{
}

/// After the side to move plays a move allowed by a piece's rule, it still
/// has a king.
proof fn lemma_move_keeps_king(p: Position, fr: int, fc: int, tr: int, tc: int)
    requires
        p.wf(),
        on_board(fr, fc),
        p.holds(fr, fc, p.turn),
        p.candidate(fr, fc, tr, tc),
        p.has_king(p.turn),
    ensures
        p.after_move(fr, fc, tr, tc).has_king(p.turn),
{
    lemma_candidate_target(p, fr, fc, tr, tc);
    let q = p.after_move(fr, fc, tr, tc);
    let i = choose|i: int| 0 <= i < 64 && #[trigger] is_king_of(p.cells[i], p.turn);
    if i == fr * 8 + fc {
        assert(is_king_of(q.cells[tr * 8 + tc], p.turn));
    } else {
        assert(i != tr * 8 + tc);
        assert(is_king_of(q.cells[i], p.turn));
    }
}

/// Pushing a square that is not yet listed keeps the list free of repeats.
proof fn lemma_push_new_square(s: Seq<(usize, usize)>, x: (usize, usize))
    requires
        s.no_duplicates(),
        !s.contains(x),
    ensures
        s.push(x).no_duplicates(),
{
    assert forall|i: int, j: int|
        0 <= i < s.len() + 1 && 0 <= j < s.len() + 1 && i != j implies s.push(x)[i] != s.push(x)[j] by {
        if i == s.len() {
            assert(s.contains(s[j]));
        } else if j == s.len() {
            assert(s.contains(s[i]));
        }
    }
}

/// Whether `sq` is one of `moves`.
fn contains_square(moves: &Vec<(usize, usize)>, sq: (usize, usize)) -> (r: bool)
    ensures
        r == moves@.contains(sq),
{
    let mut i: usize = 0;
    while i < moves.len()
        invariant
            i <= moves.len(),
            forall|j: int| 0 <= j < i ==> moves@[j] != sq,
        decreases moves.len() - i,
    {
        if moves[i].0 == sq.0 && moves[i].1 == sq.1 {
            assert(moves@[i as int] == sq);
            return true;
        }
        i = i + 1;
    }
    false
}

/// The first king from index `i` on is a king of `color` and stands at or
/// after `i`; there is one exactly when some square from `i` on holds one.
proof fn lemma_king_from(p: Position, color: PieceColor, i: int)
    requires
        0 <= i <= 64,
    ensures
        i <= p.king_from(color, i) <= 64,
        p.king_from(color, i) < 64 ==> is_king_of(p.cells[p.king_from(color, i)], color),
        p.king_from(color, i) < 64 <==> exists|j: int|
            i <= j < 64 && #[trigger] is_king_of(p.cells[j], color),
    decreases 64 - i,
{
    if i < 64 {
        lemma_king_from(p, color, i + 1);
        if !is_king_of(p.cells[i], color) {
            assert forall|j: int| i <= j < 64 && #[trigger] is_king_of(p.cells[j], color) implies i
                + 1 <= j by {}
        }
    }
}

} // verus!
