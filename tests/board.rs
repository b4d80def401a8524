use xp_chess::board::piece::{
    piece_from_char, Bishop, Empty, King, Knight, Pawn, Piece, PieceColor, Queen, Rook,
};
use xp_chess::board::{Board, MoveType};

fn sorted(mut moves: Vec<(usize, usize)>) -> Vec<(usize, usize)> {
    moves.sort();
    moves
}

fn empty_board() -> Board {
    let mut board = Board::default();
    for row in 0..8 {
        for col in 0..8 {
            board.set_piece(row, col, Piece::Empty(Empty {}));
        }
    }
    board
}

fn king(color: PieceColor) -> Piece {
    Piece::King(King { color, has_moved: false })
}

fn pawn(color: PieceColor) -> Piece {
    Piece::Pawn(Pawn { color, has_moved: false, can_en_passant_col: None })
}

/// Empty board with the White king on (7, 4) and the Black king on (0, 4).
fn bare_kings() -> Board {
    let mut board = empty_board();
    board.set_piece(7, 4, king(PieceColor::White));
    board.set_piece(0, 4, king(PieceColor::Black));
    board
}

#[test]
fn initial_pawn_has_two_moves() {
    let board = Board::default();
    assert_eq!(sorted(board.get_legal_moves((6, 4))), vec![(4, 4), (5, 4)]);
}

#[test]
fn initial_knight_has_two_moves() {
    let board = Board::default();
    assert_eq!(sorted(board.get_legal_moves((7, 1))), vec![(5, 0), (5, 2)]);
}

#[test]
fn double_step_flips_turn_and_marks_pawn() {
    let mut board = Board::default();
    assert_eq!(board.turn_player, PieceColor::White);
    let result = board.try_move_piece((6, 4), (4, 4));
    assert_eq!(result, Ok(MoveType::Capture));
    assert_eq!(board.turn_player, PieceColor::Black);
    assert!(board.get_piece(6, 4).is_empty());
    assert_eq!(
        *board.get_piece(4, 4),
        Piece::Pawn(Pawn { color: PieceColor::White, has_moved: true, can_en_passant_col: None })
    );
}

#[test]
fn three_square_advance_is_rejected() {
    let mut board = Board::default();
    let before = board.clone();
    assert_eq!(board.try_move_piece((6, 4), (3, 4)), Err("Invalid move"));
    assert!(board == before);
    assert_eq!(board.turn_player, PieceColor::White);
}

#[test]
fn moving_the_other_sides_piece_is_rejected() {
    let mut board = Board::default();
    let before = board.clone();
    assert_eq!(board.try_move_piece((1, 4), (2, 4)), Err("Invalid move"));
    assert!(board == before);
}

#[test]
fn moving_from_an_empty_square_is_rejected() {
    let mut board = Board::default();
    assert!(board.get_legal_moves((4, 4)).is_empty());
    assert_eq!(board.try_move_piece((4, 4), (3, 4)), Err("Invalid move"));
    assert_eq!(board.turn_player, PieceColor::White);
}

#[test]
fn white_pawn_promotes_on_row_zero() {
    let mut board = bare_kings();
    board.set_piece(1, 0, Piece::Pawn(Pawn {
        color: PieceColor::White,
        has_moved: true,
        can_en_passant_col: None,
    }));
    let result = board.try_move_piece((1, 0), (0, 0));
    let queen = Piece::Queen(Queen { color: PieceColor::White });
    assert_eq!(result, Ok(MoveType::Promotion(queen)));
    assert_eq!(*board.get_piece(0, 0), queen);
    assert!(board.get_piece(1, 0).is_empty());
    assert_eq!(board.turn_player, PieceColor::Black);
}

#[test]
fn black_pawn_promotes_on_row_seven_by_capture() {
    let mut board = bare_kings();
    board.turn_player = PieceColor::Black;
    board.set_piece(6, 2, Piece::Pawn(Pawn {
        color: PieceColor::Black,
        has_moved: true,
        can_en_passant_col: None,
    }));
    board.set_piece(7, 1, Piece::Knight(Knight { color: PieceColor::White }));
    assert_eq!(sorted(board.get_legal_moves((6, 2))), vec![(7, 1), (7, 2)]);
    let result = board.try_move_piece((6, 2), (7, 1));
    let queen = Piece::Queen(Queen { color: PieceColor::Black });
    assert_eq!(result, Ok(MoveType::Promotion(queen)));
    assert_eq!(*board.get_piece(7, 1), queen);
    assert_eq!(board.turn_player, PieceColor::White);
}

#[test]
fn initial_bishop_is_boxed_in() {
    let board = Board::default();
    assert!(board.get_legal_moves((7, 2)).is_empty());
    assert!(board.get_legal_moves((7, 5)).is_empty());
}

#[test]
fn bishop_boxed_in_by_friendly_pieces() {
    let mut board = bare_kings();
    let white_knight = Piece::Knight(Knight { color: PieceColor::White });
    board.set_piece(4, 4, Piece::Bishop(Bishop { color: PieceColor::White }));
    board.set_piece(3, 3, white_knight);
    board.set_piece(3, 5, white_knight);
    board.set_piece(5, 3, white_knight);
    board.set_piece(5, 5, white_knight);
    assert!(board.get_legal_moves((4, 4)).is_empty());
    let bishop = Bishop { color: PieceColor::White };
    assert!(bishop.moves_to_consider(4, 4, &board).is_empty());
}

#[test]
fn bishop_rays_stop_at_pieces() {
    let mut board = bare_kings();
    let bishop = Bishop { color: PieceColor::White };
    board.set_piece(4, 4, Piece::Bishop(bishop));
    board.set_piece(2, 2, pawn(PieceColor::Black));
    board.set_piece(6, 6, pawn(PieceColor::White));
    let expected = vec![(1, 7), (2, 2), (2, 6), (3, 3), (3, 5), (5, 3), (5, 5), (6, 2), (7, 1)];
    assert_eq!(sorted(bishop.moves_to_consider(4, 4, &board)), expected);
    assert_eq!(sorted(board.get_legal_moves((4, 4))), expected);
}

#[test]
fn rook_moves_along_row_and_column() {
    let mut board = bare_kings();
    let rook = Rook { color: PieceColor::White, has_moved: false };
    board.set_piece(4, 0, Piece::Rook(rook));
    board.set_piece(4, 3, pawn(PieceColor::Black));
    board.set_piece(6, 0, pawn(PieceColor::White));
    let expected = vec![(0, 0), (1, 0), (2, 0), (3, 0), (4, 1), (4, 2), (4, 3), (5, 0)];
    assert_eq!(sorted(rook.moves_to_consider(4, 0, &board)), expected);
}

#[test]
fn queen_in_the_corner_of_an_empty_board() {
    let board = empty_board();
    let queen = Queen { color: PieceColor::Black };
    let moves = sorted(queen.moves_to_consider(0, 0, &board));
    assert_eq!(moves.len(), 21);
    assert!(moves.contains(&(7, 7)));
    assert!(moves.contains(&(0, 7)));
    assert!(moves.contains(&(7, 0)));
    assert!(!moves.contains(&(1, 2)));
}

#[test]
fn knight_in_the_corner() {
    let mut board = empty_board();
    let knight = Knight { color: PieceColor::Black };
    assert_eq!(sorted(knight.moves_to_consider(0, 0, &board)), vec![(1, 2), (2, 1)]);
    board.set_piece(1, 2, pawn(PieceColor::Black));
    board.set_piece(2, 1, pawn(PieceColor::White));
    assert_eq!(sorted(knight.moves_to_consider(0, 0, &board)), vec![(2, 1)]);
}

#[test]
fn king_steps_to_neighbours() {
    let mut board = empty_board();
    let king = King { color: PieceColor::White, has_moved: false };
    assert_eq!(
        sorted(king.moves_to_consider(7, 7, &board)),
        vec![(6, 6), (6, 7), (7, 6)]
    );
    board.set_piece(6, 6, pawn(PieceColor::White));
    assert_eq!(sorted(king.moves_to_consider(7, 7, &board)), vec![(6, 7), (7, 6)]);
    assert_eq!(king.moves_to_consider(4, 4, &empty_board()).len(), 8);
}

#[test]
fn pawn_blocked_and_capturing() {
    let mut board = empty_board();
    let white = Pawn { color: PieceColor::White, has_moved: false, can_en_passant_col: None };
    board.set_piece(5, 4, pawn(PieceColor::Black));
    assert!(white.moves_to_consider(6, 4, &board).is_empty());
    board.set_piece(5, 4, Piece::Empty(Empty {}));
    board.set_piece(4, 4, pawn(PieceColor::Black));
    assert_eq!(sorted(white.moves_to_consider(6, 4, &board)), vec![(5, 4)]);
    board.set_piece(5, 3, pawn(PieceColor::Black));
    board.set_piece(5, 5, pawn(PieceColor::White));
    assert_eq!(sorted(white.moves_to_consider(6, 4, &board)), vec![(5, 3), (5, 4)]);
}

#[test]
fn moved_pawn_steps_only_once() {
    let board = empty_board();
    let black = Pawn { color: PieceColor::Black, has_moved: true, can_en_passant_col: None };
    assert_eq!(sorted(black.moves_to_consider(1, 0, &board)), vec![(2, 0)]);
    let fresh = Pawn { color: PieceColor::Black, has_moved: false, can_en_passant_col: None };
    assert_eq!(sorted(fresh.moves_to_consider(1, 7, &board)), vec![(2, 7), (3, 7)]);
}

#[test]
fn pawn_on_the_last_row_has_no_moves() {
    let board = empty_board();
    let white = Pawn { color: PieceColor::White, has_moved: true, can_en_passant_col: None };
    assert!(white.moves_to_consider(0, 3, &board).is_empty());
}

#[test]
fn en_passant_column_is_offered() {
    let board = empty_board();
    let white = Pawn { color: PieceColor::White, has_moved: true, can_en_passant_col: Some(5) };
    assert_eq!(sorted(white.moves_to_consider(3, 4, &board)), vec![(2, 4), (2, 5)]);
    let off_board = Pawn { color: PieceColor::White, has_moved: true, can_en_passant_col: Some(9) };
    assert_eq!(sorted(off_board.moves_to_consider(3, 4, &board)), vec![(2, 4)]);
}

#[test]
fn pinned_piece_cannot_move() {
    let mut board = bare_kings();
    board.set_piece(6, 4, Piece::Bishop(Bishop { color: PieceColor::White }));
    board.set_piece(2, 4, Piece::Rook(Rook { color: PieceColor::Black, has_moved: true }));
    let bishop = Bishop { color: PieceColor::White };
    assert_eq!(bishop.moves_to_consider(6, 4, &board).len(), 9);
    assert!(board.get_legal_moves((6, 4)).is_empty());
    assert_eq!(board.try_move_piece((6, 4), (5, 3)), Err("Invalid move"));
}

#[test]
fn king_may_not_step_into_attack() {
    let mut board = bare_kings();
    board.set_piece(2, 3, Piece::Rook(Rook { color: PieceColor::Black, has_moved: true }));
    assert_eq!(sorted(board.get_legal_moves((7, 4))), vec![(6, 4), (6, 5), (7, 5)]);
}

#[test]
fn every_legal_move_is_accepted() {
    let board = Board::default();
    for row in 0..8 {
        for col in 0..8 {
            for to in board.get_legal_moves((row, col)) {
                let mut copy = board.clone();
                assert!(copy.try_move_piece((row, col), to).is_ok());
                assert_eq!(copy.turn_player, PieceColor::Black);
                assert!(copy.get_piece(row, col).is_empty());
            }
        }
    }
}

#[test]
fn candidates_never_target_own_pieces() {
    let board = Board::default();
    for row in 0..8 {
        for col in 0..8 {
            let piece = board.get_piece(row, col);
            for (r, c) in piece.moves_to_consider(row, col, &board) {
                assert_ne!(board.get_piece(r, c).color(), piece.color());
            }
        }
    }
}

#[test]
fn fools_mate_is_checkmate() {
    let mut board = Board::default();
    assert!(!board.is_checkmate());
    assert!(board.try_move_piece((6, 5), (5, 5)).is_ok());
    assert!(board.try_move_piece((1, 4), (3, 4)).is_ok());
    assert!(board.try_move_piece((6, 6), (4, 6)).is_ok());
    assert!(!board.is_checkmate());
    assert_eq!(board.try_move_piece((0, 3), (4, 7)), Ok(MoveType::Capture));
    assert_eq!(board.turn_player, PieceColor::White);
    assert!(board.is_checkmate());
    for row in 0..8 {
        for col in 0..8 {
            if board.get_piece(row, col).color() == Some(PieceColor::White) {
                assert!(board.get_legal_moves((row, col)).is_empty());
            }
        }
    }
}

#[test]
fn stalemate_counts_as_no_moves() {
    let mut board = empty_board();
    board.set_piece(0, 0, king(PieceColor::Black));
    board.set_piece(7, 7, king(PieceColor::White));
    board.set_piece(2, 1, Piece::Queen(Queen { color: PieceColor::White }));
    board.turn_player = PieceColor::Black;
    assert!(board.is_checkmate());
}

#[test]
fn initial_position_layout() {
    let board = Board::default();
    assert_eq!(board.turn_player, PieceColor::White);
    assert_eq!(*board.get_piece(0, 3), Piece::Queen(Queen { color: PieceColor::Black }));
    assert_eq!(*board.get_piece(0, 4), king(PieceColor::Black));
    assert_eq!(*board.get_piece(7, 3), Piece::Queen(Queen { color: PieceColor::White }));
    assert_eq!(*board.get_piece(7, 4), king(PieceColor::White));
    assert_eq!(*board.get_piece(1, 6), pawn(PieceColor::Black));
    assert_eq!(*board.get_piece(6, 1), pawn(PieceColor::White));
    assert_eq!(
        *board.get_piece(7, 0),
        Piece::Rook(Rook { color: PieceColor::White, has_moved: false })
    );
    for row in 2..6 {
        for col in 0..8 {
            assert!(board.get_piece(row, col).is_empty());
        }
    }
    assert_eq!(board.get_king_position(PieceColor::White), (7, 4));
    assert_eq!(board.get_king_position(PieceColor::Black), (0, 4));
    assert!(board.has_king(PieceColor::White));
    assert!(board.has_king(PieceColor::Black));
    assert!(!empty_board().has_king(PieceColor::Black));
}

#[test]
fn layout_characters_decode() {
    assert_eq!(piece_from_char('p'), pawn(PieceColor::White));
    assert_eq!(piece_from_char('P'), pawn(PieceColor::Black));
    assert_eq!(piece_from_char('n'), Piece::Knight(Knight { color: PieceColor::White }));
    assert_eq!(piece_from_char('B'), Piece::Bishop(Bishop { color: PieceColor::Black }));
    assert_eq!(
        piece_from_char('r'),
        Piece::Rook(Rook { color: PieceColor::White, has_moved: false })
    );
    assert_eq!(piece_from_char('Q'), Piece::Queen(Queen { color: PieceColor::Black }));
    assert_eq!(piece_from_char('K'), king(PieceColor::Black));
    assert_eq!(piece_from_char('*'), Piece::Empty(Empty {}));
}

#[test]
fn piece_accessors() {
    assert_eq!(PieceColor::White.opposite(), PieceColor::Black);
    assert_eq!(PieceColor::Black.opposite(), PieceColor::White);
    assert_eq!(Piece::Empty(Empty {}).color(), None);
    assert!(Piece::Empty(Empty {}).is_empty());
    assert!(!king(PieceColor::White).is_empty());
    assert_eq!(king(PieceColor::Black).color(), Some(PieceColor::Black));

    let mut p = pawn(PieceColor::White);
    p.become_moved();
    assert_eq!(
        p,
        Piece::Pawn(Pawn { color: PieceColor::White, has_moved: true, can_en_passant_col: None })
    );
    let mut k = king(PieceColor::Black);
    k.become_moved();
    assert_eq!(k, Piece::King(King { color: PieceColor::Black, has_moved: true }));
    let mut r = Piece::Rook(Rook { color: PieceColor::Black, has_moved: false });
    r.become_moved();
    assert_eq!(r, Piece::Rook(Rook { color: PieceColor::Black, has_moved: true }));
    let mut q = Piece::Queen(Queen { color: PieceColor::White });
    q.become_moved();
    assert_eq!(q, Piece::Queen(Queen { color: PieceColor::White }));
}

#[test]
fn set_piece_overwrites_one_square() {
    let mut board = Board::default();
    board.set_piece(3, 3, Piece::Queen(Queen { color: PieceColor::White }));
    assert_eq!(*board.get_piece(3, 3), Piece::Queen(Queen { color: PieceColor::White }));
    assert!(board.get_piece(3, 4).is_empty());
    assert_eq!(board.turn_player, PieceColor::White);
}

#[test]
fn initial_moves_have_exact_counts() {
    let board = Board::default();
    assert_eq!(board.get_legal_moves((6, 4)).len(), 2);
    assert_eq!(board.get_legal_moves((7, 1)).len(), 2);
    let pawn = Pawn { color: PieceColor::White, has_moved: false, can_en_passant_col: None };
    assert_eq!(pawn.moves_to_consider(6, 4, &board).len(), 2);
    let knight = Knight { color: PieceColor::White };
    assert_eq!(knight.moves_to_consider(7, 1, &board).len(), 2);
}

#[test]
fn en_passant_on_own_column_is_listed_once() {
    let board = empty_board();
    let white = Pawn { color: PieceColor::White, has_moved: true, can_en_passant_col: Some(4) };
    assert_eq!(white.moves_to_consider(3, 4, &board), vec![(2, 4)]);
}

#[test]
fn en_passant_on_capture_column_is_listed_once() {
    let mut board = empty_board();
    board.set_piece(2, 5, pawn(PieceColor::Black));
    let white = Pawn { color: PieceColor::White, has_moved: true, can_en_passant_col: Some(5) };
    assert_eq!(sorted(white.moves_to_consider(3, 4, &board)), vec![(2, 4), (2, 5)]);
}

#[test]
fn legal_moves_list_each_square_once() {
    let mut board = bare_kings();
    board.set_piece(6, 3, Piece::Pawn(Pawn {
        color: PieceColor::White,
        has_moved: false,
        can_en_passant_col: Some(3),
    }));
    assert_eq!(sorted(board.get_legal_moves((6, 3))), vec![(4, 3), (5, 3)]);
    board.set_piece(4, 4, Piece::Queen(Queen { color: PieceColor::White }));
    let moves = board.get_legal_moves((4, 4));
    let mut unique = sorted(moves.clone());
    unique.dedup();
    assert_eq!(unique.len(), moves.len());
    assert_eq!(
        Queen { color: PieceColor::White }.moves_to_consider(4, 4, &empty_board()).len(),
        27
    );
}
