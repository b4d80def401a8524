use xp_chess::board::piece::{Empty, Knight, Pawn, Piece, PieceColor, Queen};
use xp_chess::board::{Board, MoveType};
use xp_chess::ui::{image_code, ClickOutcome, UIBoardState};

fn sorted(mut moves: Vec<(usize, usize)>) -> Vec<(usize, usize)> {
    moves.sort();
    moves
}

#[test]
fn first_click_selects_and_lists_moves() {
    let mut board = Board::default();
    let mut state = UIBoardState::new();
    match state.click(&mut board, (6, 4)) {
        ClickOutcome::Selected { square, moves } => {
            assert_eq!(square, (6, 4));
            assert_eq!(sorted(moves), vec![(4, 4), (5, 4)]);
        }
        _ => panic!("expected a selection"),
    }
    assert_eq!(board.turn_player, PieceColor::White);
}

#[test]
fn second_click_plays_the_move() {
    let mut board = Board::default();
    let mut state = UIBoardState::new();
    state.click(&mut board, (6, 4));
    match state.click(&mut board, (4, 4)) {
        ClickOutcome::Moved { from, to, kind, checkmate } => {
            assert_eq!(from, (6, 4));
            assert_eq!(to, (4, 4));
            assert_eq!(kind, MoveType::Capture);
            assert!(!checkmate);
        }
        _ => panic!("expected a move"),
    }
    assert_eq!(board.turn_player, PieceColor::Black);
    assert!(board.get_piece(6, 4).is_empty());
    // The selection is gone: the next click selects again.
    match state.click(&mut board, (1, 3)) {
        ClickOutcome::Selected { square, moves } => {
            assert_eq!(square, (1, 3));
            assert_eq!(sorted(moves), vec![(2, 3), (3, 3)]);
        }
        _ => panic!("expected a selection"),
    }
}

#[test]
fn illegal_second_click_on_own_piece_reselects() {
    let mut board = Board::default();
    let mut state = UIBoardState::new();
    state.click(&mut board, (6, 4));
    match state.click(&mut board, (7, 1)) {
        ClickOutcome::Selected { square, moves } => {
            assert_eq!(square, (7, 1));
            assert_eq!(sorted(moves), vec![(5, 0), (5, 2)]);
        }
        _ => panic!("expected a selection"),
    }
    assert_eq!(board.turn_player, PieceColor::White);
}

#[test]
fn illegal_second_click_elsewhere_clears() {
    let mut board = Board::default();
    let before = board.clone();
    let mut state = UIBoardState::new();
    state.click(&mut board, (6, 4));
    assert!(matches!(state.click(&mut board, (3, 4)), ClickOutcome::Cleared));
    assert!(board == before);
    // Nothing is selected any more: a click on an empty square selects it with no moves.
    match state.click(&mut board, (3, 4)) {
        ClickOutcome::Selected { square, moves } => {
            assert_eq!(square, (3, 4));
            assert!(moves.is_empty());
        }
        _ => panic!("expected a selection"),
    }
}

#[test]
fn click_reports_checkmate() {
    let mut board = Board::default();
    let mut state = UIBoardState::new();
    for (from, to) in [((6, 5), (5, 5)), ((1, 4), (3, 4)), ((6, 6), (4, 6))] {
        state.click(&mut board, from);
        assert!(matches!(state.click(&mut board, to), ClickOutcome::Moved { checkmate: false, .. }));
    }
    state.click(&mut board, (0, 3));
    assert!(matches!(state.click(&mut board, (4, 7)), ClickOutcome::Moved { checkmate: true, .. }));
}

#[test]
fn click_reports_promotion() {
    let mut board = Board::default();
    for row in 0..8 {
        for col in 0..8 {
            if (row, col) != (0, 4) && (row, col) != (7, 4) {
                board.set_piece(row, col, Piece::Empty(Empty {}));
            }
        }
    }
    board.set_piece(1, 7, Piece::Pawn(Pawn {
        color: PieceColor::White,
        has_moved: true,
        can_en_passant_col: None,
    }));
    let mut state = UIBoardState::new();
    state.click(&mut board, (1, 7));
    let queen = Piece::Queen(Queen { color: PieceColor::White });
    match state.click(&mut board, (0, 7)) {
        ClickOutcome::Moved { kind, .. } => assert_eq!(kind, MoveType::Promotion(queen)),
        _ => panic!("expected a move"),
    }
    assert_eq!(*board.get_piece(0, 7), queen);
}

#[test]
fn image_codes_name_kind_and_shade() {
    assert_eq!(image_code(&Piece::Empty(Empty {})), None);
    assert_eq!(image_code(&Piece::Knight(Knight { color: PieceColor::White })), Some(('n', 'l')));
    assert_eq!(image_code(&Piece::Queen(Queen { color: PieceColor::Black })), Some(('q', 'd')));
    let board = Board::default();
    assert_eq!(image_code(board.get_piece(0, 4)), Some(('k', 'd')));
    assert_eq!(image_code(board.get_piece(7, 0)), Some(('r', 'l')));
    assert_eq!(image_code(board.get_piece(6, 2)), Some(('p', 'l')));
    assert_eq!(image_code(board.get_piece(0, 2)), Some(('b', 'd')));
}

#[test]
fn turn_getter_follows_moves() {
    let mut board = Board::default();
    assert_eq!(board.turn(), PieceColor::White);
    board.try_move_piece((7, 6), (5, 5)).unwrap();
    assert_eq!(board.turn(), PieceColor::Black);
}
