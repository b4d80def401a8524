//! Properties that hold of every position, stated over the model that the
//! board's operations are specified with.
use vstd::prelude::*;

use super::piece::{Piece, PieceColor, Queen};
use super::{lemma_candidate_target, on_board, MoveType, Position};

verus! {

/// Playing a move hands the turn to the other side.
pub proof fn lemma_play_passes_turn(p: Position, fr: int, fc: int, tr: int, tc: int)
    ensures
        p.play(fr, fc, tr, tc).turn == p.turn.other(),
        p.play(fr, fc, tr, tc).turn != p.turn,
{
}

/// Every target of a legal move lies on the board, and playing the move
/// carries the mover's piece there: the origin, which held a piece of the
/// side to move, is left empty, the target holds a piece of that side, and
/// the turn passes.
pub proof fn lemma_legal_target_playable(p: Position, fr: int, fc: int, tr: int, tc: int)
    requires
        p.wf(),
        p.legal_move(fr, fc, tr, tc),
    ensures
        on_board(fr, fc),
        on_board(tr, tc),
        p.holds(fr, fc, p.turn),
        !p.holds(tr, tc, p.turn),
        p.play(fr, fc, tr, tc).is_empty_at(fr, fc),
        p.play(fr, fc, tr, tc).holds(tr, tc, p.turn),
        p.play(fr, fc, tr, tc).turn == p.turn.other(),
{
    lemma_candidate_target(p, fr, fc, tr, tc);
    let q = p.after_move(fr, fc, tr, tc);
    assert(fr * 8 + fc != tr * 8 + tc);
    assert(q.piece_at(tr, tc) == p.piece_at(fr, fc).after_moving());
}

/// After a legal move, the mover's king is not attacked by any piece of the
/// other side.
pub proof fn lemma_legal_move_king_safe(p: Position, fr: int, fc: int, tr: int, tc: int)
    requires
        p.legal_move(fr, fc, tr, tc),
    ensures
        !p.after_move(fr, fc, tr, tc).in_check(p.turn),
        forall|r: int, c: int|
            p.after_move(fr, fc, tr, tc).king_from(p.turn, 0) == r * 8 + c && on_board(r, c)
                ==> !p.after_move(fr, fc, tr, tc).attacked(r, c, p.turn.other()),
{
}

/// No piece's rule ever targets a square held by a piece of its own side.
pub proof fn lemma_no_self_capture(p: Position, r: int, c: int, tr: int, tc: int)
    requires
        p.candidate(r, c, tr, tc),
    ensures
        forall|color: PieceColor| p.holds(r, c, color) ==> !p.holds(tr, tc, color),
{
    lemma_candidate_target(p, r, c, tr, tc);
}

/// A pawn that reaches the farthest row for its side (row 0 for White, row 7
/// for Black) becomes a queen of its side, and the move reports a promotion.
pub proof fn lemma_promotion(p: Position, fr: int, fc: int, tr: int, tc: int)
    requires
        p.wf(),
        p.legal_move(fr, fc, tr, tc),
        p.piece_at(fr, fc) is Pawn,
        (p.turn == PieceColor::White && tr == 0) || (p.turn == PieceColor::Black && tr == 7),
    ensures
        p.play(fr, fc, tr, tc).piece_at(tr, tc) == Piece::Queen(Queen { color: p.turn }),
        p.move_kind(fr, fc, tr, tc) == MoveType::Promotion(Piece::Queen(Queen { color: p.turn })),
{
    lemma_candidate_target(p, fr, fc, tr, tc);
    let q = p.after_move(fr, fc, tr, tc);
    assert(fr * 8 + fc != tr * 8 + tc);
    assert(q.piece_at(tr, tc) == p.piece_at(fr, fc).after_moving());
    assert(q.promotes(tr, tc));
}

/// The side to move has no legal move anywhere exactly when every square it
/// holds has no legal move.
pub proof fn lemma_checkmate_iff_all_squares_stuck(p: Position)
    ensures
        p.no_legal_moves() <==> forall|fr: int, fc: int|
            on_board(fr, fc) && p.holds(fr, fc, p.turn) ==> forall|tr: int, tc: int|
                !#[trigger] p.legal_move(fr, fc, tr, tc),
{
}

} // verus!
