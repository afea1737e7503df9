use vstd::prelude::*;

use crate::board::{init_board, spec_process, spec_replay, sq};
use crate::eval::spec_move_score;
use crate::piece::{Piece, PieceKind, PlayerColor};
use crate::position::{Move, Position};
use crate::rules::{at_se, spec_legal};

verus! {

/// Writing a piece to a valid square and reading it back returns that
/// piece, and every other square is untouched: each square has its own
/// storage cell.
pub proof fn lemma_square_round_trip(s: Seq<Piece>, p: Position, piece: Piece, q: Position)
    requires
        s.len() == 64,
        p.spec_valid(),
        q.spec_valid(),
    ensures
        s.update(sq(p), piece)[sq(p)] == piece,
        p != q ==> s.update(sq(p), piece)[sq(q)] == s[sq(q)],
{
    if p != q {
        assert(sq(p) != sq(q));
    }
}

/// Replaying an empty prefix of any history reproduces the default initial
/// setup exactly: resynchronizing an empty move list starts from it.
pub proof fn lemma_replay_empty(moves: Seq<Move>)
    ensures
        spec_replay(moves, 0) == init_board(),
{
}

/// The heuristic score is a pure function of the board and the move:
/// identical inputs always score identically.
pub proof fn lemma_move_score_deterministic(s1: Seq<Piece>, s2: Seq<Piece>, m1: Move, m2: Move)
    requires
        s1 == s2,
        m1 == m2,
    ensures
        spec_move_score(s1, m1) == spec_move_score(s2, m2),
{
}

/// On any board — the default initial one included — a pawn move spanning
/// two ranks is legal only from its color's starting rank.
pub proof fn lemma_double_push_rank(s: Seq<Piece>, m: Move)
    ensures
        (at_se(s, m.a) == Piece::Of(PlayerColor::White, PieceKind::Pawn) && m.b.1 - m.a.1 == 2
            && m.a.1 != 2) ==> !spec_legal(s, m),
        (at_se(s, m.a) == Piece::Of(PlayerColor::Black, PieceKind::Pawn) && m.b.1 - m.a.1 == -2
            && m.a.1 != 7) ==> !spec_legal(s, m),
{
}

/// The fixed queen-side and king-side castling king moves of White relocate
/// the paired rook in the same mutation: e1-c1 carries the a1 rook to d1,
/// e1-g1 carries the h1 rook to f1, while the king lands on its own target
/// and both source squares are cleared.
pub proof fn lemma_castle_white(s: Seq<Piece>)
    requires
        s.len() == 64,
        s[sq(Position(5, 1))] == Piece::Of(PlayerColor::White, PieceKind::King),
        s[sq(Position(1, 1))] == Piece::Of(PlayerColor::White, PieceKind::Rook),
        s[sq(Position(8, 1))] == Piece::Of(PlayerColor::White, PieceKind::Rook),
    ensures
        ({
            let long = spec_process(s, Move { a: Position(5, 1), b: Position(3, 1) });
            &&& long[sq(Position(4, 1))] == Piece::Of(PlayerColor::White, PieceKind::Rook)
            &&& long[sq(Position(1, 1))] == Piece::Empty
            &&& long[sq(Position(3, 1))] == Piece::Of(PlayerColor::White, PieceKind::King)
            &&& long[sq(Position(5, 1))] == Piece::Empty
        }),
        ({
            let short = spec_process(s, Move { a: Position(5, 1), b: Position(7, 1) });
            &&& short[sq(Position(6, 1))] == Piece::Of(PlayerColor::White, PieceKind::Rook)
            &&& short[sq(Position(8, 1))] == Piece::Empty
            &&& short[sq(Position(7, 1))] == Piece::Of(PlayerColor::White, PieceKind::King)
            &&& short[sq(Position(5, 1))] == Piece::Empty
        }),
{
}

/// The two symmetric castling king moves of Black relocate the paired rook
/// in the same mutation, as `lemma_castle_white` states for White.
pub proof fn lemma_castle_black(s: Seq<Piece>)
    requires
        s.len() == 64,
        s[sq(Position(5, 8))] == Piece::Of(PlayerColor::Black, PieceKind::King),
        s[sq(Position(1, 8))] == Piece::Of(PlayerColor::Black, PieceKind::Rook),
        s[sq(Position(8, 8))] == Piece::Of(PlayerColor::Black, PieceKind::Rook),
    ensures
        ({
            let long = spec_process(s, Move { a: Position(5, 8), b: Position(3, 8) });
            &&& long[sq(Position(4, 8))] == Piece::Of(PlayerColor::Black, PieceKind::Rook)
            &&& long[sq(Position(1, 8))] == Piece::Empty
            &&& long[sq(Position(3, 8))] == Piece::Of(PlayerColor::Black, PieceKind::King)
            &&& long[sq(Position(5, 8))] == Piece::Empty
        }),
        ({
            let short = spec_process(s, Move { a: Position(5, 8), b: Position(7, 8) });
            &&& short[sq(Position(6, 8))] == Piece::Of(PlayerColor::Black, PieceKind::Rook)
            &&& short[sq(Position(8, 8))] == Piece::Empty
            &&& short[sq(Position(7, 8))] == Piece::Of(PlayerColor::Black, PieceKind::King)
            &&& short[sq(Position(5, 8))] == Piece::Empty
        }),
{
}

/// The ranked list reached after `n` rounds in which the top candidate is
/// offered, rejected by the submission interface, and removed — one
/// removal of the head per round, as `Selection::next_candidate` with zero
/// steps offers the head and `Selection::reject` removes it.
pub open spec fn after_rejections(ranked: Seq<(i32, Move)>, n: int) -> Seq<(i32, Move)>
    decreases n,
{
    if n <= 0 {
        ranked
    } else {
        after_rejections(ranked, n - 1).remove(0)
    }
}

/// Rejecting the top candidate `n` times in a row leaves exactly the
/// original list with its first `n` entries dropped, and the candidate
/// standing at the top is the one originally ranked `n`-th: a turn whose
/// first `n` submissions are rejected, with no random advance, ends by
/// playing exactly the `(n+1)`-th ranked move.
pub proof fn lemma_retry_reaches_nth(ranked: Seq<(i32, Move)>, n: int)
    requires
        0 <= n <= ranked.len(),
    ensures
        after_rejections(ranked, n) =~= ranked.skip(n),
        n < ranked.len() ==> after_rejections(ranked, n)[0] == ranked[n],
    decreases n,
{
    if n > 0 {
        lemma_retry_reaches_nth(ranked, n - 1);
        ranked.skip(n - 1).remove_ensures(0);
        assert(after_rejections(ranked, n) == after_rejections(ranked, n - 1).remove(0));
        assert(ranked.skip(n - 1).remove(0) =~= ranked.skip(n));
    }
}

/// After the top `n` ranked candidates have each been rejected and removed
/// one by one, the candidate standing at the top of what remains is the one
/// originally ranked `n`-th — so a turn whose first `n` submissions are
/// rejected ends by playing exactly the `(n+1)`-th ranked move.
pub proof fn lemma_selection_retry(ranked: Seq<(i32, Move)>, n: int)
    requires
        0 <= n < ranked.len(),
    ensures
        ranked.skip(n)[0] == ranked[n],
        ranked.skip(n).remove(0) =~= ranked.skip(n + 1),
{
    ranked.skip(n).remove_ensures(0);
}

} // verus!
