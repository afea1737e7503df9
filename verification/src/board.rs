use vstd::pervasive::VecAdditionalExecFns;
use vstd::prelude::*;

use crate::piece::{Piece, PieceKind, PlayerColor};
use crate::position::{scan_idx, Move, Position};

verus! {

broadcast use vstd::seq_lib::lemma_seq_contains_after_push;

/// The 8x8 board, stored rank-major: the cell for (file, rank) sits at
/// index `(rank - 1) * 8 + (file - 1)`.
pub struct Table {
    cells: Vec<Piece>,
}

/// Storage index of a valid square.
pub open spec fn sq(p: Position) -> int {
    (p.1 - 1) * 8 + (p.0 - 1)
}

/// The square scanned `k`-th when walking files outermost, as `pieces` does.
pub open spec fn scan_square(k: int) -> Position {
    Position((k / 8 + 1) as i64, (k % 8 + 1) as i64)
}

/// The piece the default initial setup puts at storage index `i`.
pub open spec fn init_piece(i: int) -> Piece {
    let file = i % 8 + 1;
    let rank = i / 8 + 1;
    if rank == 1 || rank == 8 {
        let color = if rank == 1 {
            PlayerColor::White
        } else {
            PlayerColor::Black
        };
        if file == 1 || file == 8 {
            Piece::Of(color, PieceKind::Rook)
        } else if file == 2 || file == 7 {
            Piece::Of(color, PieceKind::Knight)
        } else if file == 3 || file == 6 {
            Piece::Of(color, PieceKind::Bishop)
        } else if file == 4 {
            Piece::Of(color, PieceKind::Queen)
        } else {
            Piece::Of(color, PieceKind::King)
        }
    } else if rank == 2 {
        Piece::Of(PlayerColor::White, PieceKind::Pawn)
    } else if rank == 7 {
        Piece::Of(PlayerColor::Black, PieceKind::Pawn)
    } else {
        Piece::Empty
    }
}

/// The default initial setup.
pub open spec fn init_board() -> Seq<Piece> {
    Seq::new(64, |i: int| init_piece(i))
}

/// How many of the scanned squares 0..k hold a piece.
pub open spec fn count_upto(s: Seq<Piece>, k: int) -> int
    decreases k,
{
    if k <= 0 {
        0
    } else {
        count_upto(s, k - 1) + if s[sq(scan_square(k - 1))] != Piece::Empty {
            1int
        } else {
            0int
        }
    }
}

/// How many squares hold a piece.
pub open spec fn piece_count(s: Seq<Piece>) -> int {
    count_upto(s, 64)
}

/// Total material value of `color`'s pieces among the scanned squares 0..k.
pub open spec fn score_upto(s: Seq<Piece>, color: PlayerColor, k: int) -> int
    decreases k,
{
    if k <= 0 {
        0
    } else {
        score_upto(s, color, k - 1) + if crate::piece::spec_color(s[sq(scan_square(k - 1))])
            == color {
            crate::piece::spec_value(s[sq(scan_square(k - 1))])
        } else {
            0
        }
    }
}

/// Total material value of `color`'s pieces.
pub open spec fn spec_score(s: Seq<Piece>, color: PlayerColor) -> int {
    score_upto(s, color, 64)
}

/// The piece that lands on a move's destination: the moved piece, except
/// that a pawn reaching its own farthest rank — rank 8 for White, rank 1
/// for Black — turns into a queen of its color.
pub open spec fn spec_move_piece(s: Seq<Piece>, m: Move) -> Piece {
    let p0 = s[sq(m.a)];
    if crate::piece::spec_value(p0) == 1 && ((crate::piece::spec_color(p0) == PlayerColor::White
        && m.b.1 == 8) || (crate::piece::spec_color(p0) == PlayerColor::Black && m.b.1 == 1)) {
        if crate::piece::spec_color(p0) == PlayerColor::White {
            Piece::Of(PlayerColor::White, PieceKind::Queen)
        } else {
            Piece::Of(PlayerColor::Black, PieceKind::Queen)
        }
    } else {
        p0
    }
}

/// One plain relocation: promotion resolved, destination overwritten,
/// source cleared. Castling is not considered here.
pub open spec fn spec_apply_basic(s: Seq<Piece>, m: Move) -> Seq<Piece> {
    s.update(sq(m.b), spec_move_piece(s, m)).update(sq(m.a), Piece::Empty)
}

/// The rook relocation paired with a castling king move, if `piece` moving
/// along `m` is one of the four fixed castling king moves.
pub open spec fn spec_castle_rook(piece: Piece, m: Move) -> Option<Move> {
    if piece == Piece::Of(PlayerColor::White, PieceKind::King) && m.a == Position(5, 1) && m.b
        == Position(3, 1) {
        Some(Move { a: Position(1, 1), b: Position(4, 1) })
    } else if piece == Piece::Of(PlayerColor::White, PieceKind::King) && m.a == Position(5, 1)
        && m.b == Position(7, 1) {
        Some(Move { a: Position(8, 1), b: Position(6, 1) })
    } else if piece == Piece::Of(PlayerColor::Black, PieceKind::King) && m.a == Position(5, 8)
        && m.b == Position(3, 8) {
        Some(Move { a: Position(1, 8), b: Position(4, 8) })
    } else if piece == Piece::Of(PlayerColor::Black, PieceKind::King) && m.a == Position(5, 8)
        && m.b == Position(7, 8) {
        Some(Move { a: Position(8, 8), b: Position(6, 8) })
    } else {
        None
    }
}

/// The board after a move is applied: the paired rook relocation first when
/// the move is a fixed castling king move, then the king (or any piece)
/// relocation itself, with pawn auto-promotion to a queen.
pub open spec fn spec_process(s: Seq<Piece>, m: Move) -> Seq<Piece> {
    let p = spec_move_piece(s, m);
    let s1 = match spec_castle_rook(p, m) {
        Some(rm) => spec_apply_basic(s, rm),
        None => s,
    };
    s1.update(sq(m.b), p).update(sq(m.a), Piece::Empty)
}

/// The board reached by replaying the first `n` moves of `moves` from the
/// default initial setup.
pub open spec fn spec_replay(moves: Seq<Move>, n: int) -> Seq<Piece>
    decreases n,
{
    if n <= 0 {
        init_board()
    } else {
        spec_process(spec_replay(moves, n - 1), moves[n - 1])
    }
}

/// Every move of the list has both endpoints on the board.
pub open spec fn moves_valid(moves: Seq<Move>) -> bool {
    forall|i: int| 0 <= i < moves.len() ==> (#[trigger] moves[i]).spec_valid()
}

impl View for Table {
    type V = Seq<Piece>;

    closed spec fn view(&self) -> Seq<Piece> {
        self.cells@
    }
}

/// A valid storage index for every valid square, injectively.
pub proof fn lemma_sq_bounds(p: Position)
    requires
        p.spec_valid(),
    ensures
        0 <= sq(p) < 64,
        scan_square((p.0 - 1) * 8 + (p.1 - 1)) == p,
{
}

/// Executable counterpart of `scan_square`.
pub fn scan_pos(k: usize) -> (p: Position)
    requires
        k < 64,
    ensures
        p == scan_square(k as int),
        p.spec_valid(),
{
    Position((k / 8 + 1) as i64, (k % 8 + 1) as i64)
}

impl Table {
    /// The representation invariant: exactly 64 cells.
    pub open spec fn wf(&self) -> bool {
        self@.len() == 64
    }

    /// The piece on a valid square.
    pub open spec fn at(&self, p: Position) -> Piece {
        self@[sq(p)]
    }

    pub fn get_piece_at(&self, pos: Position) -> (r: Piece)
        requires
            self.wf(),
            pos.spec_valid(),
        ensures
            r == self.at(pos),
    {
        let i: usize = ((pos.1 - 1) * 8 + (pos.0 - 1)) as usize;
        self.cells[i]
    }

    pub fn set_piece_at(&mut self, pos: Position, piece: Piece)
        requires
            old(self).wf(),
            pos.spec_valid(),
        ensures
            final(self).wf(),
            final(self)@ == old(self)@.update(sq(pos), piece),
    {
        let i: usize = ((pos.1 - 1) * 8 + (pos.0 - 1)) as usize;
        self.cells.set(i, piece);
    }

    /// A fresh board holding the same position.
    pub fn duplicate(&self) -> (r: Table)
        requires
            self.wf(),
        ensures
            r.wf(),
            r@ == self@,
    {
        let mut cells: Vec<Piece> = Vec::new();
        let mut k: usize = 0;
        while k < 64
            invariant
                self.wf(),
                k <= 64,
                cells@.len() == k,
                forall|i: int| 0 <= i < k ==> cells@[i] == self@[i],
            decreases 64 - k,
        {
            cells.push(self.cells[k]);
            k = k + 1;
        }
        let r = Table { cells };
        proof {
            assert(r@ =~= self@);
        }
        r
    }

    /// Whether two boards hold the same position on every square.
    pub fn boards_equal(&self, other: &Table) -> (r: bool)
        requires
            self.wf(),
            other.wf(),
        ensures
            r <==> self@ == other@,
    {
        let mut k: usize = 0;
        while k < 64
            invariant
                self.wf(),
                other.wf(),
                k <= 64,
                forall|i: int| 0 <= i < k ==> self@[i] == other@[i],
            decreases 64 - k,
        {
            if self.cells[k] != other.cells[k] {
                return false;
            }
            k = k + 1;
        }
        proof {
            assert(self@ =~= other@);
        }
        true
    }

    /// Applies a plain relocation: promotion resolved, destination
    /// overwritten, source cleared.
    fn apply_basic(&mut self, m: Move)
        requires
            old(self).wf(),
            m.spec_valid(),
        ensures
            final(self).wf(),
            final(self)@ == spec_apply_basic(old(self)@, m),
    {
        let mut piece = self.get_piece_at(m.a);
        if piece.value() == 1 && (piece.color() == PlayerColor::White && m.b.1 == 8
            || piece.color() == PlayerColor::Black && m.b.1 == 1) {
            piece = if piece.color() == PlayerColor::White {
                Piece::Of(PlayerColor::White, PieceKind::Queen)
            } else {
                Piece::Of(PlayerColor::Black, PieceKind::Queen)
            };
        }
        self.set_piece_at(m.b, piece);
        self.set_piece_at(m.a, Piece::Empty);
    }

    /// Applies a move. A pawn reaching its own farthest rank is replaced by
    /// a queen of its color; if the move is one of the four fixed castling king
    /// moves, the paired rook relocation is applied first as an explicit
    /// second step.
    pub fn process_move(&mut self, m: Move)
        requires
            old(self).wf(),
            m.spec_valid(),
        ensures
            final(self).wf(),
            final(self)@ == spec_process(old(self)@, m),
    {
        let mut piece = self.get_piece_at(m.a);
        if piece.value() == 1 && (piece.color() == PlayerColor::White && m.b.1 == 8
            || piece.color() == PlayerColor::Black && m.b.1 == 1) {
            piece = if piece.color() == PlayerColor::White {
                Piece::Of(PlayerColor::White, PieceKind::Queen)
            } else {
                Piece::Of(PlayerColor::Black, PieceKind::Queen)
            };
        }
        if piece == Piece::Of(PlayerColor::White, PieceKind::King) {
            if m.a == Position(5, 1) && m.b == Position(3, 1) {
                self.apply_basic(Move { a: Position(1, 1), b: Position(4, 1) });
            }
            if m.a == Position(5, 1) && m.b == Position(7, 1) {
                self.apply_basic(Move { a: Position(8, 1), b: Position(6, 1) });
            }
        }
        if piece == Piece::Of(PlayerColor::Black, PieceKind::King) {
            if m.a == Position(5, 8) && m.b == Position(3, 8) {
                self.apply_basic(Move { a: Position(1, 8), b: Position(4, 8) });
            }
            if m.a == Position(5, 8) && m.b == Position(7, 8) {
                self.apply_basic(Move { a: Position(8, 8), b: Position(6, 8) });
            }
        }
        self.set_piece_at(m.b, piece);
        self.set_piece_at(m.a, Piece::Empty);
    }

    /// The board after `m`, leaving this board untouched.
    pub fn assume_move(&self, m: Move) -> (r: Table)
        requires
            self.wf(),
            m.spec_valid(),
        ensures
            r.wf(),
            r@ == spec_process(self@, m),
    {
        let mut t = self.duplicate();
        t.process_move(m);
        t
    }

    /// Every occupied square, walked files outermost, with what stands on
    /// it: each occupied square exactly once, in ascending scan order.
    pub fn pieces(&self) -> (v: Vec<(Position, Piece)>)
        requires
            self.wf(),
        ensures
            v@.len() == piece_count(self@),
            forall|i: int|
                0 <= i < v@.len() ==> ((#[trigger] v@[i]).0.spec_valid() && v@[i].1 == self.at(
                    v@[i].0,
                ) && v@[i].1 != Piece::Empty),
            forall|p: Position|
                p.spec_valid() && self.at(p) != Piece::Empty ==> v@.contains((p, self.at(p))),
            forall|i: int, j: int|
                0 <= i < j < v@.len() ==> scan_idx((#[trigger] v@[i]).0) < scan_idx(
                    (#[trigger] v@[j]).0,
                ),
    {
        let mut v: Vec<(Position, Piece)> = Vec::new();
        let mut k: usize = 0;
        while k < 64
            invariant
                self.wf(),
                k <= 64,
                v@.len() == count_upto(self@, k as int),
                forall|i: int|
                    0 <= i < v@.len() ==> ((#[trigger] v@[i]).0.spec_valid() && v@[i].1 == self.at(
                        v@[i].0,
                    ) && v@[i].1 != Piece::Empty),
                forall|j: int|
                    0 <= j < k && self.at(scan_square(j)) != Piece::Empty ==> v@.contains(
                        (scan_square(j), self.at(scan_square(j))),
                    ),
                forall|i: int| 0 <= i < v@.len() ==> scan_idx((#[trigger] v@[i]).0) < k,
                forall|i: int, j: int|
                    0 <= i < j < v@.len() ==> scan_idx((#[trigger] v@[i]).0) < scan_idx(
                        (#[trigger] v@[j]).0,
                    ),
            decreases 64 - k,
        {
            let pos = scan_pos(k);
            let piece = self.get_piece_at(pos);
            if piece != Piece::Empty {
                v.push((pos, piece));
            }
            k = k + 1;
        }
        proof {
            assert forall|p: Position| p.spec_valid() && self.at(p) != Piece::Empty implies v@
                .contains((p, self.at(p))) by {
                let j = (p.0 - 1) * 8 + (p.1 - 1);
                assert(scan_square(j) == p);
            }
        }
        v
    }

    /// Every square occupied by `color`, walked files outermost: each such
    /// square exactly once, in the same ascending scan order as `pieces`.
    pub fn pieces_colored(&self, color: PlayerColor) -> (v: Vec<(Position, Piece)>)
        requires
            self.wf(),
        ensures
            forall|i: int|
                0 <= i < v@.len() ==> ((#[trigger] v@[i]).0.spec_valid() && v@[i].1 == self.at(
                    v@[i].0,
                ) && v@[i].1 != Piece::Empty && crate::piece::spec_color(v@[i].1) == color),
            forall|p: Position|
                p.spec_valid() && self.at(p) != Piece::Empty && crate::piece::spec_color(
                    self.at(p),
                ) == color ==> v@.contains((p, self.at(p))),
            forall|i: int, j: int|
                0 <= i < j < v@.len() ==> scan_idx((#[trigger] v@[i]).0) < scan_idx(
                    (#[trigger] v@[j]).0,
                ),
    {
        let mut v: Vec<(Position, Piece)> = Vec::new();
        let mut k: usize = 0;
        while k < 64
            invariant
                self.wf(),
                k <= 64,
                forall|i: int|
                    0 <= i < v@.len() ==> ((#[trigger] v@[i]).0.spec_valid() && v@[i].1 == self.at(
                        v@[i].0,
                    ) && v@[i].1 != Piece::Empty && crate::piece::spec_color(v@[i].1) == color),
                forall|j: int|
                    0 <= j < k && self.at(scan_square(j)) != Piece::Empty && crate::piece::spec_color(
                        self.at(scan_square(j)),
                    ) == color ==> v@.contains((scan_square(j), self.at(scan_square(j)))),
                forall|i: int| 0 <= i < v@.len() ==> scan_idx((#[trigger] v@[i]).0) < k,
                forall|i: int, j: int|
                    0 <= i < j < v@.len() ==> scan_idx((#[trigger] v@[i]).0) < scan_idx(
                        (#[trigger] v@[j]).0,
                    ),
            decreases 64 - k,
        {
            let pos = scan_pos(k);
            let piece = self.get_piece_at(pos);
            if piece != Piece::Empty && piece.color() == color {
                v.push((pos, piece));
            }
            k = k + 1;
        }
        proof {
            assert forall|p: Position|
                p.spec_valid() && self.at(p) != Piece::Empty && crate::piece::spec_color(self.at(p))
                    == color implies v@.contains((p, self.at(p))) by {
                let j = (p.0 - 1) * 8 + (p.1 - 1);
                assert(scan_square(j) == p);
            }
        }
        v
    }

    /// Total material value of `color`'s pieces on the board.
    pub fn score(&self, color: PlayerColor) -> (r: i32)
        requires
            self.wf(),
        ensures
            r as int == spec_score(self@, color),
            0 <= r as int <= 1152,
    {
        let mut acc: i32 = 0;
        let mut k: usize = 0;
        while k < 64
            invariant
                self.wf(),
                k <= 64,
                acc as int == score_upto(self@, color, k as int),
                0 <= acc as int <= 18 * k,
            decreases 64 - k,
        {
            let pos = scan_pos(k);
            let piece = self.get_piece_at(pos);
            if piece.color() == color {
                acc = acc + piece.value();
            }
            k = k + 1;
        }
        acc
    }

    /// Resynchronizes this board against the authoritative move history:
    /// the history is replayed from the initial setup, and as soon as the
    /// replay board matches this one (including before any move), this board
    /// follows the rest of the replay. A board that matches no replay prefix
    /// is left untouched.
    pub fn sync(&mut self, moves: &Vec<Move>)
        requires
            old(self).wf(),
            moves_valid(moves@),
        ensures
            final(self).wf(),
            (exists|i: int|
                0 <= i <= moves@.len() && #[trigger] spec_replay(moves@, i) == old(self)@)
                ==> final(self)@ == spec_replay(moves@, moves@.len() as int),
            !(exists|i: int|
                0 <= i <= moves@.len() && #[trigger] spec_replay(moves@, i) == old(self)@)
                ==> final(self)@ == old(self)@,
    {
        let mut replay = Table::default();
        let mut syncing = self.boards_equal(&replay);
        proof {
            assert(spec_replay(moves@, 0) == init_board());
        }
        let mut k: usize = 0;
        while k < moves.len()
            invariant
                self.wf(),
                replay.wf(),
                k <= moves@.len(),
                moves_valid(moves@),
                replay@ == spec_replay(moves@, k as int),
                syncing <==> (exists|i: int|
                    0 <= i <= k && #[trigger] spec_replay(moves@, i) == old(self)@),
                syncing ==> self@ == replay@,
                !syncing ==> self@ == old(self)@,
            decreases moves@.len() - k,
        {
            let m = moves[k];
            replay.process_move(m);
            if syncing {
                self.process_move(m);
            }
            if replay.boards_equal(self) {
                proof {
                    if !syncing {
                        assert(spec_replay(moves@, k + 1) == old(self)@);
                    }
                }
                syncing = true;
            }
            k = k + 1;
        }
    }
}

impl Default for Table {
    /// The default initial chess setup.
    fn default() -> (t: Table)
        ensures
            t.wf(),
            t@ == init_board(),
    {
        let mut cells: Vec<Piece> = Vec::new();
        let mut k: usize = 0;
        while k < 64
            invariant
                k <= 64,
                cells@.len() == k,
                forall|i: int| 0 <= i < k ==> cells@[i] == init_piece(i),
            decreases 64 - k,
        {
            cells.push(init_cell(k));
            k = k + 1;
        }
        let t = Table { cells };
        proof {
            assert(t@ =~= init_board());
        }
        t
    }
}

/// Executable counterpart of `init_piece`.
fn init_cell(i: usize) -> (r: Piece)
    requires
        i < 64,
    ensures
        r == init_piece(i as int),
{
    let file = i % 8 + 1;
    let rank = i / 8 + 1;
    if rank == 1 || rank == 8 {
        let color = if rank == 1 {
            PlayerColor::White
        } else {
            PlayerColor::Black
        };
        if file == 1 || file == 8 {
            Piece::Of(color, PieceKind::Rook)
        } else if file == 2 || file == 7 {
            Piece::Of(color, PieceKind::Knight)
        } else if file == 3 || file == 6 {
            Piece::Of(color, PieceKind::Bishop)
        } else if file == 4 {
            Piece::Of(color, PieceKind::Queen)
        } else {
            Piece::Of(color, PieceKind::King)
        }
    } else if rank == 2 {
        Piece::Of(PlayerColor::White, PieceKind::Pawn)
    } else if rank == 7 {
        Piece::Of(PlayerColor::Black, PieceKind::Pawn)
    } else {
        Piece::Empty
    }
}

} // verus!
