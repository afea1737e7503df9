use vstd::prelude::*;

use crate::board::{scan_pos, scan_square, sq, Table};
use crate::piece::{
    can_reach, mag, opposite, spec_color, spec_opposite, spec_pseudo_to, Piece, PieceKind,
    PlayerColor,
};
use crate::position::{move_key, scan_idx, Move, Position};

verus! {

broadcast use vstd::seq_lib::lemma_seq_contains_after_push;

/// The piece on the square with the given coordinates; empty when they lie
/// off the board.
pub open spec fn at_xy(s: Seq<Piece>, x: int, y: int) -> Piece {
    if 1 <= x <= 8 && 1 <= y <= 8 {
        s[(y - 1) * 8 + (x - 1)]
    } else {
        Piece::Empty
    }
}

/// The piece on `p`, or empty when `p` is off the board.
pub open spec fn at_se(s: Seq<Piece>, p: Position) -> Piece {
    at_xy(s, p.0 as int, p.1 as int)
}

/// `c` moved `i` steps towards the sign of `d`.
pub open spec fn stepped(c: int, d: int, i: int) -> int {
    if d > 0 {
        c + i
    } else if d < 0 {
        c - i
    } else {
        c
    }
}

/// The squares walked from `a` towards the file offset `dx`, staying on
/// `a`'s rank, are all empty.
pub open spec fn ray_x_clear(s: Seq<Piece>, a: Position, dx: int) -> bool {
    forall|i: int| 1 <= i < mag(dx) ==> at_xy(s, stepped(a.0 as int, dx, i), a.1 as int)
        == Piece::Empty
}

/// The squares walked from `a` towards the rank offset `dy`, staying on
/// `a`'s file, are all empty.
pub open spec fn ray_y_clear(s: Seq<Piece>, a: Position, dy: int) -> bool {
    forall|i: int| 1 <= i < mag(dy) ==> at_xy(s, a.0 as int, stepped(a.1 as int, dy, i))
        == Piece::Empty
}

/// The squares walked diagonally from `a` towards the offsets, as many steps
/// as the file offset spans, are all empty.
pub open spec fn diag_clear(s: Seq<Piece>, a: Position, dx: int, dy: int) -> bool {
    forall|i: int| 1 <= i < mag(dx) ==> at_xy(
        s,
        stepped(a.0 as int, dx, i),
        stepped(a.1 as int, dy, i),
    ) == Piece::Empty
}

/// The occupancy and blocking rules layered on a piece's movement pattern:
/// both endpoints on the board, the destination not held by a same-colored
/// piece, and per piece kind: a king steps at most one square (so the fixed
/// castling king moves fail this generic rule), sliding pieces need their
/// walked squares empty, knights jump freely, and pawns move forward only —
/// a push needs the square ahead empty, a double push starts on the color's
/// starting rank with the pushed-over and target squares empty, and a
/// diagonal step needs a non-empty target. Whether the
/// mover's own king is left in check is deliberately not examined here.
pub open spec fn spec_legal(s: Seq<Piece>, m: Move) -> bool {
    let piece = at_se(s, m.a);
    let dx = m.b.0 - m.a.0;
    let dy = m.b.1 - m.a.1;
    &&& m.a.spec_valid()
    &&& m.b.spec_valid()
    &&& spec_color(at_se(s, m.b)) != spec_color(piece)
    &&& match piece {
        Piece::Empty => false,
        Piece::Of(c, k) => match k {
            PieceKind::King => mag(dx) <= 1 && mag(dy) <= 1 && !(dx == 0 && dy == 0),
            PieceKind::Queen => if dx == 0 || dy == 0 {
                ray_x_clear(s, m.a, dx) && ray_y_clear(s, m.a, dy)
            } else {
                diag_clear(s, m.a, dx, dy)
            },
            PieceKind::Rook => ray_x_clear(s, m.a, dx) && ray_y_clear(s, m.a, dy),
            PieceKind::Knight => true,
            PieceKind::Bishop => diag_clear(s, m.a, dx, dy),
            PieceKind::Pawn => if c == PlayerColor::White {
                &&& dy >= 0
                &&& (dx != 0 ==> at_xy(s, stepped(m.a.0 as int, dx, 1), m.a.1 + dy)
                    != Piece::Empty)
                &&& (dx == 0 ==> at_xy(s, m.a.0 as int, m.a.1 + 1) == Piece::Empty)
                &&& (dy == 2 ==> (m.a.1 == 2 && at_xy(s, m.a.0 as int, m.a.1 + 2)
                    == Piece::Empty))
            } else if c == PlayerColor::Black {
                &&& dy <= 0
                &&& (dx != 0 ==> at_xy(s, stepped(m.a.0 as int, dx, 1), stepped(m.a.1 as int, dy, 1))
                    != Piece::Empty)
                &&& (dx == 0 ==> at_xy(s, m.a.0 as int, stepped(m.a.1 as int, dy, 1))
                    == Piece::Empty)
                &&& (dy == -2 ==> (m.a.1 == 7 && at_xy(s, m.a.0 as int, m.a.1 - 2)
                    == Piece::Empty))
            } else {
                false
            },
        },
    }
}

/// The first square, in scan order, holding `color`'s king, from scan index
/// `k` on; the off-board sentinel square when there is none.
pub open spec fn king_scan(s: Seq<Piece>, color: PlayerColor, k: int) -> Position
    decreases 64 - k,
{
    if k < 0 || k >= 64 {
        Position(0, 0)
    } else if s[sq(scan_square(k))] == Piece::Of(color, PieceKind::King) {
        scan_square(k)
    } else {
        king_scan(s, color, k + 1)
    }
}

/// Where `color`'s king stands: the first such square in scan order, or the
/// off-board sentinel when the king is absent.
pub open spec fn spec_king_square(s: Seq<Piece>, color: PlayerColor) -> Position {
    king_scan(s, color, 0)
}

/// `color`'s king square is reached by some opposing piece whose move to it
/// passes the legality filter.
pub open spec fn spec_in_check(s: Seq<Piece>, color: PlayerColor) -> bool {
    let kp = spec_king_square(s, color);
    exists|p: Position|
        p.spec_valid() && spec_color(#[trigger] at_se(s, p)) == spec_opposite(color)
            && spec_pseudo_to(at_se(s, p), p, kp) && spec_legal(s, Move { a: p, b: kp })
}

/// Membership in the set of moves the turn logic may consider for `color`:
/// a pseudo-legal move of a `color` piece that passes the legality filter.
pub open spec fn spec_available(s: Seq<Piece>, color: PlayerColor, m: Move) -> bool {
    &&& m.a.spec_valid()
    &&& spec_color(at_se(s, m.a)) == color
    &&& spec_pseudo_to(at_se(s, m.a), m.a, m.b)
    &&& spec_legal(s, m)
}

impl Table {
    /// The piece on the square with the given coordinates; empty off-board.
    fn cell_or_empty(&self, x: i64, y: i64) -> (r: Piece)
        requires
            self.wf(),
        ensures
            r == at_xy(self@, x as int, y as int),
    {
        if x >= 1 && x <= 8 && y >= 1 && y <= 8 {
            self.get_piece_at(Position(x, y))
        } else {
            Piece::Empty
        }
    }

    /// Whether the rank-walk from `a` towards `dx` is free of pieces.
    fn ray_x(&self, a: Position, dx: i64) -> (r: bool)
        requires
            self.wf(),
            a.spec_valid(),
            -7 <= dx <= 7,
        ensures
            r == ray_x_clear(self@, a, dx as int),
    {
        let adx = if dx < 0 {
            -dx
        } else {
            dx
        };
        let mut i: i64 = 1;
        while i < adx
            invariant
                self.wf(),
                a.spec_valid(),
                -7 <= dx <= 7,
                adx == mag(dx as int),
                1 <= i,
                forall|j: int|
                    1 <= j < i ==> at_xy(self@, stepped(a.0 as int, dx as int, j), a.1 as int)
                        == Piece::Empty,
            decreases adx - i,
        {
            let x = if dx > 0 {
                a.0 + i
            } else {
                a.0 - i
            };
            if self.cell_or_empty(x, a.1) != Piece::Empty {
                proof {
                    assert(at_xy(self@, stepped(a.0 as int, dx as int, i as int), a.1 as int)
                        != Piece::Empty);
                }
                return false;
            }
            i = i + 1;
        }
        true
    }

    /// Whether the file-walk from `a` towards `dy` is free of pieces.
    fn ray_y(&self, a: Position, dy: i64) -> (r: bool)
        requires
            self.wf(),
            a.spec_valid(),
            -7 <= dy <= 7,
        ensures
            r == ray_y_clear(self@, a, dy as int),
    {
        let ady = if dy < 0 {
            -dy
        } else {
            dy
        };
        let mut i: i64 = 1;
        while i < ady
            invariant
                self.wf(),
                a.spec_valid(),
                -7 <= dy <= 7,
                ady == mag(dy as int),
                1 <= i,
                forall|j: int|
                    1 <= j < i ==> at_xy(self@, a.0 as int, stepped(a.1 as int, dy as int, j))
                        == Piece::Empty,
            decreases ady - i,
        {
            let y = if dy > 0 {
                a.1 + i
            } else {
                a.1 - i
            };
            if self.cell_or_empty(a.0, y) != Piece::Empty {
                proof {
                    assert(at_xy(self@, a.0 as int, stepped(a.1 as int, dy as int, i as int))
                        != Piece::Empty);
                }
                return false;
            }
            i = i + 1;
        }
        true
    }

    /// Whether the diagonal walk from `a` towards the offsets is free of
    /// pieces, walking as many steps as the file offset spans.
    fn diag(&self, a: Position, dx: i64, dy: i64) -> (r: bool)
        requires
            self.wf(),
            a.spec_valid(),
            -7 <= dx <= 7,
            -7 <= dy <= 7,
        ensures
            r == diag_clear(self@, a, dx as int, dy as int),
    {
        let adx = if dx < 0 {
            -dx
        } else {
            dx
        };
        let mut i: i64 = 1;
        while i < adx
            invariant
                self.wf(),
                a.spec_valid(),
                -7 <= dx <= 7,
                -7 <= dy <= 7,
                adx == mag(dx as int),
                1 <= i,
                forall|j: int|
                    1 <= j < i ==> at_xy(
                        self@,
                        stepped(a.0 as int, dx as int, j),
                        stepped(a.1 as int, dy as int, j),
                    ) == Piece::Empty,
            decreases adx - i,
        {
            let x = if dx > 0 {
                a.0 + i
            } else {
                a.0 - i
            };
            let y = if dy > 0 {
                a.1 + i
            } else if dy < 0 {
                a.1 - i
            } else {
                a.1
            };
            if self.cell_or_empty(x, y) != Piece::Empty {
                proof {
                    assert(at_xy(
                        self@,
                        stepped(a.0 as int, dx as int, i as int),
                        stepped(a.1 as int, dy as int, i as int),
                    ) != Piece::Empty);
                }
                return false;
            }
            i = i + 1;
        }
        true
    }

    /// The legality filter; see `spec_legal` for the rules it applies.
    pub fn is_move_legal(&self, m: &Move) -> (r: bool)
        requires
            self.wf(),
        ensures
            r == spec_legal(self@, *m),
    {
        if !m.a.valid() || !m.b.valid() {
            return false;
        }
        let piece = self.get_piece_at(m.a);
        if self.get_piece_at(m.b).color() == piece.color() {
            return false;
        }
        let dx = m.b.0 - m.a.0;
        let dy = m.b.1 - m.a.1;
        let adx = if dx < 0 {
            -dx
        } else {
            dx
        };
        let ady = if dy < 0 {
            -dy
        } else {
            dy
        };
        match piece {
            Piece::Empty => false,
            Piece::Of(c, k) => match k {
                PieceKind::King => adx <= 1 && ady <= 1 && !(dx == 0 && dy == 0),
                PieceKind::Queen => if dx == 0 || dy == 0 {
                    self.ray_x(m.a, dx) && self.ray_y(m.a, dy)
                } else {
                    self.diag(m.a, dx, dy)
                },
                PieceKind::Rook => self.ray_x(m.a, dx) && self.ray_y(m.a, dy),
                PieceKind::Knight => true,
                PieceKind::Bishop => self.diag(m.a, dx, dy),
                PieceKind::Pawn => match c {
                    PlayerColor::White => {
                        let sx = if dx > 0 {
                            m.a.0 + 1
                        } else if dx < 0 {
                            m.a.0 - 1
                        } else {
                            m.a.0
                        };
                        &&& dy >= 0
                        &&& (dx == 0 || self.cell_or_empty(sx, m.a.1 + dy) != Piece::Empty)
                        &&& (dx != 0 || self.cell_or_empty(m.a.0, m.a.1 + 1) == Piece::Empty)
                        &&& (dy != 2 || (m.a.1 == 2 && self.cell_or_empty(m.a.0, m.a.1 + 2)
                            == Piece::Empty))
                    },
                    PlayerColor::Black => {
                        let sx = if dx > 0 {
                            m.a.0 + 1
                        } else if dx < 0 {
                            m.a.0 - 1
                        } else {
                            m.a.0
                        };
                        let sy = if dy > 0 {
                            m.a.1 + 1
                        } else if dy < 0 {
                            m.a.1 - 1
                        } else {
                            m.a.1
                        };
                        &&& dy <= 0
                        &&& (dx == 0 || self.cell_or_empty(sx, sy) != Piece::Empty)
                        &&& (dx != 0 || self.cell_or_empty(m.a.0, sy) == Piece::Empty)
                        &&& (dy != -2 || (m.a.1 == 7 && self.cell_or_empty(m.a.0, m.a.1 - 2)
                            == Piece::Empty))
                    },
                    PlayerColor::Unknown => false,
                },
            },
        }
    }

    /// Where `color`'s king stands: the first such square in scan order, or
    /// the off-board sentinel when the king is absent.
    pub fn king_square(&self, color: PlayerColor) -> (r: Position)
        requires
            self.wf(),
        ensures
            r == spec_king_square(self@, color),
    {
        let mut k: usize = 0;
        while k < 64
            invariant
                self.wf(),
                k <= 64,
                king_scan(self@, color, 0) == king_scan(self@, color, k as int),
            decreases 64 - k,
        {
            let p = scan_pos(k);
            if self.get_piece_at(p) == Piece::Of(color, PieceKind::King) {
                proof {
                    assert(king_scan(self@, color, k as int) == p);
                }
                return p;
            }
            k = k + 1;
        }
        Position(0, 0)
    }

    /// Check detection: see `spec_in_check`.
    pub fn in_check(&self, color: PlayerColor) -> (r: bool)
        requires
            self.wf(),
        ensures
            r == spec_in_check(self@, color),
    {
        let kp = self.king_square(color);
        let opp = opposite(color);
        let mut k: usize = 0;
        while k < 64
            invariant
                self.wf(),
                k <= 64,
                kp == spec_king_square(self@, color),
                opp == spec_opposite(color),
                forall|j: int|
                    0 <= j < k ==> !(spec_color(#[trigger] at_se(self@, scan_square(j)))
                        == spec_opposite(color) && spec_pseudo_to(
                        at_se(self@, scan_square(j)),
                        scan_square(j),
                        kp,
                    ) && spec_legal(self@, Move { a: scan_square(j), b: kp })),
            decreases 64 - k,
        {
            let p = scan_pos(k);
            let piece = self.get_piece_at(p);
            if piece.color() == opp && can_reach(piece, p, kp) && self.is_move_legal(
                &Move { a: p, b: kp },
            ) {
                return true;
            }
            k = k + 1;
        }
        proof {
            assert forall|p: Position|
                p.spec_valid() && spec_color(#[trigger] at_se(self@, p)) == spec_opposite(color)
                    && spec_pseudo_to(at_se(self@, p), p, kp) implies !spec_legal(
                self@,
                Move { a: p, b: kp },
            ) by {
                let j = scan_idx(p);
                assert(scan_square(j) == p);
            }
        }
        false
    }

    /// Every move the turn logic may consider for `color`, each exactly
    /// once, in ascending enumeration order (source square first, then
    /// destination); see `spec_available` for membership.
    pub fn available_moves(&self, color: PlayerColor) -> (v: Vec<Move>)
        requires
            self.wf(),
        ensures
            forall|m: Move| #[trigger] v@.contains(m) <==> spec_available(self@, color, m),
            forall|i: int, j: int|
                0 <= i < j < v@.len() ==> move_key(#[trigger] v@[i]) < move_key(#[trigger] v@[j]),
    {
        let mut v: Vec<Move> = Vec::new();
        let mut k: usize = 0;
        while k < 64
            invariant
                self.wf(),
                k <= 64,
                forall|m: Move| #[trigger]
                    v@.contains(m) <==> (spec_available(self@, color, m) && scan_idx(m.a) < k),
                forall|i: int| 0 <= i < v@.len() ==> move_key(#[trigger] v@[i]) < k * 64,
                forall|i: int, j: int|
                    0 <= i < j < v@.len() ==> move_key(#[trigger] v@[i]) < move_key(
                        #[trigger] v@[j],
                    ),
            decreases 64 - k,
        {
            let p = scan_pos(k);
            let piece = self.get_piece_at(p);
            if piece.color() == color {
                let mut t: usize = 0;
                while t < 64
                    invariant
                        self.wf(),
                        k < 64,
                        t <= 64,
                        p == scan_square(k as int),
                        p.spec_valid(),
                        piece == self.at(p),
                        spec_color(piece) == color,
                        forall|m: Move| #[trigger]
                            v@.contains(m) <==> (spec_available(self@, color, m) && (scan_idx(m.a)
                                < k || (m.a == p && scan_idx(m.b) < t))),
                        forall|i: int|
                            0 <= i < v@.len() ==> move_key(#[trigger] v@[i]) < k * 64 + t,
                        forall|i: int, j: int|
                            0 <= i < j < v@.len() ==> move_key(#[trigger] v@[i]) < move_key(
                                #[trigger] v@[j],
                            ),
                    decreases 64 - t,
                {
                    let q = scan_pos(t);
                    let m = Move { a: p, b: q };
                    proof {
                        assert(scan_idx(p) == k as int);
                        assert(scan_idx(q) == t as int);
                    }
                    if can_reach(piece, p, q) && self.is_move_legal(&m) {
                        v.push(m);
                    }
                    t = t + 1;
                }
                proof {
                    assert forall|m: Move|
                        spec_available(self@, color, m) && m.a == p implies scan_idx(m.b) < 64 by {
                    }
                }
            }
            proof {
                assert forall|m: Move|
                    spec_available(self@, color, m) && scan_idx(m.a) == k as int implies m.a
                    == scan_square(k as int) by {
                    assert(scan_square(scan_idx(m.a)) == m.a);
                }
            }
            k = k + 1;
        }
        proof {
            assert forall|m: Move| spec_available(self@, color, m) implies scan_idx(m.a) < 64 by {}
        }
        v
    }
}

} // verus!
