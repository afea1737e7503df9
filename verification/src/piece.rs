use vstd::prelude::*;

use crate::position::{scan_idx, Move, Position};

verus! {

broadcast use vstd::seq_lib::lemma_seq_contains_after_push;

/// A side of the game. `Unknown` marks an empty square's owner and a session
/// whose color has not been resolved yet.
#[derive(Copy, Clone, PartialEq, Eq, Structural, Debug)]
pub enum PlayerColor {
    White,
    Black,
    Unknown,
}

/// The six piece kinds.
#[derive(Copy, Clone, PartialEq, Eq, Structural, Debug)]
pub enum PieceKind {
    King,
    Queen,
    Rook,
    Knight,
    Bishop,
    Pawn,
}

/// A board cell: a colored piece, or nothing.
#[derive(Copy, Clone, PartialEq, Eq, Structural, Debug)]
pub enum Piece {
    Of(PlayerColor, PieceKind),
    Empty,
}

pub open spec fn spec_opposite(color: PlayerColor) -> PlayerColor {
    if color == PlayerColor::White {
        PlayerColor::Black
    } else {
        PlayerColor::White
    }
}

/// The color moving against `color`.
#[verifier::when_used_as_spec(spec_opposite)]
pub fn opposite(color: PlayerColor) -> (r: PlayerColor)
    ensures
        r == spec_opposite(color),
{
    if color == PlayerColor::White {
        PlayerColor::Black
    } else {
        PlayerColor::White
    }
}

/// The lowercase color name used in textual interfaces.
pub fn color_to_str(color: PlayerColor) -> (r: String)
    ensures
        color == PlayerColor::White ==> r@ == "white"@,
        color == PlayerColor::Black ==> r@ == "black"@,
        color == PlayerColor::Unknown ==> r@ == "err"@,
{
    if color == PlayerColor::White {
        "white".to_owned()
    } else if color == PlayerColor::Black {
        "black".to_owned()
    } else {
        "err".to_owned()
    }
}

/// The fixed material value of a piece: King 18, Queen 9, Rook 5, Knight and
/// Bishop 3, Pawn 1, empty square 0. The King's finite value is heuristic
/// arithmetic only.
pub open spec fn spec_value(p: Piece) -> int {
    match p {
        Piece::Empty => 0,
        Piece::Of(_, PieceKind::King) => 18,
        Piece::Of(_, PieceKind::Queen) => 9,
        Piece::Of(_, PieceKind::Rook) => 5,
        Piece::Of(_, PieceKind::Knight) => 3,
        Piece::Of(_, PieceKind::Bishop) => 3,
        Piece::Of(_, PieceKind::Pawn) => 1,
    }
}

pub open spec fn spec_color(p: Piece) -> PlayerColor {
    match p {
        Piece::Empty => PlayerColor::Unknown,
        Piece::Of(c, _) => c,
    }
}

/// Magnitude of a coordinate difference.
pub open spec fn mag(x: int) -> int {
    if x < 0 {
        -x
    } else {
        x
    }
}

/// The pseudo-legal destination relation: `to` is consistent with the
/// movement pattern of `p` standing on `from` and lies on the board;
/// occupancy and check safety are ignored.
pub open spec fn spec_pseudo_to(p: Piece, from: Position, to: Position) -> bool {
    let dx = to.0 - from.0;
    let dy = to.1 - from.1;
    &&& to.spec_valid()
    &&& match p {
        Piece::Empty => false,
        Piece::Of(c, k) => match k {
            PieceKind::King => mag(dx) <= 1 && mag(dy) <= 1 && !(dx == 0 && dy == 0),
            PieceKind::Queen => ((dx == 0 && dy != 0) || (dy == 0 && dx != 0)) || (dx != 0 && (dy
                == dx || dy == -dx)),
            PieceKind::Rook => (dx == 0 && dy != 0) || (dy == 0 && dx != 0),
            PieceKind::Knight => (mag(dx) == 1 && mag(dy) == 2) || (mag(dx) == 2 && mag(dy) == 1),
            PieceKind::Bishop => dx != 0 && (dy == dx || dy == -dx),
            PieceKind::Pawn => if c == PlayerColor::White {
                (dx == 0 && (dy == 1 || dy == 2)) || (mag(dx) == 1 && dy == 1)
            } else if c == PlayerColor::Black {
                (dx == 0 && (dy == -1 || dy == -2)) || (mag(dx) == 1 && dy == -1)
            } else {
                false
            },
        },
    }
}

/// Executable test of `spec_pseudo_to`.
pub fn can_reach(p: Piece, from: Position, to: Position) -> (r: bool)
    requires
        from.spec_valid(),
    ensures
        r == spec_pseudo_to(p, from, to),
{
    if !to.valid() {
        return false;
    }
    let dx = to.0 - from.0;
    let dy = to.1 - from.1;
    let adx = if dx < 0 {
        -dx
    } else {
        dx
    };
    let ady = if dy < 0 {
        -dy
    } else {
        dy
    };
    match p {
        Piece::Empty => false,
        Piece::Of(c, k) => match k {
            PieceKind::King => adx <= 1 && ady <= 1 && !(dx == 0 && dy == 0),
            PieceKind::Queen => ((dx == 0 && dy != 0) || (dy == 0 && dx != 0)) || (dx != 0 && (dy
                == dx || dy == -dx)),
            PieceKind::Rook => (dx == 0 && dy != 0) || (dy == 0 && dx != 0),
            PieceKind::Knight => (adx == 1 && ady == 2) || (adx == 2 && ady == 1),
            PieceKind::Bishop => dx != 0 && (dy == dx || dy == -dx),
            PieceKind::Pawn => if c == PlayerColor::White {
                (dx == 0 && (dy == 1 || dy == 2)) || (adx == 1 && dy == 1)
            } else if c == PlayerColor::Black {
                (dx == 0 && (dy == -1 || dy == -2)) || (adx == 1 && dy == -1)
            } else {
                false
            },
        },
    }
}

impl Piece {
    /// The piece's material value.
    pub fn value(&self) -> (r: i32)
        ensures
            r as int == spec_value(*self),
    {
        match self {
            Piece::Empty => 0,
            Piece::Of(_, PieceKind::King) => 18,
            Piece::Of(_, PieceKind::Queen) => 9,
            Piece::Of(_, PieceKind::Rook) => 5,
            Piece::Of(_, PieceKind::Knight) => 3,
            Piece::Of(_, PieceKind::Bishop) => 3,
            Piece::Of(_, PieceKind::Pawn) => 1,
        }
    }

    /// The piece's owner; `Unknown` for an empty square.
    pub fn color(&self) -> (r: PlayerColor)
        ensures
            r == spec_color(*self),
    {
        match self {
            Piece::Empty => PlayerColor::Unknown,
            Piece::Of(c, _) => *c,
        }
    }

    /// All pseudo-legal moves of this piece from `pos`: every on-board
    /// destination consistent with its movement pattern, each exactly once,
    /// destinations in ascending scan order.
    pub fn moves(&self, pos: Position) -> (v: Vec<Move>)
        requires
            pos.spec_valid(),
        ensures
            forall|m: Move| #[trigger]
                v@.contains(m) <==> (m.a == pos && spec_pseudo_to(*self, pos, m.b)),
            forall|i: int, j: int|
                0 <= i < j < v@.len() ==> scan_idx((#[trigger] v@[i]).b) < scan_idx(
                    (#[trigger] v@[j]).b,
                ),
    {
        let mut v: Vec<Move> = Vec::new();
        let mut x: i64 = 1;
        while x <= 8
            invariant
                pos.spec_valid(),
                1 <= x <= 9,
                forall|m: Move| #[trigger]
                    v@.contains(m) <==> (m.a == pos && spec_pseudo_to(*self, pos, m.b) && m.b.0
                        < x),
                forall|i: int| 0 <= i < v@.len() ==> scan_idx((#[trigger] v@[i]).b) < (x - 1) * 8,
                forall|i: int, j: int|
                    0 <= i < j < v@.len() ==> scan_idx((#[trigger] v@[i]).b) < scan_idx(
                        (#[trigger] v@[j]).b,
                    ),
            decreases 9 - x,
        {
            let mut y: i64 = 1;
            while y <= 8
                invariant
                    pos.spec_valid(),
                    1 <= x <= 8,
                    1 <= y <= 9,
                    forall|m: Move| #[trigger]
                        v@.contains(m) <==> (m.a == pos && spec_pseudo_to(*self, pos, m.b) && (m.b.0
                            < x || (m.b.0 == x && m.b.1 < y))),
                    forall|i: int|
                        0 <= i < v@.len() ==> scan_idx((#[trigger] v@[i]).b) < (x - 1) * 8 + (y
                            - 1),
                    forall|i: int, j: int|
                        0 <= i < j < v@.len() ==> scan_idx((#[trigger] v@[i]).b) < scan_idx(
                            (#[trigger] v@[j]).b,
                        ),
                decreases 9 - y,
            {
                let to = Position(x, y);
                if can_reach(*self, pos, to) {
                    v.push(Move { a: pos, b: to });
                }
                y = y + 1;
            }
            x = x + 1;
        }
        v
    }
}

} // verus!
