use vstd::prelude::*;

use crate::board::{init_board, scan_pos, scan_square, spec_process, sq, Table};
use crate::piece::{can_reach, opposite, spec_color, spec_opposite, spec_value, Piece, PlayerColor};
use crate::position::{scan_idx, Move, Position};
use crate::rules::{at_se, spec_available, spec_in_check};

verus! {

/// Some move of `color` available on `s` lands on `target`.
pub open spec fn spec_any_move_to(s: Seq<Piece>, color: PlayerColor, target: Position) -> bool {
    exists|m: Move| m.b == target && #[trigger] spec_available(s, color, m)
}

/// The capture signal: the destination held an opposing piece before the
/// move, worth 17 times its value.
pub open spec fn capture_term(s: Seq<Piece>, m: Move) -> int {
    if spec_color(at_se(s, m.b)) == spec_opposite(spec_color(at_se(s, m.a))) {
        spec_value(at_se(s, m.b)) * 17
    } else {
        0
    }
}

/// The follow-up attack signal for one destination square `d`: after the
/// move, the moved piece (now on `from`) can reach `d`, the square held an
/// opposing piece before the move, and the opponent has no reply landing on
/// `d` once that follow-up is played; worth twice the target's value.
pub open spec fn attack_bonus(
    pre: Seq<Piece>,
    post: Seq<Piece>,
    color: PlayerColor,
    from: Position,
    d: Position,
) -> int {
    let m2 = Move { a: from, b: d };
    if spec_available(post, color, m2) && spec_color(at_se(pre, d)) == spec_opposite(color)
        && !spec_any_move_to(spec_process(post, m2), spec_opposite(color), d) {
        spec_value(at_se(pre, d)) * 2
    } else {
        0
    }
}

/// Sum of the follow-up attack signal over the scanned squares `k..64`.
pub open spec fn attack_sum(
    pre: Seq<Piece>,
    post: Seq<Piece>,
    color: PlayerColor,
    from: Position,
    k: int,
) -> int
    decreases 64 - k,
{
    if k < 0 || k >= 64 {
        0
    } else {
        attack_bonus(pre, post, color, from, scan_square(k)) + attack_sum(
            pre,
            post,
            color,
            from,
            k + 1,
        )
    }
}

/// The hanging-piece signal for one opposing reply from `src` to `d`: after
/// the move, the opponent can capture a piece of the mover's color on `d`
/// and the mover has no recapture landing on `d`; worth minus 18 times the
/// threatened piece's value.
pub open spec fn giveaway_malus(
    post: Seq<Piece>,
    color: PlayerColor,
    src: Position,
    d: Position,
) -> int {
    let m2 = Move { a: src, b: d };
    if spec_available(post, spec_opposite(color), m2) && spec_color(at_se(post, d)) == color
        && !spec_any_move_to(spec_process(post, m2), color, d) {
        -(spec_value(at_se(post, d)) * 18)
    } else {
        0
    }
}

/// Sum of the hanging-piece signal for replies from `src`, over destination
/// squares `k..64`.
pub open spec fn giveaway_sum_d(
    post: Seq<Piece>,
    color: PlayerColor,
    src: Position,
    k: int,
) -> int
    decreases 64 - k,
{
    if k < 0 || k >= 64 {
        0
    } else {
        giveaway_malus(post, color, src, scan_square(k)) + giveaway_sum_d(post, color, src, k + 1)
    }
}

/// Sum of the hanging-piece signal over reply source squares `k..64`.
pub open spec fn giveaway_sum(post: Seq<Piece>, color: PlayerColor, k: int) -> int
    decreases 64 - k,
{
    if k < 0 || k >= 64 {
        0
    } else {
        giveaway_sum_d(post, color, scan_square(k), 0) + giveaway_sum(post, color, k + 1)
    }
}

/// The development signal: a non-pawn, non-king piece still standing on its
/// square of the initial setup is worth 10 for moving at all.
pub open spec fn develop_term(s: Seq<Piece>, m: Move) -> int {
    let piece = at_se(s, m.a);
    if spec_value(piece) > 1 && spec_value(piece) != 18 && init_board()[sq(m.a)] == piece {
        10
    } else {
        0
    }
}

/// The center-control signal: a destination in the central 2x2 block is
/// worth 12.
pub open spec fn center_term(m: Move) -> int {
    if (m.b.0 == 4 || m.b.0 == 5) && (m.b.1 == 4 || m.b.1 == 5) {
        12
    } else {
        0
    }
}

/// The heuristic score of playing `m` on `s`: a pure function of the two.
/// A move that leaves the mover in check scores -1 outright; otherwise the
/// additive signals, all judged on the post-move board where they simulate
/// a reply, are summed.
pub open spec fn spec_move_score(s: Seq<Piece>, m: Move) -> int {
    let piece = at_se(s, m.a);
    let color = spec_color(piece);
    let post = spec_process(s, m);
    if spec_in_check(post, color) {
        -1
    } else {
        capture_term(s, m) + attack_sum(s, post, color, m.b, 0) + develop_term(s, m)
            + giveaway_sum(post, color, 0) + center_term(m)
    }
}

impl Table {
    /// Whether `m` is one of the moves `available_moves(color)` yields.
    pub fn is_available(&self, color: PlayerColor, m: &Move) -> (r: bool)
        requires
            self.wf(),
        ensures
            r == spec_available(self@, color, *m),
    {
        if !m.a.valid() {
            return false;
        }
        let piece = self.get_piece_at(m.a);
        piece.color() == color && can_reach(piece, m.a, m.b) && self.is_move_legal(m)
    }

    /// Whether some available move of `color` lands on `target`.
    pub fn any_move_to(&self, color: PlayerColor, target: Position) -> (r: bool)
        requires
            self.wf(),
        ensures
            r == spec_any_move_to(self@, color, target),
    {
        let mut k: usize = 0;
        while k < 64
            invariant
                self.wf(),
                k <= 64,
                forall|j: int|
                    0 <= j < k ==> !spec_available(
                        self@,
                        color,
                        Move { a: #[trigger] scan_square(j), b: target },
                    ),
            decreases 64 - k,
        {
            let p = scan_pos(k);
            if self.is_available(color, &Move { a: p, b: target }) {
                return true;
            }
            k = k + 1;
        }
        proof {
            assert forall|m: Move|
                m.b == target && #[trigger] spec_available(self@, color, m) implies false by {
                let j = scan_idx(m.a);
                assert(scan_square(j) == m.a);
            }
        }
        false
    }

    /// The follow-up attack total; see `attack_bonus`.
    fn attack_total(&self, post: &Table, color: PlayerColor, from: Position) -> (r: i32)
        requires
            self.wf(),
            post.wf(),
            from.spec_valid(),
        ensures
            r as int == attack_sum(self@, post@, color, from, 0),
            0 <= r as int <= 2304,
    {
        let mut acc: i32 = 0;
        let mut k: usize = 0;
        while k < 64
            invariant
                self.wf(),
                post.wf(),
                from.spec_valid(),
                k <= 64,
                acc as int + attack_sum(self@, post@, color, from, k as int) == attack_sum(
                    self@,
                    post@,
                    color,
                    from,
                    0,
                ),
                0 <= acc as int <= 36 * k,
            decreases 64 - k,
        {
            let d = scan_pos(k);
            let m2 = Move { a: from, b: d };
            if post.is_available(color, &m2) && self.get_piece_at(d).color() == opposite(color) {
                let t2 = post.assume_move(m2);
                if !t2.any_move_to(opposite(color), d) {
                    acc = acc + self.get_piece_at(d).value() * 2;
                }
            }
            k = k + 1;
        }
        acc
    }

    /// The hanging-piece total for replies from `src`; see `giveaway_malus`.
    fn giveaway_row(&self, color: PlayerColor, src: Position) -> (r: i32)
        requires
            self.wf(),
        ensures
            r as int == giveaway_sum_d(self@, color, src, 0),
            -20736 <= r as int <= 0,
    {
        let mut acc: i32 = 0;
        let mut k: usize = 0;
        while k < 64
            invariant
                self.wf(),
                k <= 64,
                acc as int + giveaway_sum_d(self@, color, src, k as int) == giveaway_sum_d(
                    self@,
                    color,
                    src,
                    0,
                ),
                -324 * k <= acc as int <= 0,
            decreases 64 - k,
        {
            let d = scan_pos(k);
            let m2 = Move { a: src, b: d };
            if self.is_available(opposite(color), &m2) && self.get_piece_at(d).color() == color {
                let t2 = self.assume_move(m2);
                if !t2.any_move_to(color, d) {
                    acc = acc - self.get_piece_at(d).value() * 18;
                }
            }
            k = k + 1;
        }
        acc
    }

    /// The hanging-piece total over every opposing reply; see
    /// `giveaway_malus`. `self` is the post-move board.
    fn giveaway_total(&self, color: PlayerColor) -> (r: i32)
        requires
            self.wf(),
        ensures
            r as int == giveaway_sum(self@, color, 0),
            -1327104 <= r as int <= 0,
    {
        let mut acc: i32 = 0;
        let mut k: usize = 0;
        while k < 64
            invariant
                self.wf(),
                k <= 64,
                acc as int + giveaway_sum(self@, color, k as int) == giveaway_sum(self@, color, 0),
                -20736 * k <= acc as int <= 0,
            decreases 64 - k,
        {
            let src = scan_pos(k);
            let row = self.giveaway_row(color, src);
            acc = acc + row;
            k = k + 1;
        }
        acc
    }

    /// The heuristic score of playing `m` on this board; see
    /// `spec_move_score`. Identical boards and moves always score
    /// identically.
    pub fn move_score(&self, m: Move) -> (r: i32)
        requires
            self.wf(),
            m.spec_valid(),
        ensures
            r as int == spec_move_score(self@, m),
    {
        let piece = self.get_piece_at(m.a);
        let color = piece.color();
        let opp = opposite(color);
        let t = self.assume_move(m);

        if t.in_check(color) {
            return -1;
        }

        let capture: i32 = if self.get_piece_at(m.b).color() == opp {
            self.get_piece_at(m.b).value() * 17
        } else {
            0
        };

        let attack: i32 = self.attack_total(&t, color, m.b);

        let start = Table::default();
        let develop: i32 = if piece.value() > 1 && piece.value() != 18 && start.get_piece_at(m.a)
            == piece {
            10
        } else {
            0
        };

        let hanging: i32 = t.giveaway_total(color);

        let center: i32 = if (m.b.0 == 4 || m.b.0 == 5) && (m.b.1 == 4 || m.b.1 == 5) {
            12
        } else {
            0
        };

        capture + attack + develop + hanging + center
    }
}

} // verus!
