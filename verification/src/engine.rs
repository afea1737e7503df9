use vstd::prelude::*;

use crate::board::{piece_count, spec_process, spec_score, Table};
use crate::eval::spec_move_score;
use crate::fen::spec_fen;
use crate::piece::{spec_opposite, Piece, PlayerColor};
use crate::position::{move_key, Move};
use crate::rules::{spec_available, spec_in_check};

verus! {

/// Playing `m` on `t` leaves `color`'s own king in check.
pub open spec fn self_check(t: Seq<Piece>, color: PlayerColor, m: Move) -> bool {
    spec_in_check(spec_process(t, m), color)
}

/// How many draws say `true` before the first `false`, from `k` on.
pub open spec fn leading_trues(draws: Seq<bool>, k: int) -> int
    decreases draws.len() - k,
{
    if k < 0 || k >= draws.len() {
        0
    } else if draws[k] {
        1 + leading_trues(draws, k + 1)
    } else {
        0
    }
}

/// How many ranks a sequence of random draws walks down: one per leading
/// `true` draw.
pub fn walk_steps(draws: &Vec<bool>) -> (n: usize)
    ensures
        n as int == leading_trues(draws@, 0),
{
    let mut k: usize = 0;
    while k < draws.len()
        invariant
            k <= draws@.len(),
            leading_trues(draws@, 0) == k + leading_trues(draws@, k as int),
            forall|j: int| 0 <= j < k ==> draws@[j],
        decreases draws@.len() - k,
    {
        if !draws[k] {
            return k;
        }
        k = k + 1;
    }
    k
}

/// The first rank, from `k` on, holding the move `m`; the list length when
/// none does.
pub open spec fn index_of_move(ranked: Seq<(i32, Move)>, m: Move, k: int) -> int
    decreases ranked.len() - k,
{
    if k < 0 || k >= ranked.len() {
        ranked.len() as int
    } else if ranked[k].1 == m {
        k
    } else {
        index_of_move(ranked, m, k + 1)
    }
}

/// What one probe of the ranked list yields: a candidate to submit, notice
/// that a candidate was dropped for leaving the king in check, or notice
/// that the list is exhausted.
#[derive(Copy, Clone, PartialEq, Eq, Structural, Debug)]
pub enum Probe {
    Offer(Move),
    Dropped,
    Exhausted,
}

/// The ranked candidate list of one turn, scores first, best first.
pub struct Selection {
    pub ranked: Vec<(i32, Move)>,
}

impl Selection {
    /// Every candidate has both endpoints on the board.
    pub open spec fn wf(&self) -> bool {
        forall|i: int| 0 <= i < self.ranked@.len() ==> (#[trigger] self.ranked@[i]).1.spec_valid()
    }

    /// Scores never increase down the list.
    pub open spec fn sorted_desc(&self) -> bool {
        forall|i: int, j: int|
            0 <= i < j < self.ranked@.len() ==> (#[trigger] self.ranked@[i]).0 >= (
            #[trigger] self.ranked@[j]).0
    }
}

/// The ranked list holds exactly the available moves of `color` on `s`,
/// each paired with its heuristic score, in descending score order; among
/// equal scores the move enumerated earlier stays earlier.
pub open spec fn ranked_for(sel: Selection, s: Seq<Piece>, color: PlayerColor) -> bool {
    &&& sel.wf()
    &&& sel.sorted_desc()
    &&& forall|i: int|
        0 <= i < sel.ranked@.len() ==> ((#[trigger] sel.ranked@[i]).0 as int == spec_move_score(
            s,
            sel.ranked@[i].1,
        ) && spec_available(s, color, sel.ranked@[i].1))
    &&& forall|m: Move|
        #[trigger] spec_available(s, color, m) ==> exists|i: int|
            0 <= i < sel.ranked@.len() && sel.ranked@[i].1 == m
    &&& forall|i: int, j: int|
        0 <= i < j < sel.ranked@.len() && (#[trigger] sel.ranked@[i]).0 == (
        #[trigger] sel.ranked@[j]).0 ==> move_key(sel.ranked@[i].1) < move_key(sel.ranked@[j].1)
}

/// What the engine decides on seeing the board at the start of its turn:
/// with at most 7 pieces left, query the endgame tablebase with the
/// board's FEN; otherwise, when losing badly on material, resign; otherwise
/// pick among the ranked candidates.
pub enum TurnStart {
    Lookup(String),
    ResignNow,
    Choose(Selection),
}

/// Scores every available move of `color` and ranks them best first; among
/// equal scores the one generated earlier stays earlier.
#[verifier::rlimit(40)]
pub fn rank_moves(table: &Table, color: PlayerColor) -> (sel: Selection)
    requires
        table.wf(),
    ensures
        ranked_for(sel, table@, color),
{
    let avail = table.available_moves(color);
    let mut scored: Vec<(i32, Move)> = Vec::new();
    let mut k: usize = 0;
    while k < avail.len()
        invariant
            table.wf(),
            k <= avail@.len(),
            scored@.len() == k,
            forall|m: Move| #[trigger] avail@.contains(m) <==> spec_available(table@, color, m),
            forall|i: int, j: int|
                0 <= i < j < avail@.len() ==> move_key(#[trigger] avail@[i]) < move_key(
                    #[trigger] avail@[j],
                ),
            forall|i: int| 0 <= i < k ==> (#[trigger] scored@[i]).1 == avail@[i],
            forall|i: int|
                0 <= i < k ==> (#[trigger] scored@[i]).0 as int == spec_move_score(
                    table@,
                    scored@[i].1,
                ),
            forall|i: int, j: int|
                0 <= i < j < k ==> move_key((#[trigger] scored@[i]).1) < move_key(
                    (#[trigger] scored@[j]).1,
                ),
        decreases avail@.len() - k,
    {
        let m = avail[k];
        proof {
            assert(avail@.contains(avail@[k as int]));
            assert forall|i: int| 0 <= i < k implies move_key((#[trigger] scored@[i]).1)
                < move_key(m) by {
                assert(scored@[i].1 == avail@[i]);
                assert(move_key(avail@[i]) < move_key(avail@[k as int]));
            }
        }
        let s = table.move_score(m);
        scored.push((s, m));
        k = k + 1;
    }
    proof {
        assert forall|m: Move| #[trigger] spec_available(table@, color, m) implies exists|i: int|
            0 <= i < scored@.len() && scored@[i].1 == m by {
            assert(avail@.contains(m));
            let i = choose|i: int| 0 <= i < avail@.len() && avail@[i] == m;
            assert(scored@[i].1 == m);
        }
        assert forall|i: int| 0 <= i < scored@.len() implies spec_available(
            table@,
            color,
            (#[trigger] scored@[i]).1,
        ) by {
            assert(avail@.contains(avail@[i]));
        }
    }

    let mut rest = scored;
    let mut out: Vec<(i32, Move)> = Vec::new();
    while rest.len() > 0
        invariant
            forall|i: int|
                0 <= i < rest@.len() ==> ((#[trigger] rest@[i]).0 as int == spec_move_score(
                    table@,
                    rest@[i].1,
                ) && spec_available(table@, color, rest@[i].1)),
            forall|i: int|
                0 <= i < out@.len() ==> ((#[trigger] out@[i]).0 as int == spec_move_score(
                    table@,
                    out@[i].1,
                ) && spec_available(table@, color, out@[i].1)),
            forall|i: int, j: int|
                0 <= i < j < out@.len() ==> (#[trigger] out@[i]).0 >= (#[trigger] out@[j]).0,
            forall|i: int, j: int|
                0 <= i < out@.len() && 0 <= j < rest@.len() ==> (#[trigger] out@[i]).0 >= (
                #[trigger] rest@[j]).0,
            forall|m: Move|
                #[trigger] spec_available(table@, color, m) ==> (exists|i: int|
                    0 <= i < out@.len() && out@[i].1 == m) || (exists|i: int|
                    0 <= i < rest@.len() && rest@[i].1 == m),
            forall|i: int, j: int|
                0 <= i < j < rest@.len() ==> move_key((#[trigger] rest@[i]).1) < move_key(
                    (#[trigger] rest@[j]).1,
                ),
            forall|i: int, j: int|
                0 <= i < j < out@.len() && (#[trigger] out@[i]).0 == (#[trigger] out@[j]).0
                    ==> move_key(out@[i].1) < move_key(out@[j].1),
            forall|i: int, j: int|
                0 <= i < out@.len() && 0 <= j < rest@.len() && (#[trigger] out@[i]).0 == (
                #[trigger] rest@[j]).0 ==> move_key(out@[i].1) < move_key(rest@[j].1),
        decreases rest@.len(),
    {
        let mut best: usize = 0;
        let mut bi: usize = 1;
        while bi < rest.len()
            invariant
                1 <= bi <= rest@.len(),
                best < bi,
                forall|j: int| 0 <= j < bi ==> rest@[best as int].0 >= (#[trigger] rest@[j]).0,
                forall|j: int| 0 <= j < best ==> (#[trigger] rest@[j]).0 < rest@[best as int].0,
            decreases rest@.len() - bi,
        {
            if rest[bi].0 > rest[best].0 {
                best = bi;
            }
            bi = bi + 1;
        }
        let item = rest[best];
        let ghost pre_out = out@;
        out.push(item);
        let ghost pre = rest@;
        rest.remove(best);
        proof {
            pre.remove_ensures(best as int);
            assert(out@[out@.len() - 1] == item);
            assert(item == pre[best as int]);
            assert forall|i2: int, j2: int|
                0 <= i2 < j2 < rest@.len() implies move_key((#[trigger] rest@[i2]).1) < move_key(
                (#[trigger] rest@[j2]).1,
            ) by {
                if i2 < best {
                    assert(rest@[i2] == pre[i2]);
                } else {
                    assert(rest@[i2] == pre[i2 + 1]);
                }
                if j2 < best {
                    assert(rest@[j2] == pre[j2]);
                } else {
                    assert(rest@[j2] == pre[j2 + 1]);
                }
            }
            assert forall|i2: int, j2: int|
                0 <= i2 < out@.len() && 0 <= j2 < rest@.len() && (#[trigger] out@[i2]).0 == (
            #[trigger] rest@[j2]).0 implies move_key(out@[i2].1) < move_key(rest@[j2].1) by {
                let pj = if j2 < best {
                    j2
                } else {
                    j2 + 1
                };
                assert(rest@[j2] == pre[pj]);
                if i2 < out@.len() - 1 {
                    assert(out@[i2] == pre_out[i2]);
                } else {
                    assert(out@[i2] == item);
                    if pj < best {
                        assert(pre[pj].0 < pre[best as int].0);
                    } else {
                        assert(pj > best);
                        assert(move_key(pre[best as int].1) < move_key(pre[pj].1));
                    }
                }
            }
            assert forall|i2: int, j2: int|
                0 <= i2 < j2 < out@.len() && (#[trigger] out@[i2]).0 == (#[trigger] out@[j2]).0
                 implies move_key(out@[i2].1) < move_key(out@[j2].1) by {
                assert(out@[i2] == pre_out[i2]);
                if j2 < out@.len() - 1 {
                    assert(out@[j2] == pre_out[j2]);
                } else {
                    assert(out@[j2] == item);
                }
            }
            assert forall|i: int, j: int|
                0 <= i < out@.len() && 0 <= j < rest@.len() implies (#[trigger] out@[i]).0 >= (
            #[trigger] rest@[j]).0 by {
                if j < best {
                    assert(rest@[j] == pre[j]);
                } else {
                    assert(rest@[j] == pre[j + 1]);
                }
                if i < out@.len() - 1 {
                    assert(out@[i] == pre_out[i]);
                }
            }
            assert forall|m: Move|
                #[trigger] spec_available(table@, color, m) && !(exists|i: int|
                    0 <= i < out@.len() && out@[i].1 == m) implies (exists|i: int|
                0 <= i < rest@.len() && rest@[i].1 == m) by {
                if exists|i: int| 0 <= i < pre_out.len() && pre_out[i].1 == m {
                    let i0 = choose|i: int| 0 <= i < pre_out.len() && pre_out[i].1 == m;
                    assert(out@[i0].1 == m);
                }
                assert(exists|i: int| 0 <= i < pre.len() && pre[i].1 == m);
                let i = choose|i: int| 0 <= i < pre.len() && pre[i].1 == m;
                if i < best {
                    assert(rest@[i].1 == m);
                } else if i > best {
                    assert(rest@[i - 1].1 == m);
                } else {
                    assert(out@[out@.len() - 1].1 == m);
                }
            }
        }
    }
    Selection { ranked: out }
}

/// The engine's opening decision of a turn; see `TurnStart`. The tablebase
/// is consulted exactly when at most 7 pieces remain; the resignation
/// bailout fires exactly when more remain, the material deficit exceeds 20
/// and the own material is below 20.
pub fn start_turn(table: &Table, color: PlayerColor) -> (r: TurnStart)
    requires
        table.wf(),
    ensures
        r is Lookup <==> piece_count(table@) <= 7,
        (r matches TurnStart::Lookup(f) ==> f@ == spec_fen(table@, color)),
        r is ResignNow <==> (piece_count(table@) > 7 && spec_score(table@, spec_opposite(color))
            - spec_score(table@, color) > 20 && spec_score(table@, color) < 20),
        (r matches TurnStart::Choose(sel) ==> ranked_for(sel, table@, color)),
{
    if table.pieces().len() <= 7 {
        TurnStart::Lookup(table.fen(color))
    } else if table.score(crate::piece::opposite(color)) - table.score(color) > 20 && table.score(
        color,
    ) < 20 {
        TurnStart::ResignNow
    } else {
        TurnStart::Choose(rank_moves(table, color))
    }
}

impl Selection {
    /// Probes the candidate standing `steps` ranks below the top, clamped
    /// to the last rank. A candidate that would leave the mover's own king
    /// in check is dropped from the list instead of offered; the caller
    /// retries with fresh random steps. An empty list is exhausted: the
    /// turn ends in resignation.
    pub fn next_candidate(&mut self, table: &Table, color: PlayerColor, steps: usize) -> (r: Probe)
        requires
            old(self).wf(),
            table.wf(),
        ensures
            final(self).wf(),
            r is Exhausted <==> old(self).ranked@.len() == 0,
            r is Exhausted ==> final(self).ranked@ == old(self).ranked@,
            ({
                let i = if steps < old(self).ranked@.len() {
                    steps as int
                } else {
                    old(self).ranked@.len() - 1
                };
                &&& (r matches Probe::Offer(m) ==> (m == old(self).ranked@[i].1 && !self_check(
                    table@,
                    color,
                    m,
                ) && m.spec_valid() && final(self).ranked@ == old(self).ranked@))
                &&& (r is Dropped ==> (self_check(table@, color, old(self).ranked@[i].1)
                    && final(self).ranked@ == old(self).ranked@.remove(i)))
            }),
    {
        let ghost orig = self.ranked@;
        if self.ranked.len() == 0 {
            return Probe::Exhausted;
        }
        let i: usize = if steps < self.ranked.len() {
            steps
        } else {
            self.ranked.len() - 1
        };
        let item = self.ranked[i];
        let m = item.1;
        proof {
            assert(self.ranked@[i as int].1 == m);
            assert(m.spec_valid());
        }
        let t2 = table.assume_move(m);
        if t2.in_check(color) {
            self.ranked.remove(i);
            proof {
                orig.remove_ensures(i as int);
                assert forall|j: int| 0 <= j < self.ranked@.len() implies (
                #[trigger] self.ranked@[j]).1.spec_valid() by {
                    if j < i {
                        assert(self.ranked@[j] == orig[j]);
                    } else {
                        assert(self.ranked@[j] == orig[j + 1]);
                    }
                }
            }
            Probe::Dropped
        } else {
            Probe::Offer(m)
        }
    }

    /// Drops the first candidate holding this move from the ranked list;
    /// a move not on the list leaves it unchanged.
    pub fn reject(&mut self, m: Move)
        requires
            old(self).wf(),
        ensures
            final(self).wf(),
            index_of_move(old(self).ranked@, m, 0) < old(self).ranked@.len()
                ==> final(self).ranked@ == old(self).ranked@.remove(
                index_of_move(old(self).ranked@, m, 0),
            ),
            index_of_move(old(self).ranked@, m, 0) >= old(self).ranked@.len()
                ==> final(self).ranked@ == old(self).ranked@,
    {
        let ghost orig = old(self).ranked@;
        let mut k: usize = 0;
        while k < self.ranked.len()
            invariant
                self.wf(),
                k <= self.ranked@.len(),
                orig == old(self).ranked@,
                self.ranked@ == orig,
                forall|j: int| 0 <= j < k ==> (#[trigger] orig[j]).1 != m,
                index_of_move(orig, m, 0) == index_of_move(orig, m, k as int),
            decreases self.ranked@.len() - k,
        {
            if self.ranked[k].1 == m {
                proof {
                    assert(index_of_move(orig, m, k as int) == k);
                }
                self.ranked.remove(k);
                proof {
                    assert(self.ranked@ == orig.remove(k as int));
                    assert(index_of_move(orig, m, 0) == k as int);
                    orig.remove_ensures(k as int);
                    assert forall|j: int| 0 <= j < self.ranked@.len() implies (
                    #[trigger] self.ranked@[j]).1.spec_valid() by {
                        if j < k {
                            assert(self.ranked@[j] == orig[j]);
                        } else {
                            assert(self.ranked@[j] == orig[j + 1]);
                        }
                    }
                }
                return ;
            }
            k = k + 1;
        }
    }
}

} // verus!
