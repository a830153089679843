//! Move ordering: scores every candidate and sorts descending with a
//! stable insertion sort whose result is pinned exactly by a spec function.

use vstd::prelude::*;

use crate::eval::piece_value;
use crate::eval::get_piece_value;
use crate::killers::KillerMoves;
use crate::types::{Color, Move};

verus! {

/// Priority that puts the transposition-table move above everything else.
pub const TT_MOVE_SCORE: i32 = 1_000_000;

/// Bonus for a killer move: below genuine good captures, above quiet moves.
pub const KILLER_BONUS: i32 = 900;

/// The ordering priority of one move: the known table move outranks all;
/// captures score most-valuable-victim / least-valuable-aggressor;
/// promotions add the promoted piece's worth; killers add a fixed bonus.
pub open spec fn move_score(
    m: Move,
    occ: Seq<Option<(u8, Color)>>,
    kpair: (Option<Move>, Option<Move>),
    tt_move: Option<Move>,
) -> int {
    if tt_move == Some(m) {
        TT_MOVE_SCORE as int
    } else {
        let capture = match occ[m.to_sq as int] {
            Some((cap, _)) => 10 * piece_value(cap) - (match occ[m.from_sq as int] {
                Some((mover, _)) => piece_value(mover),
                None => 0,
            }),
            None => 0,
        };
        let promo = match m.promotion {
            Some(p) => piece_value(p),
            None => 0,
        };
        let killer: int = if kpair.0 == Some(m) || kpair.1 == Some(m) {
            KILLER_BONUS as int
        } else {
            0
        };
        capture + promo + killer
    }
}

/// The moves paired with their priorities, in enumeration order.
pub open spec fn scored_moves(
    moves: Seq<Move>,
    occ: Seq<Option<(u8, Color)>>,
    kpair: (Option<Move>, Option<Move>),
    tt_move: Option<Move>,
) -> Seq<(Move, i32)> {
    moves.map(|i: int, m: Move| (m, move_score(m, occ, kpair, tt_move) as i32))
}

/// Insert `x` behind every element scoring at least `x`'s score: the
/// stable descending insertion step.
pub open spec fn insert_desc(s: Seq<(Move, i32)>, x: (Move, i32)) -> Seq<(Move, i32)>
    decreases s.len(),
{
    if s.len() == 0 {
        seq![x]
    } else if s[0].1 >= x.1 {
        seq![s[0]] + insert_desc(s.drop_first(), x)
    } else {
        seq![x] + s
    }
}

/// Stable descending sort by score: ties keep their enumeration order.
pub open spec fn sort_desc(s: Seq<(Move, i32)>) -> Seq<(Move, i32)>
    decreases s.len(),
{
    if s.len() == 0 {
        Seq::<(Move, i32)>::empty()
    } else {
        insert_desc(sort_desc(s.drop_last()), s.last())
    }
}

/// The full ordering: score, stable-sort descending, keep the moves.
pub open spec fn spec_ordered(
    moves: Seq<Move>,
    occ: Seq<Option<(u8, Color)>>,
    kpair: (Option<Move>, Option<Move>),
    tt_move: Option<Move>,
) -> Seq<Move> {
    sort_desc(scored_moves(moves, occ, kpair, tt_move)).map_values(|p: (Move, i32)| p.0)
}

/// Whatever insertion hands back was the inserted element or already there.
proof fn lemma_insert_desc_membership(s: Seq<(Move, i32)>, x: (Move, i32))
    ensures
        insert_desc(s, x).len() == s.len() + 1,
        forall|e: (Move, i32)|
            #[trigger] insert_desc(s, x).contains(e) ==> s.contains(e) || e == x,
    decreases s.len(),
{
    if s.len() == 0 {
    } else if s[0].1 >= x.1 {
        lemma_insert_desc_membership(s.drop_first(), x);
        let t = insert_desc(s.drop_first(), x);
        let r = seq![s[0]] + t;
        assert(insert_desc(s, x) == r);
        assert forall|e: (Move, i32)| #[trigger] r.contains(e) implies s.contains(e) || e == x by {
            let i = choose|i: int| 0 <= i < r.len() && r[i] == e;
            if i == 0 {
                assert(s[0] == e);
                assert(s.contains(e));
            } else {
                assert(t[i - 1] == e);
                assert(t.contains(e));
                if s.drop_first().contains(e) {
                    let j = choose|j: int| 0 <= j < s.drop_first().len() && s.drop_first()[j] == e;
                    assert(s[j + 1] == e);
                    assert(s.contains(e));
                }
            }
        }
    } else {
        let r = seq![x] + s;
        assert(insert_desc(s, x) == r);
        assert forall|e: (Move, i32)| #[trigger] r.contains(e) implies s.contains(e) || e == x by {
            let i = choose|i: int| 0 <= i < r.len() && r[i] == e;
            if i > 0 {
                assert(s[i - 1] == e);
                assert(s.contains(e));
            }
        }
    }
}

/// Whatever sorting hands back was in the input.
proof fn lemma_sort_desc_membership(s: Seq<(Move, i32)>)
    ensures
        sort_desc(s).len() == s.len(),
        forall|e: (Move, i32)| #[trigger] sort_desc(s).contains(e) ==> s.contains(e),
    decreases s.len(),
{
    if s.len() > 0 {
        lemma_sort_desc_membership(s.drop_last());
        lemma_insert_desc_membership(sort_desc(s.drop_last()), s.last());
        let srt = sort_desc(s);
        assert(srt == insert_desc(sort_desc(s.drop_last()), s.last()));
        assert forall|e: (Move, i32)| #[trigger] srt.contains(e) implies s.contains(e) by {
            if sort_desc(s.drop_last()).contains(e) {
                assert(s.drop_last().contains(e));
                let i = choose|i: int| 0 <= i < s.drop_last().len() && s.drop_last()[i] == e;
                assert(s[i] == e);
                assert(s.contains(e));
            } else {
                assert(e == s.last());
                assert(s[s.len() - 1] == e);
                assert(s.contains(e));
            }
        }
    }
}

/// When the first `k` elements score at least `x` and the `k`-th scores
/// less, stable insertion lands `x` exactly at position `k`.
proof fn lemma_insert_desc_at(s: Seq<(Move, i32)>, x: (Move, i32), k: int)
    requires
        0 <= k <= s.len(),
        forall|j: int| 0 <= j < k ==> s[j].1 >= x.1,
        k < s.len() ==> s[k].1 < x.1,
    ensures
        insert_desc(s, x) == s.insert(k, x),
    decreases s.len(),
{
    if s.len() == 0 {
        assert(insert_desc(s, x) =~= s.insert(0, x));
    } else if k == 0 {
        assert(s[0].1 < x.1);
        assert(insert_desc(s, x) =~= s.insert(0, x));
    } else {
        assert(s[0].1 >= x.1);
        lemma_insert_desc_at(s.drop_first(), x, k - 1);
        assert(seq![s[0]] + s.drop_first().insert(k - 1, x) =~= s.insert(k, x));
    }
}

/// One move's priority, executable form.
fn score_move(
    m: &Move,
    occ: &Vec<Option<(u8, Color)>>,
    killers: &KillerMoves,
    ply: usize,
    tt_move: Option<Move>,
) -> (s: i32)
    requires
        m.wf(),
        occ@.len() == 64,
    ensures
        s == move_score(*m, occ@, killers.pair_at(ply as int), tt_move),
{
    if tt_move == Some(*m) {
        return TT_MOVE_SCORE;
    }
    let capture: i32 = match occ[m.to_sq as usize] {
        Some((cap, _)) => {
            let mover: i32 = match occ[m.from_sq as usize] {
                Some((p, _)) => get_piece_value(p),
                None => 0,
            };
            10 * get_piece_value(cap) - mover
        },
        None => 0,
    };
    let promo: i32 = match m.promotion {
        Some(p) => get_piece_value(p),
        None => 0,
    };
    let killer: i32 = if killers.is_killer(m, ply) {
        KILLER_BONUS
    } else {
        0
    };
    capture + promo + killer
}

/// Insert one scored move into a descending-sorted vector, behind every
/// element scoring at least as much.
fn insert_sorted(v: &mut Vec<(Move, i32)>, x: (Move, i32))
    ensures
        final(v)@ == insert_desc(old(v)@, x),
{
    let mut k: usize = 0;
    loop
        invariant
            k <= v@.len(),
            v@ == old(v)@,
            forall|j: int| 0 <= j < k ==> v@[j].1 >= x.1,
        ensures
            k <= v@.len(),
            v@ == old(v)@,
            forall|j: int| 0 <= j < k ==> v@[j].1 >= x.1,
            k < v@.len() ==> v@[k as int].1 < x.1,
        decreases v@.len() - k,
    {
        if k >= v.len() {
            break ;
        }
        if v[k].1 < x.1 {
            break ;
        }
        k = k + 1;
    }
    proof {
        lemma_insert_desc_at(v@, x, k as int);
    }
    v.insert(k, x);
}

/// Score and stably order the candidate moves, best first. The result is a
/// pure function of the inputs: repeated calls with identical killer and
/// table state order identical move lists identically.
pub fn order_moves(
    moves: &Vec<Move>,
    occ: &Vec<Option<(u8, Color)>>,
    killers: &KillerMoves,
    ply: usize,
    tt_move: Option<Move>,
) -> (r: Vec<Move>)
    requires
        occ@.len() == 64,
        forall|i: int| 0 <= i < moves@.len() ==> (#[trigger] moves@[i]).wf(),
    ensures
        r@ == spec_ordered(moves@, occ@, killers.pair_at(ply as int), tt_move),
        r@.len() == moves@.len(),
        forall|i: int| 0 <= i < r@.len() ==> moves@.contains(#[trigger] r@[i]),
{
    let ghost kpair = killers.pair_at(ply as int);
    let ghost scored_spec = scored_moves(moves@, occ@, kpair, tt_move);

    let mut scored: Vec<(Move, i32)> = Vec::new();
    let mut i: usize = 0;
    while i < moves.len()
        invariant
            i <= moves@.len(),
            occ@.len() == 64,
            forall|j: int| 0 <= j < moves@.len() ==> (#[trigger] moves@[j]).wf(),
            kpair == killers.pair_at(ply as int),
            scored@.len() == i,
            forall|j: int| 0 <= j < i ==> scored@[j] == scored_spec[j],
            scored_spec == scored_moves(moves@, occ@, kpair, tt_move),
        decreases moves@.len() - i,
    {
        let m = moves[i];
        let s = score_move(&m, occ, killers, ply, tt_move);
        proof {
            assert(scored_spec[i as int] == (
                moves@[i as int],
                move_score(moves@[i as int], occ@, kpair, tt_move) as i32,
            ));
        }
        scored.push((m, s));
        i = i + 1;
    }
    proof {
        assert(scored@ =~= scored_spec);
    }

    let mut sorted: Vec<(Move, i32)> = Vec::new();
    i = 0;
    while i < scored.len()
        invariant
            i <= scored@.len(),
            scored@ == scored_spec,
            sorted@ == sort_desc(scored@.take(i as int)),
        decreases scored@.len() - i,
    {
        let x = scored[i];
        proof {
            assert(scored@.take(i as int + 1).drop_last() =~= scored@.take(i as int));
            assert(scored@.take(i as int + 1).last() == x);
        }
        insert_sorted(&mut sorted, x);
        i = i + 1;
    }
    proof {
        assert(scored@.take(scored@.len() as int) =~= scored@);
        lemma_sort_desc_membership(scored_spec);
    }

    let mut r: Vec<Move> = Vec::new();
    i = 0;
    while i < sorted.len()
        invariant
            i <= sorted@.len(),
            sorted@ == sort_desc(scored_spec),
            r@.len() == i,
            forall|j: int| 0 <= j < i ==> r@[j] == sorted@[j].0,
        decreases sorted@.len() - i,
    {
        let m = sorted[i].0;
        r.push(m);
        i = i + 1;
    }
    proof {
        assert(r@ =~= spec_ordered(moves@, occ@, kpair, tt_move));
        lemma_sort_desc_membership(scored_spec);
        assert forall|j: int| 0 <= j < r@.len() implies moves@.contains(#[trigger] r@[j]) by {
            assert(sorted@.contains(sorted@[j]));
            assert(scored_spec.contains(sorted@[j]));
            let k = choose|k: int| 0 <= k < scored_spec.len() && scored_spec[k] == sorted@[j];
            assert(moves@[k] == r@[j]);
        }
    }
    r
}

} // verus!
