//! The negamax search driver: alpha-beta with principal-variation search,
//! null-move pruning, late move reduction, killer ordering, transposition
//! caching, and a capture-resolving quiescence extension at the horizon.

use vstd::prelude::*;

use crate::eval::{evaluate, get_piece_value, piece_value, spec_evaluate};
use crate::killers::KillerMoves;
use crate::ordering::order_moves;
use crate::rules::{
    apply_move, board_checkers, board_hash, board_moves, board_side, board_status,
    board_tactical_moves, checkers_count, hash_key, legal_moves, null_move, occ_of, occupants,
    side_to_move, status_of, tactical_moves,
};
use crate::table::{BoundKind, TranspositionTable, TtEntry};
use crate::types::{Color, EngineError, GameStatus, Move, EVAL_BOUND, MATE_SCORE, PAWN, SCORE_INF};

verus! {

/// Fixed search depth of one move decision.
pub const SEARCH_DEPTH: u32 = 6;

/// How many plies of killer slots one decision keeps.
pub const KILLER_PLIES: usize = 10;

/// Recursion budget of the quiescence extension. Capture chains, with at
/// most one evasion between captures, stay below this on boards reachable
/// in play; if the budget were ever exhausted, the stand-pat score answers.
pub const QUIESCENCE_FUEL: u32 = 64;

/// The static score of a board for `color`.
pub open spec fn spec_eval_of(b: chess::Board, color: Color) -> int {
    spec_evaluate(occ_of(b), board_status(b), color)
}

/// A capture whose mover outvalues the victim by more than 100 centipawns:
/// the coarse static-exchange stand-in that quiescence prunes outright.
pub open spec fn bad_capture(m: Move, occ: Seq<Option<(u8, Color)>>) -> bool {
    match occ[m.to_sq as int] {
        Some((cap, _)) => (match occ[m.from_sq as int] {
            Some((p, _)) => piece_value(p),
            None => 0,
        }) > piece_value(cap) + 100,
        None => false,
    }
}

/// A promotion landing on an empty square: legal, yet invisible to the
/// capture-masked generation.
pub open spec fn is_quiet_promotion(m: Move, occ: Seq<Option<(u8, Color)>>) -> bool {
    m.promotion is Some && occ[m.to_sq as int] is None
}

/// Whether the board offers a promotion onto an empty square.
pub open spec fn has_quiet_promotion(b: chess::Board) -> bool {
    exists|i: int|
        0 <= i < board_moves(b).len() && is_quiet_promotion(#[trigger] board_moves(b)[i], occ_of(b))
}

/// A pawn's legal move onto an empty square of another file: the en-passant
/// capture, the one capture that lands on an empty square and so is also
/// invisible to the capture-masked generation.
pub open spec fn is_ep_capture(m: Move, occ: Seq<Option<(u8, Color)>>) -> bool {
    &&& match occ[m.from_sq as int] {
        Some((p, _)) => p == PAWN,
        None => false,
    }
    &&& occ[m.to_sq as int] is None
    &&& m.from_sq as int % 8 != m.to_sq as int % 8
}

/// Whether the board offers an en-passant capture.
pub open spec fn has_ep_capture(b: chess::Board) -> bool {
    exists|i: int|
        0 <= i < board_moves(b).len() && is_ep_capture(#[trigger] board_moves(b)[i], occ_of(b))
}

/// The candidates of the horizon search: every legal evasion while in
/// check, otherwise the captures (en passant included) plus the promotions
/// onto empty squares.
fn quiescence_candidates(board: &chess::Board, occ: &Vec<Option<(u8, Color)>>) -> (v: Vec<Move>)
    requires
        occ@.len() == 64,
        occ@ == occ_of(*board),
    ensures
        forall|i: int| 0 <= i < v@.len() ==> board_moves(*board).contains(#[trigger] v@[i]),
        forall|i: int| 0 <= i < v@.len() ==> (#[trigger] v@[i]).wf(),
        board_checkers(*board) != 0 ==> v@ == board_moves(*board),
        board_checkers(*board) == 0 && board_tactical_moves(*board).len() == 0
            && !has_quiet_promotion(*board) && !has_ep_capture(*board) ==> v@.len() == 0,
{
    if checkers_count(board) > 0 {
        let v = legal_moves(board);
        proof {
            assert forall|i: int|
                0 <= i < v@.len() implies board_moves(*board).contains(#[trigger] v@[i]) by {
                assert(board_moves(*board)[i] == v@[i]);
            }
        }
        return v;
    }
    let mut v = tactical_moves(board);
    let all = legal_moves(board);
    let mut j: usize = 0;
    while j < all.len()
        invariant
            j <= all@.len(),
            all@ == board_moves(*board),
            occ@.len() == 64,
            occ@ == occ_of(*board),
            forall|i: int| 0 <= i < all@.len() ==> (#[trigger] all@[i]).wf(),
            forall|i: int| 0 <= i < v@.len() ==> board_moves(*board).contains(#[trigger] v@[i]),
            forall|i: int| 0 <= i < v@.len() ==> (#[trigger] v@[i]).wf(),
            !has_quiet_promotion(*board) && !has_ep_capture(*board) ==> v@
                == board_tactical_moves(*board),
        decreases all@.len() - j,
    {
        let m = all[j];
        let dest_empty = match occ[m.to_sq as usize] {
            Some(_) => false,
            None => true,
        };
        let pawn_mover = match occ[m.from_sq as usize] {
            Some((p, _)) => p == PAWN,
            None => false,
        };
        let is_ep = pawn_mover && m.from_sq % 8 != m.to_sq % 8;
        if dest_empty && (m.promotion.is_some() || is_ep) {
            proof {
                if m.promotion is Some {
                    assert(is_quiet_promotion(board_moves(*board)[j as int], occ_of(*board)));
                    assert(has_quiet_promotion(*board));
                } else {
                    assert(is_ep_capture(board_moves(*board)[j as int], occ_of(*board)));
                    assert(has_ep_capture(*board));
                }
                assert(board_moves(*board).contains(all@[j as int]));
            }
            v.push(m);
        }
        j = j + 1;
    }
    v
}

/// Resolve tactical instability at the horizon: stand on the static score,
/// then try captures and promotions (or every evasion while in check) until
/// the position is quiet. The killer table is only consulted for ordering.
pub fn quiescence_search(
    board: &chess::Board,
    color: Color,
    alpha: i32,
    beta: i32,
    fuel: u32,
    killers: &KillerMoves,
) -> (r: (Option<Move>, i32))
    requires
        color == board_side(*board),
        -SCORE_INF <= alpha < beta <= SCORE_INF,
    ensures
        -SCORE_INF <= r.1 <= SCORE_INF,
        r.0 matches Some(m) ==> board_moves(*board).contains(m),
        board_checkers(*board) == 0 ==> (r.0 matches Some(m) ==> !bad_capture(m, occ_of(*board))),
        spec_eval_of(*board, color) >= beta ==> r.0 is None && r.1 == beta,
        spec_eval_of(*board, color) < beta && board_status(*board) == GameStatus::Checkmate
            ==> r.0 is None && r.1 == -MATE_SCORE,
        spec_eval_of(*board, color) < beta && board_status(*board) == GameStatus::Stalemate
            ==> r.0 is None && r.1 == 0,
        spec_eval_of(*board, color) < beta && board_status(*board) == GameStatus::Ongoing ==> (
        r.0 is None ==> r.1 == spec_eval_of(*board, color)),
        spec_eval_of(*board, color) < beta && board_status(*board) == GameStatus::Ongoing ==> (
        r.0 matches Some(m) ==> r.1 > spec_eval_of(*board, color)),
        spec_eval_of(*board, color) < beta && board_status(*board) == GameStatus::Ongoing
            && board_checkers(*board) == 0 && board_tactical_moves(*board).len() == 0
            && !has_quiet_promotion(*board) && !has_ep_capture(*board) ==> r.0 is None && r.1
            == spec_eval_of(*board, color),
    decreases fuel,
{
    let stand_pat = evaluate(board, color);
    if stand_pat >= beta {
        return (None, beta);
    }
    let mut alpha = alpha;
    if stand_pat > alpha {
        alpha = stand_pat;
    }
    let status = status_of(board);
    if status == GameStatus::Checkmate {
        return (None, -MATE_SCORE);
    }
    if status == GameStatus::Stalemate {
        return (None, 0);
    }
    if fuel == 0 {
        return (None, stand_pat);
    }
    let in_check = checkers_count(board) > 0;
    let occ = occupants(board);
    proof {
        assert(occ@ =~= occ_of(*board));
    }
    let candidates = quiescence_candidates(board, &occ);
    let ordered = order_moves(&candidates, &occ, killers, 0, None);
    proof {
        assert forall|j: int|
            0 <= j < ordered@.len() implies board_moves(*board).contains(
            #[trigger] ordered@[j],
        ) by {
            assert(candidates@.contains(ordered@[j]));
            let k = choose|k: int| 0 <= k < candidates@.len() && candidates@[k] == ordered@[j];
            assert(board_moves(*board).contains(candidates@[k]));
        }
    }
    let mut best_move: Option<Move> = None;
    let mut best_eval = stand_pat;
    let mut i: usize = 0;
    while i < ordered.len()
        invariant_except_break
            -SCORE_INF <= alpha < beta <= SCORE_INF,
        invariant
            i <= ordered@.len(),
            occ@.len() == 64,
            occ@ == occ_of(*board),
            in_check == (board_checkers(*board) != 0),
            -EVAL_BOUND <= stand_pat <= EVAL_BOUND,
            stand_pat < beta,
            color == board_side(*board),
            forall|j: int|
                0 <= j < ordered@.len() ==> board_moves(*board).contains(#[trigger] ordered@[j]),
            forall|j: int| 0 <= j < ordered@.len() ==> (#[trigger] ordered@[j]).wf(),
            best_move is None ==> best_eval == stand_pat,
            ordered@.len() == 0 ==> best_move is None,
            best_move matches Some(bm) ==> board_moves(*board).contains(bm),
            !in_check ==> (best_move matches Some(bm) ==> !bad_capture(bm, occ_of(*board))),
            best_eval >= stand_pat,
            best_move is Some ==> best_eval > stand_pat,
            -SCORE_INF <= best_eval <= SCORE_INF,
            fuel >= 1,
        decreases ordered@.len() - i,
    {
        let m = ordered[i];
        if !in_check {
            match occ[m.to_sq as usize] {
                Some((cap, _)) => {
                    let mover_val: i32 = match occ[m.from_sq as usize] {
                        Some((p, _)) => get_piece_value(p),
                        None => 0,
                    };
                    if mover_val > get_piece_value(cap) + 100 {
                        i = i + 1;
                        continue ;
                    }
                },
                None => {},
            }
        }
        let child = apply_move(board, &m);
        let child_color = side_to_move(&child);
        let (_, ev) = quiescence_search(&child, child_color, -beta, -alpha, fuel - 1, killers);
        let neg = -ev;
        if neg > best_eval {
            best_eval = neg;
            best_move = Some(m);
            if neg > alpha {
                alpha = neg;
                if alpha >= beta {
                    break ;
                }
            }
        }
        i = i + 1;
    }
    (best_move, best_eval)
}

/// Whether the table already holds an entry for `key` deep enough to be
/// trusted at `depth`.
pub open spec fn usable_entry(m: Map<u64, TtEntry>, key: u64, depth: u32) -> bool {
    m.contains_key(key) && m[key].depth >= depth
}

/// One ply's killer slot is untouched, or its front killer is a legal
/// quiet move of the given board: all a beta cutoff on a non-capture may
/// record there.
pub open spec fn killer_slot_quietly_updated(
    before: (Option<Move>, Option<Move>),
    after: (Option<Move>, Option<Move>),
    b: chess::Board,
) -> bool {
    after == before || (after.0 matches Some(km) && board_moves(b).contains(km) && occ_of(b)[
        km.to_sq as int
    ] is None)
}

/// How a completed node's backed-up score relates to its original window:
/// at most the original alpha is a fail-low upper bound, at least beta a
/// fail-high lower bound, strictly between the two an exact score.
pub open spec fn bound_for(score: int, orig_alpha: int, beta: int) -> BoundKind {
    if score <= orig_alpha {
        BoundKind::Upper
    } else if score >= beta {
        BoundKind::Lower
    } else {
        BoundKind::Exact
    }
}

/// Depth-limited negamax over the alpha-beta window `(alpha, beta)`, scores
/// always from the perspective of the side to move. The first move is
/// searched as the principal variation, later ones through a null window
/// with a re-search on an unexpected improvement; non-PV nodes may prune by
/// a reduced-depth null move; late quiet moves are searched one ply
/// shallower. A stored exact entry of sufficient depth answers immediately
/// and changes nothing; a completed move loop writes its result back under
/// the position's fingerprint with the final bound classification. Killer
/// slots are touched only at plies up to `depth`. Where the table holds no
/// entry that could short-circuit this node, a checkmate scores exactly
/// `-MATE_SCORE` and a stalemate exactly zero.
pub fn search(
    board: &chess::Board,
    color: Color,
    depth: u32,
    alpha: i32,
    beta: i32,
    is_pv: bool,
    tt: &mut TranspositionTable,
    killers: &mut KillerMoves,
) -> (r: (Option<Move>, i32))
    requires
        color == board_side(*board),
        old(tt).wf(),
        -SCORE_INF <= alpha < beta <= SCORE_INF,
    ensures
        final(tt).wf(),
        -SCORE_INF <= r.1 <= SCORE_INF,
        final(killers).spec_len() == old(killers).spec_len(),
        forall|p: int| p > depth ==> final(killers).pair_at(p) == old(killers).pair_at(p),
        killer_slot_quietly_updated(old(killers).pair_at(depth as int), final(killers).pair_at(depth as int), *board),
        forall|p: int| (#[trigger] final(killers).pair_at(p)) == old(killers).pair_at(p) || final(killers).pair_at(p).0 is Some,
        depth == 0 ==> final(tt)@ == old(tt)@ && *final(killers) == *old(killers),
        !usable_entry(old(tt)@, board_hash(*board), depth) ==> (r.0 matches Some(m) ==> board_moves(*board).contains(m)),
        !usable_entry(old(tt)@, board_hash(*board), depth) && depth >= 1 && board_status(*board) == GameStatus::Ongoing ==> (r.0 is Some || (!is_pv && r.1 == beta)),
        usable_entry(old(tt)@, board_hash(*board), depth) && old(tt)@[board_hash(*board)].bound
            == BoundKind::Exact ==> r.0 == old(tt)@[board_hash(*board)].best_move
            && r.1 == old(tt)@[board_hash(*board)].score
            && final(tt)@ == old(tt)@ && *final(killers) == *old(killers),
        !usable_entry(old(tt)@, board_hash(*board), depth) && depth >= 1 && r.0 is Some
            ==> final(tt)@.contains_key(board_hash(*board))
            && final(tt)@[board_hash(*board)] == (TtEntry {
            depth,
            score: r.1,
            bound: bound_for(r.1 as int, alpha as int, beta as int),
            best_move: r.0,
        }),
        !usable_entry(old(tt)@, board_hash(*board), depth) && depth >= 1 && board_status(*board)
            == GameStatus::Checkmate ==> r.0 is None && r.1 == -MATE_SCORE,
        !usable_entry(old(tt)@, board_hash(*board), depth) && depth >= 1 && board_status(*board)
            == GameStatus::Stalemate ==> r.0 is None && r.1 == 0,
        !usable_entry(old(tt)@, board_hash(*board), depth) && depth == 0 && spec_eval_of(
            *board,
            color,
        ) >= beta ==> r.0 is None && r.1 == beta,
        !usable_entry(old(tt)@, board_hash(*board), depth) && depth == 0 && spec_eval_of(
            *board,
            color,
        ) < beta && board_status(*board) == GameStatus::Checkmate ==> r.0 is None && r.1
            == -MATE_SCORE,
        !usable_entry(old(tt)@, board_hash(*board), depth) && depth == 0 && spec_eval_of(
            *board,
            color,
        ) < beta && board_status(*board) == GameStatus::Stalemate ==> r.0 is None && r.1 == 0,
    decreases depth,
{
    let ghost killers_in: KillerMoves = *old(killers);
    let orig_alpha = alpha;
    let mut alpha = alpha;
    let mut beta = beta;
    let key = hash_key(board);
    let mut tt_best: Option<Move> = None;
    match tt.get(key) {
        Some(entry) => {
            proof {
                assert(entry.wf());
            }
            tt_best = entry.best_move;
            if entry.depth >= depth {
                match entry.bound {
                    BoundKind::Exact => {
                        return (entry.best_move, entry.score);
                    },
                    BoundKind::Lower => {
                        if entry.score > alpha {
                            alpha = entry.score;
                        }
                    },
                    BoundKind::Upper => {
                        if entry.score < beta {
                            beta = entry.score;
                        }
                    },
                }
                if alpha >= beta {
                    return (entry.best_move, entry.score);
                }
            }
        },
        None => {},
    }
    if depth == 0 {
        return quiescence_search(board, color, alpha, beta, QUIESCENCE_FUEL, killers);
    }
    let status = status_of(board);
    if status == GameStatus::Checkmate {
        return (None, -MATE_SCORE);
    }
    if status == GameStatus::Stalemate {
        return (None, 0);
    }
    let in_check = checkers_count(board) > 0;
    if !is_pv && depth >= 3 && !in_check {
        let reduction: u32 = if depth > 6 {
            3
        } else {
            2
        };
        match null_move(board) {
            Some(nb) => {
                let nb_color = side_to_move(&nb);
                let (_, null_eval) = search(
                    &nb,
                    nb_color,
                    depth - 1 - reduction,
                    -beta,
                    -beta + 1,
                    false,
                    tt,
                    killers,
                );
                if -null_eval >= beta {
                    return (None, beta);
                }
            },
            None => {},
        }
    }
    let moves = legal_moves(board);
    let occ = occupants(board);
    proof {
        assert(occ@ =~= occ_of(*board));
    }
    let ordered = order_moves(&moves, &occ, killers, depth as usize, tt_best);
    proof {
        assert forall|j: int|
            0 <= j < ordered@.len() implies board_moves(*board).contains(
            #[trigger] ordered@[j],
        ) by {
            assert(moves@.contains(ordered@[j]));
        }
    }
    let mut best_move: Option<Move> = None;
    let mut best_eval: i32 = i32::MIN;
    let mut searching_pv = true;
    let mut i: usize = 0;
    while i < ordered.len()
        invariant_except_break
            -SCORE_INF <= alpha < beta <= SCORE_INF,
        invariant
            i <= ordered@.len(),
            occ@.len() == 64,
            depth >= 1,
            tt.wf(),
            killers.spec_len() == killers_in.spec_len(),
            forall|p: int| p > depth ==> killers.pair_at(p) == killers_in.pair_at(p),
            killer_slot_quietly_updated(killers_in.pair_at(depth as int), killers.pair_at(depth as int), *board),
            forall|p: int| (#[trigger] killers.pair_at(p)) == killers_in.pair_at(p) || killers.pair_at(p).0 is Some,
            occ@ == occ_of(*board),
            color == board_side(*board),
            forall|j: int|
                0 <= j < ordered@.len() ==> board_moves(*board).contains(#[trigger] ordered@[j]),
            forall|j: int| 0 <= j < ordered@.len() ==> (#[trigger] ordered@[j]).wf(),
            best_move is None ==> best_eval == i32::MIN,
            best_move is None ==> i == 0,
            best_move matches Some(bm) ==> board_moves(*board).contains(bm) && -SCORE_INF
                <= best_eval <= SCORE_INF,
        ensures
            best_move is None ==> ordered@.len() == 0,
        decreases ordered@.len() - i,
    {
        let m = ordered[i];
        let child = apply_move(board, &m);
        let child_color = side_to_move(&child);
        let is_quiet = m.promotion.is_none() && checkers_count(&child) == 0 && match occ[m.to_sq
            as usize] {
            Some(_) => false,
            None => true,
        };
        let next_depth: u32 = if is_quiet && depth >= 3 && i >= 3 {
            depth - 2
        } else {
            depth - 1
        };
        let mut ev: i32;
        if searching_pv {
            let (_, e) = search(&child, child_color, next_depth, -beta, -alpha, true, tt, killers);
            ev = e;
            searching_pv = false;
        } else {
            let (_, e) = search(
                &child,
                child_color,
                next_depth,
                -alpha - 1,
                -alpha,
                false,
                tt,
                killers,
            );
            ev = e;
            if is_pv && -e > alpha && -e < beta {
                let (_, e2) = search(
                    &child,
                    child_color,
                    next_depth,
                    -beta,
                    -alpha,
                    true,
                    tt,
                    killers,
                );
                ev = e2;
            }
        }
        let neg = -ev;
        if neg > best_eval {
            best_eval = neg;
            best_move = Some(m);
            if neg > alpha {
                alpha = neg;
                if alpha >= beta {
                    let is_capture = match occ[m.to_sq as usize] {
                        Some(_) => true,
                        None => false,
                    };
                    if !is_capture {
                        killers.add_killer(m, depth as usize);
                    }
                    break ;
                }
            }
        }
        i = i + 1;
    }
    if best_move.is_none() {
        return (None, evaluate(board, color));
    }
    let bound = if best_eval <= orig_alpha {
        BoundKind::Upper
    } else if best_eval >= beta {
        BoundKind::Lower
    } else {
        BoundKind::Exact
    };
    tt.put(key, TtEntry { depth, score: best_eval, bound, best_move });
    (best_move, best_eval)
}

/// Whether the vector holds the move.
fn contains_move(v: &Vec<Move>, m: &Move) -> (r: bool)
    ensures
        r == v@.contains(*m),
{
    let mut i: usize = 0;
    while i < v.len()
        invariant
            i <= v@.len(),
            forall|j: int| 0 <= j < i ==> v@[j] != *m,
        decreases v@.len() - i,
    {
        if v[i] == *m {
            return true;
        }
        i = i + 1;
    }
    false
}

/// The engine's sole exposed decision: pick a move for `engine_color` on
/// `board`. A fresh transposition table and killer table live only for this
/// one decision. Fails exactly when it is not the engine's turn or the
/// position has no legal move; otherwise the returned move is legal (the
/// rules engine's first legal move stands in where the search offers no
/// usable candidate).
pub fn engine_move(board: &chess::Board, engine_color: Color) -> (r: Result<Move, EngineError>)
    ensures
        r is Ok <==> board_side(*board) == engine_color && board_moves(*board).len() > 0,
        r == Err::<Move, EngineError>(EngineError::NotEngineTurn) <==> board_side(*board)
            != engine_color,
        r == Err::<Move, EngineError>(EngineError::NoLegalMoves) <==> board_side(*board)
            == engine_color && board_moves(*board).len() == 0,
        r matches Ok(m) ==> board_moves(*board).contains(m),
{
    let side = side_to_move(board);
    if side != engine_color {
        return Err(EngineError::NotEngineTurn);
    }
    let moves = legal_moves(board);
    if moves.len() == 0 {
        return Err(EngineError::NoLegalMoves);
    }
    let mut tt = TranspositionTable::new();
    let mut killers = KillerMoves::new(KILLER_PLIES);
    let (best, _) = search(
        board,
        engine_color,
        SEARCH_DEPTH,
        -SCORE_INF,
        SCORE_INF,
        true,
        &mut tt,
        &mut killers,
    );
    match best {
        Some(m) => {
            if contains_move(&moves, &m) {
                return Ok(m);
            }
        },
        None => {},
    }
    Ok(moves[0])
}

} // verus!
