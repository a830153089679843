use std::str::FromStr;

use negamax_engine::eval::evaluate;
use negamax_engine::killers::KillerMoves;
use negamax_engine::ordering::order_moves;
use negamax_engine::search::{engine_move, quiescence_search, search, KILLER_PLIES};
use negamax_engine::table::{BoundKind, TranspositionTable, TtEntry};
use negamax_engine::types::{Color, EngineError, Move, MATE_SCORE, SCORE_INF};

fn board(fen: &str) -> chess::Board {
    chess::Board::from_str(fen).expect("valid position")
}

fn mv(from_sq: u8, to_sq: u8) -> Move {
    Move { from_sq, to_sq, promotion: None }
}

fn to_chess_move(m: &Move) -> chess::ChessMove {
    let promo = match m.promotion {
        Some(1) => Some(chess::Piece::Knight),
        Some(2) => Some(chess::Piece::Bishop),
        Some(3) => Some(chess::Piece::Rook),
        Some(4) => Some(chess::Piece::Queen),
        _ => None,
    };
    chess::ChessMove::new(
        chess::ALL_SQUARES[m.from_sq as usize],
        chess::ALL_SQUARES[m.to_sq as usize],
        promo,
    )
}

#[test]
fn killer_slots_shift_and_answer_queries() {
    let mut killers = KillerMoves::new(2);
    let m1 = mv(8, 16);
    let m2 = mv(1, 18);
    assert!(!killers.is_killer(&m1, 0));
    killers.add_killer(m1, 0);
    assert!(killers.is_killer(&m1, 0));
    assert_eq!(killers.slots_at(0), (Some(m1), None));
    killers.add_killer(m2, 0);
    assert_eq!(killers.slots_at(0), (Some(m2), Some(m1)));
    assert!(killers.is_killer(&m1, 0));
    assert!(killers.is_killer(&m2, 0));
    // Re-adding the front killer changes nothing.
    killers.add_killer(m2, 0);
    assert_eq!(killers.slots_at(0), (Some(m2), Some(m1)));
    // Out-of-range plies are inert.
    killers.add_killer(m1, 5);
    assert!(!killers.is_killer(&m1, 5));
    assert_eq!(killers.slots_at(5), (None, None));
}

#[test]
fn transposition_table_stores_and_overwrites() {
    let mut tt = TranspositionTable::new();
    assert!(tt.get(42).is_none());
    let e1 = TtEntry { depth: 3, score: 120, bound: BoundKind::Exact, best_move: Some(mv(0, 8)) };
    tt.put(42, e1);
    let got = tt.get(42).expect("entry stored");
    assert_eq!(got.depth, 3);
    assert_eq!(got.score, 120);
    assert_eq!(got.bound, BoundKind::Exact);
    assert_eq!(got.best_move, Some(mv(0, 8)));
    let e2 = TtEntry { depth: 5, score: -40, bound: BoundKind::Lower, best_move: None };
    tt.put(42, e2);
    assert_eq!(tt.get(42).expect("entry kept").score, -40);
    assert!(tt.get(7).is_none());
}

#[test]
fn ordering_ranks_table_move_captures_killers_and_quiet_moves() {
    // a1: white pawn, b2: white queen, c3: black queen, d4: black pawn.
    let mut occ: Vec<Option<(u8, Color)>> = vec![None; 64];
    occ[0] = Some((0, Color::White));
    occ[9] = Some((4, Color::White));
    occ[18] = Some((4, Color::Black));
    occ[27] = Some((0, Color::Black));
    let pawn_takes_queen = mv(0, 18);
    let queen_takes_pawn = mv(9, 27);
    let quiet = mv(9, 10);
    let killer_quiet = mv(0, 8);
    let moves = vec![quiet, queen_takes_pawn, killer_quiet, pawn_takes_queen];

    let mut killers = KillerMoves::new(4);
    killers.add_killer(killer_quiet, 1);

    // Killer bonus (900) outranks a minor capture (100) but not a good one.
    let got = order_moves(&moves, &occ, &killers, 1, None);
    assert_eq!(got, vec![pawn_takes_queen, killer_quiet, queen_takes_pawn, quiet]);

    // The known table move outranks everything else.
    let got = order_moves(&moves, &occ, &killers, 1, Some(queen_takes_pawn));
    assert_eq!(got, vec![queen_takes_pawn, pawn_takes_queen, killer_quiet, quiet]);
}

#[test]
fn ordering_is_deterministic_and_stable() {
    let mut occ: Vec<Option<(u8, Color)>> = vec![None; 64];
    occ[9] = Some((4, Color::White));
    let a = mv(9, 10);
    let b = mv(9, 11);
    let c = mv(9, 12);
    let moves = vec![a, b, c];
    let killers = KillerMoves::new(4);
    let first = order_moves(&moves, &occ, &killers, 0, None);
    let second = order_moves(&moves, &occ, &killers, 0, None);
    assert_eq!(first, second);
    // All three score zero, so the enumeration order is kept.
    assert_eq!(first, vec![a, b, c]);
}

#[test]
fn quiescence_returns_the_static_score_on_quiet_positions() {
    let b = board("4k3/8/8/8/8/8/8/4K3 w - - 0 1");
    let stand_pat = evaluate(&b, Color::White);
    let killers = KillerMoves::new(KILLER_PLIES);
    let r = quiescence_search(&b, Color::White, -SCORE_INF, SCORE_INF, 32, &killers);
    assert_eq!(r, (None, stand_pat));
}

#[test]
fn quiescence_resolves_a_hanging_queen() {
    // The black queen stands undefended on e4, where the d3 pawn takes it.
    let b = board("rnb1kbnr/pppppppp/8/8/4q3/3P4/PPP1PPPP/RNBQKBNR w KQkq - 0 1");
    let stand_pat = evaluate(&b, Color::White);
    let killers = KillerMoves::new(KILLER_PLIES);
    let (best, score) = quiescence_search(&b, Color::White, -SCORE_INF, SCORE_INF, 32, &killers);
    assert_eq!(best, Some(mv(19, 28)));
    assert!(score > stand_pat);
}

#[test]
fn quiescence_considers_quiet_promotions() {
    // No captures anywhere, but the a7 pawn can promote onto the empty a8;
    // the queen promotion is ordered first and clearly improves.
    let b = board("4k1nr/P1pppppp/8/8/8/8/1PPPPPPP/RN2K2R w - - 0 1");
    let stand_pat = evaluate(&b, Color::White);
    let killers = KillerMoves::new(KILLER_PLIES);
    let (best, score) = quiescence_search(&b, Color::White, -SCORE_INF, SCORE_INF, 32, &killers);
    assert_eq!(best, Some(Move { from_sq: 48, to_sq: 56, promotion: Some(4) }));
    assert!(score > stand_pat);
}

#[test]
fn quiescence_considers_en_passant_captures() {
    // Black just pushed d7-d5 past the e5 pawn; the only capture on the
    // board is e5xd6 en passant, which wins the pawn outright (nothing
    // defends the d6 square).
    let b = board("rnb1kbnr/pp3ppp/8/3pP3/8/8/PPPP1PPP/RNBQKBNR w KQkq d6 0 4");
    let stand_pat = evaluate(&b, Color::White);
    let killers = KillerMoves::new(KILLER_PLIES);
    let (best, score) = quiescence_search(&b, Color::White, -SCORE_INF, SCORE_INF, 32, &killers);
    assert_eq!(best, Some(mv(36, 43)));
    assert!(score > stand_pat);
}

#[test]
fn search_returns_a_stored_exact_entry_untouched() {
    let b = chess::Board::default();
    let mut tt = TranspositionTable::new();
    let planted = TtEntry { depth: 9, score: 777, bound: BoundKind::Exact, best_move: Some(mv(8, 16)) };
    tt.put(b.get_hash(), planted);
    let mut killers = KillerMoves::new(KILLER_PLIES);
    let r = search(&b, Color::White, 4, -SCORE_INF, SCORE_INF, true, &mut tt, &mut killers);
    assert_eq!(r, (Some(mv(8, 16)), 777));
}

#[test]
fn search_writes_its_result_back_under_the_fingerprint() {
    let b = board("4k3/8/8/8/8/8/8/R3K3 w - - 0 1");
    let mut tt = TranspositionTable::new();
    let mut killers = KillerMoves::new(KILLER_PLIES);
    let (best, score) = search(&b, Color::White, 2, -SCORE_INF, SCORE_INF, true, &mut tt, &mut killers);
    let e = tt.get(b.get_hash()).expect("a completed root search writes its entry");
    assert_eq!(e.depth, 2);
    assert_eq!(e.score, score);
    assert_eq!(e.best_move, best);
    // The full root window makes the backed-up score exact.
    assert_eq!(e.bound, BoundKind::Exact);
}

#[test]
fn checkmate_scores_minus_mate_for_the_mated_side() {
    let b = board("R5k1/5ppp/8/8/8/8/8/6K1 b - - 0 1");
    assert_eq!(b.status(), chess::BoardStatus::Checkmate);
    let mut tt = TranspositionTable::new();
    let mut killers = KillerMoves::new(KILLER_PLIES);
    let r = search(&b, Color::Black, 3, -SCORE_INF, SCORE_INF, true, &mut tt, &mut killers);
    assert_eq!(r, (None, -MATE_SCORE));
    let killers = KillerMoves::new(KILLER_PLIES);
    let q = quiescence_search(&b, Color::Black, -SCORE_INF, SCORE_INF, 32, &killers);
    assert_eq!(q, (None, -MATE_SCORE));
}

#[test]
fn stalemate_scores_exactly_zero_in_search() {
    let b = board("7k/5Q2/6K1/8/8/8/8/8 b - - 0 1");
    let mut tt = TranspositionTable::new();
    let mut killers = KillerMoves::new(KILLER_PLIES);
    let r = search(&b, Color::Black, 3, -SCORE_INF, SCORE_INF, true, &mut tt, &mut killers);
    assert_eq!(r, (None, 0));
}

#[test]
fn mate_in_one_is_found_with_the_mate_score() {
    let b = board("6k1/5ppp/8/8/8/8/8/R5K1 w - - 0 1");
    let mut tt = TranspositionTable::new();
    let mut killers = KillerMoves::new(KILLER_PLIES);
    let (best, score) = search(&b, Color::White, 2, -SCORE_INF, SCORE_INF, true, &mut tt, &mut killers);
    assert_eq!(best, Some(mv(0, 56)));
    assert_eq!(score, MATE_SCORE);
}

#[test]
fn start_position_search_is_deterministic_and_legal() {
    let b = chess::Board::default();
    let mut tt = TranspositionTable::new();
    let mut killers = KillerMoves::new(KILLER_PLIES);
    let first = search(&b, Color::White, 4, -SCORE_INF, SCORE_INF, true, &mut tt, &mut killers);
    let mut tt = TranspositionTable::new();
    let mut killers = KillerMoves::new(KILLER_PLIES);
    let second = search(&b, Color::White, 4, -SCORE_INF, SCORE_INF, true, &mut tt, &mut killers);
    assert_eq!(first, second);
    let best = first.0.expect("a move is found");
    assert!(b.legal(to_chess_move(&best)));
}

#[test]
fn rook_endgame_scores_strictly_positive_for_the_stronger_side() {
    let b = board("4k3/8/8/8/8/8/8/R3K3 w - - 0 1");
    let mut tt = TranspositionTable::new();
    let mut killers = KillerMoves::new(KILLER_PLIES);
    let first = search(&b, Color::White, 4, -SCORE_INF, SCORE_INF, true, &mut tt, &mut killers);
    let mut tt = TranspositionTable::new();
    let mut killers = KillerMoves::new(KILLER_PLIES);
    let second = search(&b, Color::White, 4, -SCORE_INF, SCORE_INF, true, &mut tt, &mut killers);
    assert_eq!(first, second);
    assert!(first.1 > 0);
}

#[test]
fn promotion_to_queen_is_found_and_preferred() {
    // Promoting on a8 mates along the back rank (the black king sits behind
    // its own pawns); the queen promotion is ordered before the rook one
    // that also mates, so it is the move returned.
    let b = board("7k/P5pp/8/8/8/8/8/6K1 w - - 0 1");
    let mut tt = TranspositionTable::new();
    let mut killers = KillerMoves::new(KILLER_PLIES);
    let (best, score) = search(&b, Color::White, 2, -SCORE_INF, SCORE_INF, true, &mut tt, &mut killers);
    assert_eq!(best, Some(Move { from_sq: 48, to_sq: 56, promotion: Some(4) }));
    assert_eq!(score, MATE_SCORE);
    assert!(b.legal(to_chess_move(&best.unwrap())));
}

#[test]
fn engine_move_rejects_the_wrong_turn() {
    let b = chess::Board::default();
    assert_eq!(engine_move(&b, Color::Black), Err(EngineError::NotEngineTurn));
}

#[test]
fn engine_move_reports_positions_without_moves() {
    let b = board("7k/5Q2/6K1/8/8/8/8/8 b - - 0 1");
    assert_eq!(engine_move(&b, Color::Black), Err(EngineError::NoLegalMoves));
}

#[test]
fn engine_move_returns_a_legal_move() {
    let b = board("6k1/5ppp/8/8/8/8/8/R5K1 w - - 0 1");
    let m = engine_move(&b, Color::White).expect("engine to move with legal moves");
    assert!(b.legal(to_chess_move(&m)));
}
