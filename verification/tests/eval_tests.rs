use std::str::FromStr;

use negamax_engine::eval::{evaluate, get_piece_value};
use negamax_engine::types::Color;

fn board(fen: &str) -> chess::Board {
    chess::Board::from_str(fen).expect("valid position")
}

#[test]
fn piece_values_match_the_standard_scale() {
    assert_eq!(get_piece_value(0), 100);
    assert_eq!(get_piece_value(1), 300);
    assert_eq!(get_piece_value(2), 300);
    assert_eq!(get_piece_value(3), 500);
    assert_eq!(get_piece_value(4), 900);
    assert_eq!(get_piece_value(5), 0);
}

#[test]
fn start_position_is_balanced() {
    let b = chess::Board::default();
    assert_eq!(evaluate(&b, Color::White), 0);
    assert_eq!(evaluate(&b, Color::Black), 0);
}

#[test]
fn lone_queen_scores_material_position_and_king_hunt() {
    // White: Ke1, Qf1. Black: Ke8. Raw white-positive score: material 900,
    // queen table entry -10 on f1, White's hunt (3 + 14 - 7) * 10 * 20 =
    // 2000, minus Black's hunt (3 + 14 - 7) * 10 * 19 = 1900; total 990.
    let b = board("4k3/8/8/8/8/8/8/4KQ2 w - - 0 1");
    assert_eq!(evaluate(&b, Color::White), 990);
    assert_eq!(evaluate(&b, Color::Black), -990);
}

#[test]
fn color_relabeled_position_scores_the_same() {
    // The mirrored position with colors exchanged, judged for the other
    // side, must score identically (the relabeling symmetry law).
    let b = board("4k3/8/8/8/8/8/8/4KQ2 w - - 0 1");
    let swapped = board("4kq2/8/8/8/8/8/8/4K3 w - - 0 1");
    assert_eq!(evaluate(&swapped, Color::Black), evaluate(&b, Color::White));
    assert_eq!(evaluate(&swapped, Color::White), evaluate(&b, Color::Black));
}

#[test]
fn stalemate_scores_exactly_zero() {
    let b = board("7k/5Q2/6K1/8/8/8/8/8 b - - 0 1");
    assert_eq!(b.status(), chess::BoardStatus::Stalemate);
    assert_eq!(evaluate(&b, Color::White), 0);
    assert_eq!(evaluate(&b, Color::Black), 0);
}

#[test]
fn evaluations_are_zero_sum() {
    // One raw score, two signs: the perspectives negate in the middlegame
    // and in the endgame alike.
    let b = board("rnbqkbnr/pppppppp/8/8/3P4/8/PPP1PPPP/RNBQKBNR b KQkq - 0 1");
    assert_eq!(evaluate(&b, Color::White), -evaluate(&b, Color::Black));
    let endgame = board("4k3/8/8/8/8/8/8/R3K3 w - - 0 1");
    assert_eq!(evaluate(&endgame, Color::White), -evaluate(&endgame, Color::Black));
}
