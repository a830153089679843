//! The trusted boundary to the rules engine (the `chess` crate).
//!
//! The search never looks inside a `chess::Board`; it only carries board
//! values between the wrappers below. Each uninterpreted spec function names
//! what one rules-engine query returns for a given board value, and each
//! wrapper's contract ties the runtime result to that name. Everything else
//! in this crate is verified against these contracts.

use vstd::prelude::*;

use crate::types::{Color, GameStatus, Move};

verus! {

/// The rules engine's board: opaque to the verifier, a pure value to the
/// rules engine (copying and hashing it never observes anything mutable).
#[verifier::external_type_specification]
#[verifier::external_body]
pub struct ExBoard(chess::Board);

/// The side to move of a board, per `chess::Board::side_to_move`.
pub uninterp spec fn board_side(b: chess::Board) -> Color;

/// The outcome classification of a board, per `chess::Board::status`.
pub uninterp spec fn board_status(b: chess::Board) -> GameStatus;

/// The 64-bit position fingerprint, per `chess::Board::get_hash`.
pub uninterp spec fn board_hash(b: chess::Board) -> u64;

/// How many enemy pieces give check to the side to move, per
/// `chess::Board::checkers` (zero exactly when not in check).
pub uninterp spec fn board_checkers(b: chess::Board) -> u32;

/// The occupant of square `sq` of the board, per `chess::Board::piece_on`
/// and `chess::Board::color_on`.
pub uninterp spec fn board_occupant(b: chess::Board, sq: int) -> Option<(u8, Color)>;

/// The legal moves of the board, in the rules engine's enumeration order,
/// per `chess::MoveGen::new_legal`.
pub uninterp spec fn board_moves(b: chess::Board) -> Seq<Move>;

/// The legal moves whose destination square holds an enemy piece (captures,
/// including capturing promotions), in the rules engine's enumeration order
/// for that restriction, per `chess::MoveGen::set_iterator_mask`.
pub uninterp spec fn board_tactical_moves(b: chess::Board) -> Seq<Move>;

/// The position reached by playing legal move `m` on the board, per
/// `chess::Board::make_move_new`.
pub uninterp spec fn board_child(b: chess::Board, m: Move) -> chess::Board;

/// The position reached by passing the turn (the null move), defined when
/// the side to move is not in check, per `chess::Board::null_move`.
pub uninterp spec fn board_null_child(b: chess::Board) -> chess::Board;

/// The whole-board occupancy as one spec sequence of 64 squares.
pub open spec fn occ_of(b: chess::Board) -> Seq<Option<(u8, Color)>> {
    Seq::new(64, |sq: int| board_occupant(b, sq))
}

/// Relies on `chess::Board::side_to_move`, which returns the stored side to
/// move of the board.
#[verifier::external_body]
pub(crate) fn side_to_move(b: &chess::Board) -> (c: Color)
    ensures
        c == board_side(*b),
{
    match b.side_to_move() {
        chess::Color::White => Color::White,
        chess::Color::Black => Color::Black,
    }
}

/// Relies on `chess::Board::status`, which counts the legal moves and tests
/// the checkers: ongoing with a legal move, checkmate with none while in
/// check, stalemate with none while not in check.
#[verifier::external_body]
pub(crate) fn status_of(b: &chess::Board) -> (s: GameStatus)
    ensures
        s == board_status(*b),
        s == GameStatus::Ongoing <==> board_moves(*b).len() > 0,
        s == GameStatus::Checkmate <==> (board_moves(*b).len() == 0 && board_checkers(*b) != 0),
        s == GameStatus::Stalemate <==> (board_moves(*b).len() == 0 && board_checkers(*b) == 0),
{
    match b.status() {
        chess::BoardStatus::Ongoing => GameStatus::Ongoing,
        chess::BoardStatus::Checkmate => GameStatus::Checkmate,
        chess::BoardStatus::Stalemate => GameStatus::Stalemate,
    }
}

/// Relies on `chess::Board::get_hash`, a pure function of the board value.
#[verifier::external_body]
pub(crate) fn hash_key(b: &chess::Board) -> (k: u64)
    ensures
        k == board_hash(*b),
{
    b.get_hash()
}

/// Relies on `chess::Board::checkers` and `chess::BitBoard::popcnt`: the
/// number of checking pieces, zero exactly when the side to move is not in
/// check.
#[verifier::external_body]
pub(crate) fn checkers_count(b: &chess::Board) -> (n: u32)
    ensures
        n == board_checkers(*b),
{
    b.checkers().popcnt()
}

/// Relies on `chess::Board::piece_on` and `chess::Board::color_on`, and on
/// `chess::ALL_SQUARES` listing the 64 squares in index order: one entry per
/// square, `None` where the square is empty.
#[verifier::external_body]
pub(crate) fn occupants(b: &chess::Board) -> (v: Vec<Option<(u8, Color)>>)
    ensures
        v@.len() == 64,
        forall|sq: int| 0 <= sq < 64 ==> v@[sq] == board_occupant(*b, sq),
{
    let mut v = Vec::with_capacity(64);
    for sq in chess::ALL_SQUARES.iter() {
        match (b.piece_on(*sq), b.color_on(*sq)) {
            (Some(p), Some(c)) => {
                let col = if c == chess::Color::White { Color::White } else { Color::Black };
                v.push(Some((p.to_index() as u8, col)));
            },
            _ => v.push(None),
        }
    }
    v
}

/// Relies on `chess::MoveGen::new_legal`, which enumerates exactly the legal
/// moves of the board in a deterministic order; square indices are below 64
/// and promotions are to knight, bishop, rook or queen.
#[verifier::external_body]
pub(crate) fn legal_moves(b: &chess::Board) -> (v: Vec<Move>)
    ensures
        v@ == board_moves(*b),
        forall|i: int| 0 <= i < v@.len() ==> (#[trigger] v@[i]).wf(),
{
    let mut v = Vec::new();
    for m in chess::MoveGen::new_legal(b) {
        v.push(Move {
            from_sq: m.get_source().to_index() as u8,
            to_sq: m.get_dest().to_index() as u8,
            promotion: m.get_promotion().map(|p| p.to_index() as u8),
        });
    }
    v
}

/// Relies on `chess::MoveGen::new_legal` with
/// `chess::MoveGen::set_iterator_mask` restricted to the squares of
/// `chess::Board::color_combined` of the enemy: the legal moves that land on
/// an enemy piece, a subset of the legal moves.
#[verifier::external_body]
pub(crate) fn tactical_moves(b: &chess::Board) -> (v: Vec<Move>)
    ensures
        v@ == board_tactical_moves(*b),
        forall|i: int| 0 <= i < v@.len() ==> (#[trigger] v@[i]).wf(),
        forall|i: int| 0 <= i < v@.len() ==> board_moves(*b).contains(#[trigger] v@[i]),
{
    let mut gen = chess::MoveGen::new_legal(b);
    gen.set_iterator_mask(*b.color_combined(!b.side_to_move()));
    let mut v = Vec::new();
    for m in gen {
        v.push(Move {
            from_sq: m.get_source().to_index() as u8,
            to_sq: m.get_dest().to_index() as u8,
            promotion: m.get_promotion().map(|p| p.to_index() as u8),
        });
    }
    v
}

/// Relies on `chess::Board::make_move_new` (legal moves only; it would choke
/// on an illegal king capture), which produces the child position.
#[verifier::external_body]
pub(crate) fn apply_move(b: &chess::Board, m: &Move) -> (r: chess::Board)
    requires
        board_moves(*b).contains(*m),
    ensures
        r == board_child(*b, *m),
{
    let fr = chess::Rank::from_index((m.from_sq >> 3) as usize);
    let ff = chess::File::from_index((m.from_sq & 7) as usize);
    let tr = chess::Rank::from_index((m.to_sq >> 3) as usize);
    let tf = chess::File::from_index((m.to_sq & 7) as usize);
    let promo = match m.promotion {
        Some(1) => Some(chess::Piece::Knight),
        Some(2) => Some(chess::Piece::Bishop),
        Some(3) => Some(chess::Piece::Rook),
        Some(4) => Some(chess::Piece::Queen),
        _ => None,
    };
    let from = chess::Square::make_square(fr, ff);
    let to = chess::Square::make_square(tr, tf);
    b.make_move_new(chess::ChessMove::new(from, to, promo))
}

/// Relies on `chess::Board::null_move`: `Some` exactly when the side to move
/// is not in check.
#[verifier::external_body]
pub(crate) fn null_move(b: &chess::Board) -> (r: Option<chess::Board>)
    ensures
        board_checkers(*b) == 0 ==> r == Some(board_null_child(*b)),
        board_checkers(*b) != 0 ==> r is None,
{
    b.null_move()
}

} // verus!
