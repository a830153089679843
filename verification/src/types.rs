//! Plain value types shared by every component of the engine.

use vstd::prelude::*;

verus! {

/// The side a piece or a player belongs to.
#[derive(Clone, Copy, Debug, PartialEq, Eq, Structural)]
pub enum Color {
    White,
    Black,
}

/// The other side.
pub open spec fn opposite(c: Color) -> Color {
    match c {
        Color::White => Color::Black,
        Color::Black => Color::White,
    }
}

/// Executable counterpart of [`opposite`].
pub fn flip_color(c: Color) -> (r: Color)
    ensures
        r == opposite(c),
{
    match c {
        Color::White => Color::Black,
        Color::Black => Color::White,
    }
}

/// Outcome classification of a position, as reported by the rules engine.
#[derive(Clone, Copy, Debug, PartialEq, Eq, Structural)]
pub enum GameStatus {
    Ongoing,
    Checkmate,
    Stalemate,
}

/// Piece codes, matching the index order the rules engine uses for pieces.
pub const PAWN: u8 = 0;

pub const KNIGHT: u8 = 1;

pub const BISHOP: u8 = 2;

pub const ROOK: u8 = 3;

pub const QUEEN: u8 = 4;

pub const KING: u8 = 5;

/// One legal transition: source square, destination square, and an optional
/// promotion piece code. Squares are indices 0..64, rank-major from a1.
#[derive(Clone, Copy, Debug, PartialEq, Eq, Structural)]
pub struct Move {
    pub from_sq: u8,
    pub to_sq: u8,
    pub promotion: Option<u8>,
}

impl Move {
    /// A move the rules engine can hand out: squares on the board and a
    /// promotion, if any, to knight, bishop, rook or queen.
    pub open spec fn wf(self) -> bool {
        &&& self.from_sq < 64
        &&& self.to_sq < 64
        &&& match self.promotion {
            Some(p) => KNIGHT <= p <= QUEEN,
            None => true,
        }
    }
}

/// Score of a checkmated side to move, from its own perspective, negated.
pub const MATE_SCORE: i32 = 100_000;

/// All search scores stay strictly inside this bound; the root window is
/// (-SCORE_INF, SCORE_INF).
pub const SCORE_INF: i32 = 1_000_000;

/// Static evaluations stay inside this bound, comfortably below
/// [`MATE_SCORE`].
pub const EVAL_BOUND: i32 = 69_000;

/// Why a move decision could not be made.
#[derive(Clone, Copy, Debug, PartialEq, Eq, Structural)]
pub enum EngineError {
    /// The engine was asked to move on the opponent's turn.
    NotEngineTurn,
    /// The position has no legal moves at all.
    NoLegalMoves,
}

} // verus!
