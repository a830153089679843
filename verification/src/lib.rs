//! A verified negamax game-tree search core for chess.
//!
//! The search, evaluation, move ordering, killer-move and transposition
//! bookkeeping are verified; the rules of chess themselves (legal move
//! enumeration, making moves, position status and hashing) are supplied by
//! the `chess` crate behind the narrow trusted boundary in [`rules`].

pub mod types;
pub mod rules;
pub mod killers;
pub mod table;
pub mod eval;
pub mod ordering;
pub mod search;
pub mod laws;
