//! Transposition table: a cache from position fingerprint to a prior
//! search result, living only for the duration of one move decision.

use std::collections::HashMap;

use vstd::prelude::*;

use crate::types::{Move, SCORE_INF};

verus! {

broadcast use vstd::std_specs::hash::group_hash_axioms;

/// How the stored score relates to the true score of the node.
#[derive(Clone, Copy, Debug, PartialEq, Eq, Structural)]
pub enum BoundKind {
    /// The score improved alpha without reaching beta.
    Exact,
    /// Fail-high: the true score is at least the stored score.
    Lower,
    /// Fail-low: the true score is at most the stored score.
    Upper,
}

/// One cached search result.
#[derive(Clone, Copy, Debug)]
pub struct TtEntry {
    pub depth: u32,
    pub score: i32,
    pub bound: BoundKind,
    pub best_move: Option<Move>,
}

impl TtEntry {
    /// Scores in the table stay inside the search window bound.
    pub open spec fn wf(self) -> bool {
        -SCORE_INF <= self.score <= SCORE_INF
    }
}

/// The cache itself, keyed by the rules engine's 64-bit fingerprint.
/// On a key collision `put` unconditionally overwrites.
pub struct TranspositionTable {
    map: HashMap<u64, TtEntry>,
}

impl View for TranspositionTable {
    type V = Map<u64, TtEntry>;

    closed spec fn view(&self) -> Map<u64, TtEntry> {
        self.map@
    }
}

impl TranspositionTable {
    /// Every stored entry is well formed.
    pub open spec fn wf(self) -> bool {
        forall|k: u64| self@.contains_key(k) ==> (#[trigger] self@[k]).wf()
    }

    /// An empty table.
    pub fn new() -> (r: TranspositionTable)
        ensures
            r@ == Map::<u64, TtEntry>::empty(),
            r.wf(),
    {
        TranspositionTable { map: HashMap::new() }
    }

    /// The entry stored for `key`, if any.
    pub fn get(&self, key: u64) -> (r: Option<TtEntry>)
        ensures
            match r {
                Some(e) => self@.contains_key(key) && e == self@[key],
                None => !self@.contains_key(key),
            },
    {
        match self.map.get(&key) {
            Some(e) => Some(*e),
            None => None,
        }
    }

    /// Store `entry` for `key`, overwriting any previous entry.
    pub fn put(&mut self, key: u64, entry: TtEntry)
        requires
            old(self).wf(),
            entry.wf(),
        ensures
            final(self)@ == old(self)@.insert(key, entry),
            final(self).wf(),
    {
        self.map.insert(key, entry);
        proof {
            assert forall|k: u64| self@.contains_key(k) implies (#[trigger] self@[k]).wf() by {
                if k != key {
                    assert(old(self)@.contains_key(k));
                }
            }
        }
    }
}

} // verus!
