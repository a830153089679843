//! Per-ply memory of quiet moves that recently caused beta cutoffs.

use vstd::prelude::*;

use crate::types::Move;

verus! {

/// Up to two most-recently-recorded killer moves for each search ply.
/// Queries and inserts beyond the configured maximum ply are inert.
pub struct KillerMoves {
    slots: Vec<(Option<Move>, Option<Move>)>,
}

impl KillerMoves {
    /// The slot pair remembered for `ply`, `(None, None)` out of range.
    pub closed spec fn pair_at(self, ply: int) -> (Option<Move>, Option<Move>) {
        if 0 <= ply < self.slots@.len() {
            self.slots@[ply]
        } else {
            (None, None)
        }
    }

    /// Whether `m` occupies either slot of `ply`.
    pub open spec fn spec_is_killer(self, m: Move, ply: int) -> bool {
        self.pair_at(ply).0 == Some(m) || self.pair_at(ply).1 == Some(m)
    }

    /// How many plies this table remembers.
    pub closed spec fn spec_len(self) -> int {
        self.slots@.len() as int
    }

    /// A fresh table covering plies `0..max_ply`, with every slot empty.
    pub fn new(max_ply: usize) -> (r: KillerMoves)
        ensures
            r.spec_len() == max_ply,
            forall|ply: int| r.pair_at(ply) == (None::<Move>, None::<Move>),
    {
        let mut slots: Vec<(Option<Move>, Option<Move>)> = Vec::new();
        let mut i: usize = 0;
        while i < max_ply
            invariant
                i <= max_ply,
                slots@.len() == i,
                forall|p: int| 0 <= p < i ==> slots@[p] == (None::<Move>, None::<Move>),
            decreases max_ply - i,
        {
            slots.push((None, None));
            i = i + 1;
        }
        KillerMoves { slots }
    }

    /// Record `m` as the most recent killer at `ply`: unless it already
    /// occupies the first slot, the first slot shifts to the second and `m`
    /// takes the first. Out of range, nothing changes.
    pub fn add_killer(&mut self, m: Move, ply: usize)
        ensures
            final(self).spec_len() == old(self).spec_len(),
            ply >= old(self).spec_len() ==> *final(self) == *old(self),
            ply < old(self).spec_len() && old(self).pair_at(ply as int).0 == Some(m)
                ==> *final(self) == *old(self),
            ply < old(self).spec_len() && old(self).pair_at(ply as int).0 != Some(m)
                ==> (forall|p: int|
                    final(self).pair_at(p) == if p == ply {
                        (Some(m), old(self).pair_at(ply as int).0)
                    } else {
                        old(self).pair_at(p)
                    }),
    {
        if ply >= self.slots.len() {
            return ;
        }
        let (first, _) = self.slots[ply];
        if first != Some(m) {
            self.slots.set(ply, (Some(m), first));
        }
    }

    /// Whether `m` is one of the killers remembered for `ply`; false out of
    /// range.
    pub fn is_killer(&self, m: &Move, ply: usize) -> (r: bool)
        ensures
            r == self.spec_is_killer(*m, ply as int),
    {
        if ply >= self.slots.len() {
            return false;
        }
        let (first, second) = self.slots[ply];
        first == Some(*m) || second == Some(*m)
    }

    /// Plies the table does not cover hold nothing: a query there is false
    /// and (by `add_killer`'s contract) an insert there is a no-op.
    pub proof fn lemma_out_of_range_inert(self, ply: int)
        requires
            ply < 0 || ply >= self.spec_len(),
        ensures
            self.pair_at(ply) == (None::<Move>, None::<Move>),
            forall|m: Move| !self.spec_is_killer(m, ply),
    {
    }

    /// The slot pair for `ply`, `(None, None)` out of range.
    pub fn slots_at(&self, ply: usize) -> (r: (Option<Move>, Option<Move>))
        ensures
            r == self.pair_at(ply as int),
    {
        if ply >= self.slots.len() {
            return (None, None);
        }
        self.slots[ply]
    }
}

} // verus!
