//! Choosing another anchor when growth at the current one has failed.

use crate::conf::PLACEMENT_BAILOUT_THRESHOLD;
use crate::env::Env;
use crate::graph::node;
use crate::random::draw_usize;
use rand_pcg::Pcg32;
use vstd::prelude::*;

verus! {

/// How an attempt to move the anchor ended.
#[derive(Clone, Copy, Debug, PartialEq, Eq, Structural)]
pub enum Reroot {
    /// The anchor is now a triangle of the chain that is not under the
    /// eviction cursor.
    Moved,
    /// The chain holds no triangle: the driver has to draw up a fresh
    /// initial triangle and hand it to `set_initial_triangle`.
    NeedsInitial,
    /// The only triangle of the chain is the one under the eviction cursor:
    /// there is nowhere to move to. The anchor is where it was.
    Stuck,
}

impl<G: Copy> Env<G> {
    /// Whether the triangle in slot `i` can become the anchor: the slot holds
    /// a triangle and is not the one under the eviction cursor.
    pub open spec fn can_anchor(&self, i: int) -> bool {
        self.is_live(i) && self.oldest_triangle_ix != Some(i as usize)
    }

    /// This chain with its anchor moved to the triangle in slot `l`.
    pub open spec fn anchored_at(self, l: usize) -> Self {
        Env {
            last_triangle_ix: Some(l),
            last_triangle: node(self.arena@, l as int).geometry,
            ..self
        }
    }

    /// Whether some triangle of the chain can become the anchor.
    pub open spec fn can_reroot(&self) -> bool {
        exists|i: int| self.can_anchor(i)
    }

    /// Whether `after` is this chain with its anchor moved to a triangle that
    /// can be the anchor.
    pub open spec fn rerooted(&self, after: &Self) -> bool {
        after.last_triangle_ix matches Some(l) && self.can_anchor(l as int) && *after
            == self.anchored_at(l)
    }

    /// Whether a drawn slot is accepted as the new anchor.
    pub fn accepts_anchor(&self, ix: usize) -> (accepted: bool)
        ensures
            accepted == self.can_anchor(ix as int),
    {
        let under_cursor = match self.oldest_triangle_ix {
            Some(o) => o == ix,
            None => false,
        };
        self.holds_triangle(ix) && !under_cursor
    }

    /// The first slot whose triangle can become the anchor.
    pub fn first_anchor(&self) -> (found: Option<usize>)
        ensures
            match found {
                Some(ix) => self.can_anchor(ix as int) && forall|j: int|
                    0 <= j < ix ==> !self.can_anchor(j),
                None => !self.can_reroot(),
            },
    {
        let mut ix: usize = 0;
        while ix < self.arena.len()
            invariant
                ix <= self.arena@.len(),
                forall|j: int| 0 <= j < ix ==> !self.can_anchor(j),
            decreases self.arena@.len() - ix,
        {
            if self.accepts_anchor(ix) {
                return Some(ix);
            }
            ix += 1;
        }
        None
    }

    /// Moves the anchor to the triangle in slot `ix`, if that triangle can be
    /// the anchor.
    pub fn try_anchor(&mut self, ix: usize) -> (moved: bool)
        requires
            old(self).wf(),
        ensures
            final(self).wf(),
            moved == old(self).can_anchor(ix as int),
            moved ==> *final(self) == old(self).anchored_at(ix),
            !moved ==> *final(self) == *old(self),
    {
        if !self.accepts_anchor(ix) {
            return false;
        }
        self.last_triangle = self.get_triangle(ix).geometry;
        self.last_triangle_ix = Some(ix);
        true
    }

    /// Moves the anchor to a triangle drawn at random among those of the
    /// chain, never to the one under the eviction cursor.
    ///
    /// Slots are drawn over the whole arena, and a draw that cannot be the
    /// anchor is thrown away and repeated. After
    /// `PLACEMENT_BAILOUT_THRESHOLD` draws in vain the anchor goes to the
    /// first slot that can take it, so that it moves whenever it can. A
    /// chain without triangles draws nothing and asks for a fresh initial
    /// triangle instead; a chain whose only triangle is under the eviction
    /// cursor draws nothing and stays as it is.
    pub fn set_new_last_triangle(&mut self, rng: &mut Pcg32) -> (outcome: Reroot)
        requires
            old(self).wf(),
        ensures
            final(self).wf(),
            match outcome {
                Reroot::Moved => old(self).can_reroot() && old(self).rerooted(final(self)),
                Reroot::NeedsInitial => old(self).is_empty() && *final(self) == *old(self),
                Reroot::Stuck => !old(self).is_empty() && !old(self).can_reroot() && *final(self)
                    == *old(self),
            },
    {
        if self.last_triangle_ix.is_none() {
            return Reroot::NeedsInitial;
        }
        let fallback = match self.first_anchor() {
            Some(ix) => ix,
            None => {
                return Reroot::Stuck;
            },
        };
        let len = self.arena.len();
        let mut draws: usize = 0;
        while draws < PLACEMENT_BAILOUT_THRESHOLD
            invariant
                *self == *old(self),
                self.wf(),
                self.can_anchor(fallback as int),
                len == self.arena@.len(),
            decreases PLACEMENT_BAILOUT_THRESHOLD - draws,
        {
            let ix = draw_usize(rng, 0, len);
            if self.try_anchor(ix) {
                return Reroot::Moved;
            }
            draws += 1;
        }
        let moved = self.try_anchor(fallback);
        assert(moved);
        Reroot::Moved
    }
}

} // verus!
