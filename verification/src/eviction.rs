//! Letting the oldest triangle go.

use crate::anchor::Reroot;
use crate::env::Env;
use crate::graph::{
    detach, lemma_detach, lemma_detach_occupancy, links_ok, node, occupancy, safe_to_evict,
};
use crate::node::{names_slot, TriangleHandle};
use crate::placement::PlaceError;
use crate::tree::{lemma_detach_tree, lemma_occupied_slots, lemma_some_triangle_can_leave};
use rand_pcg::Pcg32;
use vstd::prelude::*;

verus! {

/// How an eviction step ended.
#[derive(Debug)]
pub enum Eviction<G> {
    /// The triangle under the eviction cursor has left the arena. The driver
    /// erases it from the display, removes its entry from the spatial index,
    /// and grows a triangle into its slot.
    Evicted(TriangleHandle<G>),
    /// The slot under the eviction cursor holds no triangle. There is
    /// nothing to erase; the driver grows a triangle into the slot.
    Vacant,
    /// No triangle can leave, or the anchor could not move out of the way.
    /// Every triangle is where it was.
    Stalled,
}

/// Whether slot `i` comes at or after `start` and before `stop` as the
/// eviction cursor walks its ring.
pub open spec fn lies_between(start: usize, stop: usize, i: int) -> bool {
    if start <= stop {
        start <= i < stop
    } else {
        start <= i || i < stop
    }
}

impl<G: Copy> Env<G> {
    /// Whether the eviction cursor passes over `cursor`: it does when it is
    /// not on a slot yet, and when the triangle in the slot cannot leave
    /// safely. It stops at a slot without a triangle.
    pub open spec fn passes_over(&self, cursor: Option<usize>) -> bool {
        match cursor {
            Some(o) => self.is_live(o as int) && !safe_to_evict(self.arena@, o as int),
            None => true,
        }
    }

    /// Whether the triangle in slot `o` can leave without stranding a
    /// neighbour: it has exactly one link, and no triangle it is linked to
    /// has exactly one.
    pub fn is_safe_to_evict(&self, o: usize) -> (safe: bool)
        requires
            self.is_sound(),
            self.is_live(o as int),
        ensures
            safe == safe_to_evict(self.arena@, o as int),
    {
        let oldest = self.get_triangle(o);
        assert(links_ok(self.arena@, o as int));
        if oldest.degree() != 1 {
            return false;
        }
        if let Some(p) = oldest.prev_node {
            if self.get_triangle(p).degree() == 1 {
                return false;
            }
        }
        if let Some(c) = oldest.next_node_1 {
            if self.get_triangle(c).degree() == 1 {
                return false;
            }
        }
        if let Some(c) = oldest.next_node_2 {
            if self.get_triangle(c).degree() == 1 {
                return false;
            }
        }
        true
    }

    /// Takes the triangle out of slot `o` and clears the links that led to it.
    fn evict(&mut self, o: usize) -> (gone: TriangleHandle<G>)
        requires
            old(self).wf(),
            safe_to_evict(old(self).arena@, o as int),
            old(self).last_triangle_ix != Some(o),
        ensures
            final(self).wf(),
            gone == node(old(self).arena@, o as int),
            final(self).arena@ == detach(old(self).arena@, o as int),
            final(self).last_triangle_ix == old(self).last_triangle_ix,
            final(self).last_triangle == old(self).last_triangle,
            final(self).oldest_triangle_ix == old(self).oldest_triangle_ix,
            final(self).conf == old(self).conf,
            final(self).chain_ix == old(self).chain_ix,
    {
        proof {
            lemma_detach(self.arena@, o as int);
            lemma_detach_tree(self.arena@, o as int);
            assert(links_ok(self.arena@, o as int));
        }
        let gone = self.arena[o].take().unwrap();
        if let Some(p) = gone.prev_node {
            assert(links_ok(old(self).arena@, p as int));
            let mut parent = self.arena[p].take().unwrap();
            if names_slot(parent.next_node_1, o) {
                parent.next_node_1 = None;
            } else {
                parent.next_node_2 = None;
            }
            self.arena[p] = Some(parent);
        }
        if let Some(c) = gone.next_node_1 {
            assert(links_ok(old(self).arena@, c as int));
            let mut child = self.arena[c].take().unwrap();
            child.prev_node = None;
            self.arena[c] = Some(child);
        }
        if let Some(c) = gone.next_node_2 {
            assert(links_ok(old(self).arena@, c as int));
            let mut child = self.arena[c].take().unwrap();
            child.prev_node = None;
            self.arena[c] = Some(child);
        }
        assert(self.arena@ =~= detach(old(self).arena@, o as int));
        gone
    }

    /// The slot at which the eviction cursor begins its walk.
    pub open spec fn walk_start(&self) -> usize {
        match self.oldest_triangle_ix {
            Some(o) => o,
            None => 0,
        }
    }

    /// Whether the eviction cursor passes over every slot from where it
    /// stands up to `stop`.
    pub open spec fn passes_up_to(&self, stop: usize) -> bool {
        forall|i: int|
            0 <= i < self.conf.triangle_count && lies_between(self.walk_start(), stop, i)
                ==> #[trigger] self.passes_over(Some(i as usize))
    }

    /// Where the anchor can be once the eviction cursor has walked from where
    /// it stands in `self` to where it stands in `after`: where it was,
    /// unless the cursor came to stand on it.
    pub open spec fn anchor_after_walk(&self, after: &Self) -> bool {
        match self.last_triangle_ix {
            Some(l) => {
                ||| after.last_triangle_ix == Some(l)
                ||| after.oldest_triangle_ix == Some(l)
                ||| lies_between(self.walk_start(), after.oldest_triangle_ix->0, l as int)
                ||| self.passes_all()
            },
            None => after.last_triangle_ix is None && after.last_triangle
                == self.last_triangle,
        }
    }

    /// Whether the triangle in slot `o` is the only triangle of the chain.
    pub open spec fn holds_only(&self, o: usize) -> bool {
        self.is_live(o as int) && forall|i: int| self.is_live(i) ==> i == o
    }

    /// Whether every slot of the ring holds a triangle.
    pub open spec fn is_full(&self) -> bool {
        forall|i: int| 0 <= i < self.conf.triangle_count ==> self.is_live(i)
    }

    /// Whether the eviction cursor passes over every slot of its ring.
    pub open spec fn passes_all(&self) -> bool {
        forall|i: int|
            0 <= i < self.conf.triangle_count ==> #[trigger] self.passes_over(Some(i as usize))
    }
}

/// Lets the oldest triangle go, if one can.
///
/// The walk begins at the eviction cursor (at the first slot, if the
/// cursor was never set) and goes once round the ring. A triangle that
/// cannot leave safely is passed over; the walk stops at the first slot
/// whose triangle can leave, or that holds none. Whenever the cursor
/// comes to stand on the anchor, the anchor first moves to another
/// triangle (see `set_new_last_triangle`), since the next triangle is to
/// grow from it; if it cannot move, the step stalls there. The cursor
/// stays on the slot where the walk ended, so that the driver can grow a
/// triangle into it and then call `advance_oldest`. Nothing but an anchor
/// with two children can then keep a triangle out of that slot.
///
/// The step stalls in two cases only: when the cursor has come back to where
/// it began and every slot on its way holds a triangle that cannot leave,
/// and when it stands on the anchor and the chain has no other triangle for
/// the anchor to move to. A chain of three triangles or more always has one
/// that can leave, so it never stalls; if its arena is full, a triangle
/// leaves.
pub fn generate<G: Copy>(env: &mut Env<G>, rng: &mut Pcg32) -> (outcome: Eviction<G>)
    requires
        old(env).wf(),
    ensures
        final(env).wf(),
        final(env).conf == old(env).conf,
        final(env).chain_ix == old(env).chain_ix,
        final(env).oldest_triangle_ix matches Some(stop) && old(env).passes_up_to(stop),
        old(env).anchor_after_walk(final(env)),
        !(outcome is Stalled) ==> {
            &&& final(env).last_triangle_ix != final(env).oldest_triangle_ix
            &&& final(env).place_error(true) matches Some(e) ==> e == PlaceError::AnchorFull
        },
        occupancy(old(env).arena@) >= 3 ==> !(outcome is Stalled),
        occupancy(old(env).arena@) >= 3 && old(env).is_full() ==> outcome is Evicted,
        match outcome {
            Eviction::Evicted(gone) => {
                let o = final(env).oldest_triangle_ix->0;
                &&& safe_to_evict(old(env).arena@, o as int)
                &&& gone == node(old(env).arena@, o as int)
                &&& final(env).arena@ == detach(old(env).arena@, o as int)
                &&& final(env).payloads() == old(env).payloads().remove(
                    (old(env).chain_ix, o),
                )
                &&& occupancy(final(env).arena@) + 1 == occupancy(old(env).arena@)
                &&& forall|i: int| #[trigger]
                    final(env).is_live(i) ==> node(final(env).arena@, i).spec_degree() >= 1
            },
            Eviction::Vacant => {
                &&& !old(env).is_live(final(env).oldest_triangle_ix->0 as int)
                &&& final(env).arena == old(env).arena
            },
            Eviction::Stalled => {
                let stop = final(env).oldest_triangle_ix;
                &&& final(env).arena == old(env).arena
                &&& old(env).passes_over(stop)
                &&& {
                    ||| old(env).passes_all() && stop == Some(old(env).walk_start())
                    ||| final(env).last_triangle_ix == stop && old(env).holds_only(stop->0)
                }
            },
        },
{
    let count = env.conf.triangle_count;
    if env.oldest_triangle_ix.is_none() {
        env.advance_oldest();
    }
    let ghost start = old(env).walk_start();
    let mut tried: usize = 0;
    while tried < count
        invariant
            env.wf(),
            env.conf == old(env).conf,
            env.chain_ix == old(env).chain_ix,
            env.arena == old(env).arena,
            count == env.conf.triangle_count,
            start == old(env).walk_start(),
            start < count,
            tried <= count,
            env.oldest_triangle_ix == Some(
                (if start + tried < count {
                    start + tried
                } else {
                    start + tried - count
                }) as usize,
            ),
            forall|i: int|
                0 <= i < count && (start <= i < start + tried || i < start + tried - count)
                    ==> #[trigger] old(env).passes_over(Some(i as usize)),
            old(env).last_triangle_ix is None ==> env.last_triangle_ix is None
                && env.last_triangle == old(env).last_triangle,
            old(env).last_triangle_ix matches Some(l) ==> {
                ||| env.last_triangle_ix == Some(l)
                ||| start <= l < start + tried
                ||| l < start + tried - count
            },
        decreases count - tried,
    {
        let o = env.oldest_triangle_ix.unwrap();
        if names_slot(env.last_triangle_ix, o) {
            match env.set_new_last_triangle(rng) {
                Reroot::Moved => {},
                _ => {
                    proof {
                        // nothing but the anchor is there, so it has no links
                        assert(env.arena@ == old(env).arena@);
                        assert forall|i: int| old(env).is_live(i) implies i == o by {
                            if i != o {
                                assert(env.can_anchor(i));
                            }
                        }
                        assert(old(env).is_live(o as int));
                        assert(links_ok(old(env).arena@, o as int));
                        let alone = node(old(env).arena@, o as int);
                        if alone.prev_node is Some {
                            assert(old(env).is_live(alone.prev_node->0 as int));
                        }
                        if alone.next_node_1 is Some {
                            assert(old(env).is_live(alone.next_node_1->0 as int));
                        }
                        if alone.next_node_2 is Some {
                            assert(old(env).is_live(alone.next_node_2->0 as int));
                        }
                        assert(alone.spec_degree() == 0);
                        assert(old(env).holds_only(o));
                        assert(old(env).passes_over(Some(o)));
                        if occupancy(old(env).arena@) >= 2 {
                            let two = lemma_occupied_slots(old(env).arena@, 2);
                            assert(old(env).is_live(two[0]) && old(env).is_live(two[1]));
                        }
                    }
                    return Eviction::Stalled;
                },
            }
        }
        if !env.holds_triangle(o) {
            assert(!old(env).is_live(o as int));
            return Eviction::Vacant;
        }
        if env.is_safe_to_evict(o) {
            proof {
                lemma_detach(env.arena@, o as int);
                lemma_detach_occupancy(env.arena@, o as int);
            }
            let gone = env.evict(o);
            return Eviction::Evicted(gone);
        }
        env.advance_oldest();
        tried += 1;
    }
    proof {
        if occupancy(env.arena@) >= 3 {
            lemma_some_triangle_can_leave(env.arena@);
            let o = choose|o: int| safe_to_evict(env.arena@, o);
            assert(old(env).passes_over(Some(o as usize)));
        }
    }
    Eviction::Stalled
}

} // verus!
