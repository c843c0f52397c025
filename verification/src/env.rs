//! A chain: its arena, its cursors and its configuration.

use crate::conf::Conf;
use crate::graph::{live, node, occupancy, payloads, records};
use crate::node::TriangleHandle;
use crate::tree::{lemma_empty_is_tree, tree_ok};
use vstd::prelude::*;

verus! {

/// One chain of triangles.
///
/// `arena` grows by one slot per placed triangle until it holds
/// `conf.triangle_count` slots; from then on a new triangle takes the slot of
/// one that left. `last_triangle` is the anchor that the next triangle grows
/// from and `last_triangle_ix` its slot; before the first triangle is placed
/// the anchor is a triangle that was only drawn up, and has no slot.
/// `oldest_triangle_ix` walks round the arena and marks the triangle that is
/// next to leave.
pub struct Env<G> {
    pub chain_ix: usize,
    pub conf: Conf,
    pub last_triangle: G,
    pub last_triangle_ix: Option<usize>,
    pub oldest_triangle_ix: Option<usize>,
    pub arena: Vec<Option<TriangleHandle<G>>>,
}

/// The slot that follows `cursor` on a ring of `count` slots.
pub open spec fn next_on_ring(cursor: Option<usize>, count: usize) -> Option<usize> {
    match cursor {
        Some(o) => if o + 1 < count {
            Some((o + 1) as usize)
        } else {
            Some(0)
        },
        None => Some(0),
    }
}

impl<G: Copy> Env<G> {
    /// Whether slot `i` holds a triangle.
    pub open spec fn is_live(&self, i: int) -> bool {
        live(self.arena@, i)
    }

    /// Whether no slot holds a triangle.
    pub open spec fn is_empty(&self) -> bool {
        forall|i: int| !live(self.arena@, i)
    }

    /// The entries that the driver's spatial index is to hold for this
    /// chain: one for each of its slots that holds a triangle. The library
    /// does not see the index; this is what keeps the index in step with the
    /// arena, if the driver adds and takes out what the operations say.
    pub open spec fn payloads(&self) -> Set<(usize, usize)> {
        payloads(self.chain_ix, self.arena@)
    }

    /// The chain is well formed: its bookkeeping is in order (see
    /// `is_sound`), its triangles form one tree, and the anchor has the
    /// geometry of the triangle in its slot.
    pub open spec fn wf(&self) -> bool {
        &&& self.is_sound()
        &&& tree_ok(self.arena@)
        &&& self.last_triangle_ix matches Some(l) ==> self.last_triangle == node(
            self.arena@,
            l as int,
        ).geometry
    }

    /// A chain without triangles, anchored at `last_triangle`.
    pub fn new(conf: Conf, chain_ix: usize, last_triangle: G) -> (env: Self)
        requires
            conf.triangle_count > 0,
        ensures
            env.wf(),
            env.conf == conf,
            env.chain_ix == chain_ix,
            env.last_triangle == last_triangle,
            env.last_triangle_ix is None,
            env.oldest_triangle_ix is None,
            env.arena@.len() == 0,
    {
        let env = Env {
            chain_ix,
            conf,
            last_triangle,
            last_triangle_ix: None,
            oldest_triangle_ix: None,
            arena: Vec::new(),
        };
        proof {
            lemma_empty_is_tree(env.arena@);
        }
        env
    }

    /// The arena, slot by slot.
    pub fn triangles(&self) -> (arena: &Vec<Option<TriangleHandle<G>>>)
        ensures
            arena == self.arena,
    {
        &self.arena
    }

    /// The triangle in slot `i`.
    pub fn get_triangle(&self, i: usize) -> (handle: &TriangleHandle<G>)
        requires
            self.is_live(i as int),
        ensures
            *handle == node(self.arena@, i as int),
    {
        self.arena[i].as_ref().unwrap()
    }

    /// The arena, for changing it in place. Nothing here keeps the chain
    /// well formed: whoever writes through the reference answers for `wf`.
    pub fn triangles_mut(&mut self) -> (arena: &mut Vec<Option<TriangleHandle<G>>>)
        ensures
            *arena == old(self).arena,
            final(self).arena == *final(arena),
            final(self).last_triangle_ix == old(self).last_triangle_ix,
            final(self).last_triangle == old(self).last_triangle,
            final(self).oldest_triangle_ix == old(self).oldest_triangle_ix,
            final(self).conf == old(self).conf,
            final(self).chain_ix == old(self).chain_ix,
    {
        &mut self.arena
    }

    /// The triangle in slot `i`, for changing it in place. Nothing here keeps
    /// the chain well formed: whoever writes through the reference answers
    /// for `wf`.
    pub fn get_triangle_mut(&mut self, i: usize) -> (handle: &mut TriangleHandle<G>)
        requires
            old(self).is_live(i as int),
        ensures
            *handle == node(old(self).arena@, i as int),
            final(self).arena@ == old(self).arena@.update(i as int, Some(*final(handle))),
            final(self).last_triangle_ix == old(self).last_triangle_ix,
            final(self).last_triangle == old(self).last_triangle,
            final(self).oldest_triangle_ix == old(self).oldest_triangle_ix,
            final(self).conf == old(self).conf,
            final(self).chain_ix == old(self).chain_ix,
    {
        self.arena[i].as_mut().unwrap()
    }

    /// Whether slot `i` holds a triangle.
    pub fn holds_triangle(&self, i: usize) -> (held: bool)
        ensures
            held == self.is_live(i as int),
    {
        i < self.arena.len() && self.arena[i].is_some()
    }

    /// The number of triangles that the chain holds.
    pub fn occupancy(&self) -> (count: usize)
        ensures
            count == occupancy(self.arena@),
            count <= self.arena@.len(),
    {
        let mut count: usize = 0;
        let mut i: usize = 0;
        while i < self.arena.len()
            invariant
                i <= self.arena@.len(),
                count <= i,
                count == occupancy(self.arena@.take(i as int)),
            decreases self.arena@.len() - i,
        {
            assert(self.arena@.take(i + 1).drop_last() =~= self.arena@.take(i as int));
            if self.arena[i].is_some() {
                count += 1;
            }
            i += 1;
        }
        assert(self.arena@.take(i as int) =~= self.arena@);
        count
    }

    /// Replaces the anchor of a chain that has no triangles.
    pub fn set_initial_triangle(&mut self, triangle: G)
        requires
            old(self).wf(),
            old(self).is_empty(),
        ensures
            final(self).wf(),
            *final(self) == (Env {
                last_triangle: triangle,
                last_triangle_ix: None,
                ..*old(self)
            }),
    {
        self.last_triangle = triangle;
        self.last_triangle_ix = None;
    }

    /// Empties the arena and hands back the triangles that were in it, in the
    /// order of their slots, for the driver to erase them and to take their
    /// entries out of the spatial index. The anchor keeps its geometry and
    /// loses its slot; the eviction cursor stays where it is.
    pub fn clear(&mut self) -> (removed: Vec<TriangleHandle<G>>)
        requires
            old(self).wf(),
        ensures
            final(self).wf(),
            removed@ == records(old(self).arena@),
            final(self).arena@.len() == 0,
            final(self).last_triangle_ix is None,
            final(self).last_triangle == old(self).last_triangle,
            final(self).oldest_triangle_ix == old(self).oldest_triangle_ix,
            final(self).conf == old(self).conf,
            final(self).chain_ix == old(self).chain_ix,
    {
        let mut removed: Vec<TriangleHandle<G>> = Vec::new();
        let mut i: usize = 0;
        while i < self.arena.len()
            invariant
                i <= self.arena@.len(),
                self.arena@.len() == old(self).arena@.len(),
                forall|j: int| i <= j < self.arena@.len() ==> self.arena@[j] == old(self).arena@[j],
                removed@ == records(old(self).arena@.take(i as int)),
                self.last_triangle == old(self).last_triangle,
                self.oldest_triangle_ix == old(self).oldest_triangle_ix,
                self.conf == old(self).conf,
                self.chain_ix == old(self).chain_ix,
            decreases self.arena@.len() - i,
        {
            assert(old(self).arena@.take(i + 1).drop_last() =~= old(self).arena@.take(i as int));
            if let Some(record) = self.arena[i].take() {
                removed.push(record);
            }
            i += 1;
        }
        assert(old(self).arena@.take(i as int) =~= old(self).arena@);
        self.arena.clear();
        self.last_triangle_ix = None;
        proof {
            lemma_empty_is_tree(self.arena@);
        }
        removed
    }

    /// Moves the eviction cursor one slot on, back to the first slot after
    /// the last.
    pub fn advance_oldest(&mut self)
        requires
            old(self).wf(),
        ensures
            final(self).wf(),
            *final(self) == (Env {
                oldest_triangle_ix: next_on_ring(
                    old(self).oldest_triangle_ix,
                    old(self).conf.triangle_count,
                ),
                ..*old(self)
            }),
    {
        self.oldest_triangle_ix = match self.oldest_triangle_ix {
            Some(o) => if o < self.conf.triangle_count - 1 {
                Some(o + 1)
            } else {
                Some(0)
            },
            None => Some(0),
        };
    }
}

} // verus!
