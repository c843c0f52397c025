//! Putting a triangle into the arena.

use crate::env::Env;
use crate::graph::{attach, lemma_attach, lemma_attach_occupancy, node, occupancy};
use crate::node::TriangleHandle;
use crate::tree::lemma_attach_tree;
use ncollide2d::partitioning::DBVTLeafId;
use vstd::prelude::*;

verus! {

/// Why a chain cannot take a triangle right now.
#[derive(Clone, Copy, Debug, PartialEq, Eq, Structural)]
pub enum PlaceError {
    /// The slot of the oldest triangle was asked for before the eviction
    /// cursor was ever set.
    NoCursor,
    /// A new slot is needed and the arena already has its full count.
    ArenaFull,
    /// The slot to take still holds a triangle.
    SlotOccupied,
    /// The anchor already has two children.
    AnchorFull,
}

impl<G: Copy> Env<G> {
    /// The slot that the next triangle goes to: the slot under the eviction
    /// cursor when that is asked for and the arena reaches that far, a new
    /// slot at the end of the arena otherwise.
    pub open spec fn spec_insertion_ix(&self, insert_at_oldest_ix: bool) -> int {
        if insert_at_oldest_ix && self.oldest_triangle_ix is Some && self.oldest_triangle_ix->0
            < self.arena@.len() {
            self.oldest_triangle_ix->0 as int
        } else {
            self.arena@.len() as int
        }
    }

    /// What stands in the way of the next triangle, if anything.
    pub open spec fn place_error(&self, insert_at_oldest_ix: bool) -> Option<PlaceError> {
        let ix = self.spec_insertion_ix(insert_at_oldest_ix);
        if insert_at_oldest_ix && self.oldest_triangle_ix is None {
            Some(PlaceError::NoCursor)
        } else if ix >= self.conf.triangle_count {
            Some(PlaceError::ArenaFull)
        } else if self.is_live(ix) {
            Some(PlaceError::SlotOccupied)
        } else if self.last_triangle_ix is Some && !node(
            self.arena@,
            self.last_triangle_ix->0 as int,
        ).has_free_child() {
            Some(PlaceError::AnchorFull)
        } else {
            None
        }
    }

    /// Whether the chain can take a triangle.
    pub open spec fn placeable(&self, insert_at_oldest_ix: bool) -> bool {
        self.place_error(insert_at_oldest_ix) is None
    }

    /// The slot that the next triangle would go to, or the reason why the
    /// chain cannot take one.
    ///
    /// The driver needs the slot before it places the triangle: the slot is
    /// part of the triangle's entry in the spatial index.
    pub fn insertion_ix(&self, insert_at_oldest_ix: bool) -> (slot: Result<usize, PlaceError>)
        requires
            self.is_sound(),
        ensures
            match slot {
                Ok(ix) => self.placeable(insert_at_oldest_ix) && ix == self.spec_insertion_ix(
                    insert_at_oldest_ix,
                ),
                Err(e) => self.place_error(insert_at_oldest_ix) == Some(e),
            },
    {
        let len = self.arena.len();
        let ix = match self.oldest_triangle_ix {
            Some(o) => if insert_at_oldest_ix && o < len {
                o
            } else {
                len
            },
            None => {
                if insert_at_oldest_ix {
                    return Err(PlaceError::NoCursor);
                }
                len
            },
        };
        if ix >= self.conf.triangle_count {
            return Err(PlaceError::ArenaFull);
        }
        if ix < len && self.arena[ix].is_some() {
            return Err(PlaceError::SlotOccupied);
        }
        if let Some(p) = self.last_triangle_ix {
            let anchor = self.get_triangle(p);
            if anchor.next_node_1.is_some() && anchor.next_node_2.is_some() {
                return Err(PlaceError::AnchorFull);
            }
        }
        Ok(ix)
    }
}

/// Records a triangle that the driver has drawn and entered into the
/// spatial index.
///
/// The triangle goes to the slot that `insertion_ix` announced, with the
/// anchor as its parent and no children. The anchor lists it as a child,
/// in its first child link if that is empty and in the second otherwise.
/// The new triangle then becomes the anchor.
pub fn place_triangle<G: Copy>(
    env: &mut Env<G>,
    insert_at_oldest_ix: bool,
    geometry: G,
    collider_handle: DBVTLeafId,
    dom_id: usize,
) -> (ix: usize)
    requires
        old(env).wf(),
        old(env).placeable(insert_at_oldest_ix),
    ensures
        final(env).wf(),
        ix == old(env).spec_insertion_ix(insert_at_oldest_ix),
        final(env).arena@ == attach(
            old(env).arena@,
            ix as int,
            (TriangleHandle {
                geometry,
                collider_handle,
                dom_id,
                prev_node: old(env).last_triangle_ix,
                next_node_1: None,
                next_node_2: None,
            }),
        ),
        final(env).is_live(ix as int),
        final(env).last_triangle_ix == Some(ix),
        final(env).last_triangle == geometry,
        final(env).oldest_triangle_ix == old(env).oldest_triangle_ix,
        final(env).conf == old(env).conf,
        final(env).chain_ix == old(env).chain_ix,
        final(env).payloads() == old(env).payloads().insert((old(env).chain_ix, ix)),
        occupancy(final(env).arena@) == occupancy(old(env).arena@) + 1,
{
    let len = env.arena.len();
    let ix = match env.oldest_triangle_ix {
        Some(o) => if insert_at_oldest_ix && o < len {
            o
        } else {
            len
        },
        None => len,
    };
    let handle = TriangleHandle {
        geometry,
        collider_handle,
        dom_id,
        prev_node: env.last_triangle_ix,
        next_node_1: None,
        next_node_2: None,
    };
    let ghost record = handle;
    proof {
        lemma_attach(env.arena@, ix as int, record);
        lemma_attach_tree(env.arena@, ix as int, record);
        lemma_attach_occupancy(env.arena@, ix as int, record);
    }
    if ix == len {
        env.arena.push(Some(handle));
    } else {
        env.arena[ix] = Some(handle);
    }
    if let Some(p) = env.last_triangle_ix {
        let mut anchor = env.arena[p].take().unwrap();
        if anchor.next_node_1.is_none() {
            anchor.next_node_1 = Some(ix);
        } else {
            anchor.next_node_2 = Some(ix);
        }
        env.arena[p] = Some(anchor);
    }
    env.last_triangle = geometry;
    env.last_triangle_ix = Some(ix);
    assert(env.arena@ =~= attach(old(env).arena@, ix as int, record));
    ix
}

} // verus!
