//! Checking a chain's bookkeeping at run time.

use crate::env::Env;
use crate::node::names_slot;
use crate::graph::{graph_ok, links_ok, live, node};
use vstd::prelude::*;

verus! {

/// Whether two links name the same slot, or both none.
fn same_link(a: Option<usize>, b: Option<usize>) -> (same: bool)
    ensures
        same == (a == b),
{
    match a {
        Some(x) => names_slot(b, x),
        None => b.is_none(),
    }
}

impl<G: Copy> Env<G> {
    /// Whether the links of the triangle in slot `i` are sound.
    pub fn links_are_sound(&self, i: usize) -> (sound: bool)
        requires
            self.is_live(i as int),
        ensures
            sound == links_ok(self.arena@, i as int),
    {
        let n = self.get_triangle(i);
        if let Some(p) = n.prev_node {
            if p == i || !self.holds_triangle(p) {
                return false;
            }
            let parent = self.get_triangle(p);
            if !names_slot(parent.next_node_1, i) && !names_slot(parent.next_node_2, i) {
                return false;
            }
            if same_link(n.prev_node, n.next_node_1) || same_link(n.prev_node, n.next_node_2) {
                return false;
            }
        }
        if let Some(c) = n.next_node_1 {
            if c == i || !self.holds_triangle(c) {
                return false;
            }
            if !names_slot(self.get_triangle(c).prev_node, i) {
                return false;
            }
            if same_link(n.next_node_1, n.next_node_2) {
                return false;
            }
        }
        if let Some(c) = n.next_node_2 {
            if c == i || !self.holds_triangle(c) {
                return false;
            }
            if !names_slot(self.get_triangle(c).prev_node, i) {
                return false;
            }
        }
        true
    }

    /// The chain's bookkeeping is in order: the arena fits the configured
    /// count, its graph is sound, the anchor's slot holds a triangle whenever
    /// any slot does, and the eviction cursor is on the ring.
    pub open spec fn spec_is_sound(&self) -> bool {
        &&& self.conf.triangle_count > 0
        &&& self.arena@.len() <= self.conf.triangle_count
        &&& graph_ok(self.arena@)
        &&& match self.last_triangle_ix {
            Some(l) => live(self.arena@, l as int),
            None => self.is_empty(),
        }
        &&& self.oldest_triangle_ix matches Some(o) ==> o < self.conf.triangle_count
    }

    /// Whether the chain's bookkeeping is in order: every link leads to a
    /// triangle that links back, no triangle but a chain's only one is
    /// without links, and the cursors are where they may be.
    #[verifier::when_used_as_spec(spec_is_sound)]
    pub fn is_sound(&self) -> (sound: bool)
        ensures
            sound == self.spec_is_sound(),
    {
        let len = self.arena.len();
        if self.conf.triangle_count == 0 || len > self.conf.triangle_count {
            return false;
        }
        if let Some(o) = self.oldest_triangle_ix {
            if o >= self.conf.triangle_count {
                return false;
            }
        }
        let mut first: Option<usize> = None;
        let mut more: bool = false;
        let mut bare: bool = false;
        let ghost mut more_at: int = 0;
        let ghost mut bare_at: int = 0;
        let mut i: usize = 0;
        while i < len
            invariant
                len == self.arena@.len(),
                i <= len,
                forall|k: int| 0 <= k < i && #[trigger] live(self.arena@, k) ==> links_ok(
                    self.arena@,
                    k,
                ),
                match first {
                    Some(f) => f < i && live(self.arena@, f as int) && forall|k: int|
                        0 <= k < f ==> !live(self.arena@, k),
                    None => forall|k: int| 0 <= k < i ==> !live(self.arena@, k),
                },
                more ==> first is Some && first->0 < more_at < i && live(self.arena@, more_at),
                !more ==> forall|k: int|
                    0 <= k < i && live(self.arena@, k) ==> first == Some(k as usize),
                bare ==> 0 <= bare_at < i && live(self.arena@, bare_at) && node(
                    self.arena@,
                    bare_at,
                ).spec_degree() == 0,
                !bare ==> forall|k: int|
                    0 <= k < i && #[trigger] live(self.arena@, k) ==> node(
                        self.arena@,
                        k,
                    ).spec_degree() >= 1,
            decreases len - i,
        {
            if self.arena[i].is_some() {
                if !self.links_are_sound(i) {
                    assert(live(self.arena@, i as int));
                    return false;
                }
                if first.is_none() {
                    first = Some(i);
                } else if !more {
                    more = true;
                    proof {
                        more_at = i as int;
                    }
                }
                if self.get_triangle(i).degree() == 0 && !bare {
                    bare = true;
                    proof {
                        bare_at = i as int;
                    }
                }
            }
            i += 1;
        }
        if bare && more {
            proof {
                let f = first->0 as int;
                if bare_at == f {
                    assert(live(self.arena@, bare_at) && live(self.arena@, more_at));
                } else {
                    assert(live(self.arena@, bare_at) && live(self.arena@, f));
                }
            }
            return false;
        }
        assert(graph_ok(self.arena@)) by {
            assert forall|a: int, b: int|
                #[trigger] live(self.arena@, a) && #[trigger] live(self.arena@, b) && a
                    != b implies node(self.arena@, a).spec_degree() >= 1 by {
                if bare {
                    assert(first == Some(a as usize));
                    assert(first == Some(b as usize));
                }
            }
        }
        match self.last_triangle_ix {
            Some(l) => self.holds_triangle(l),
            None => {
                proof {
                    if first is Some {
                        assert(live(self.arena@, first->0 as int));
                    }
                }
                first.is_none()
            },
        }
    }
}

} // verus!
