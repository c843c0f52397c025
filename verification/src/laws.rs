//! What holds of every well-formed chain.

use crate::env::Env;
use crate::graph::{lemma_payloads_count, links_ok, live, node, occupancy};
use crate::placement::PlaceError;
use vstd::prelude::*;

verus! {

/// A triangle of a well-formed chain has at most three links, and at least
/// one unless it is the only triangle of its chain.
pub proof fn lemma_degree_invariant<G: Copy>(env: Env<G>, i: int)
    requires
        env.wf(),
        env.is_live(i),
    ensures
        node(env.arena@, i).spec_degree() <= 3,
        node(env.arena@, i).spec_degree() >= 1 || forall|j: int| env.is_live(j) ==> j == i,
{
    if node(env.arena@, i).spec_degree() == 0 {
        assert forall|j: int| env.is_live(j) implies j == i by {
            if j != i {
                assert(live(env.arena@, i) && live(env.arena@, j));
            }
        }
    }
}

/// Links go both ways in a well-formed chain: whatever a triangle is linked
/// to holds a triangle that is linked to it, and is another slot.
pub proof fn lemma_links_are_mutual<G: Copy>(env: Env<G>, i: int, j: usize)
    requires
        env.wf(),
        env.is_live(i),
        node(env.arena@, i).is_linked_to(j),
    ensures
        j != i,
        env.is_live(j as int),
        node(env.arena@, j as int).is_linked_to(i as usize),
{
    assert(links_ok(env.arena@, i));
}

/// What the driver's spatial index is to hold for a chain are the chain's own
/// slots that hold a triangle, no more and no fewer, and as many entries as
/// there are triangles. This says nothing of the index itself, which the
/// library never sees: it is in step with the arena as long as the driver
/// enters the slot that `place_triangle` returns and takes out the leaf of
/// each triangle that `generate` or `clear` hands back.
pub proof fn lemma_index_matches_arena<G: Copy>(env: Env<G>)
    requires
        env.arena@.len() <= usize::MAX,
    ensures
        forall|chain_ix: usize, slot: usize|
            #[trigger] env.payloads().contains((chain_ix, slot)) <==> chain_ix == env.chain_ix
                && env.is_live(slot as int),
        env.payloads().finite(),
        env.payloads().len() == occupancy(env.arena@),
{
    lemma_payloads_count(env.chain_ix, env.arena@);
}

/// What the spatial index is to hold for two chains with different numbers
/// has no entry in common.
pub proof fn lemma_chains_share_no_entry<G: Copy>(a: Env<G>, b: Env<G>)
    requires
        a.chain_ix != b.chain_ix,
    ensures
        a.payloads().disjoint(b.payloads()),
{
}

/// A well-formed chain can always take a triangle at the end of its arena,
/// unless the arena is full or the anchor has two children already.
pub proof fn lemma_appending_needs_room<G: Copy>(env: Env<G>)
    requires
        env.wf(),
    ensures
        env.place_error(false) matches Some(e) ==> e == PlaceError::ArenaFull || e
            == PlaceError::AnchorFull,
{
}

} // verus!
