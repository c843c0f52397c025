//! Populating a chain.

use crate::env::Env;
use crate::graph::records;
use crate::node::TriangleHandle;
use vstd::prelude::*;

verus! {

/// Whether `after` is `before` with its arena emptied.
pub open spec fn is_cleared<G: Copy>(before: Env<G>, after: Env<G>) -> bool {
    &&& after.arena@.len() == 0
    &&& after.last_triangle_ix is None
    &&& after.last_triangle == before.last_triangle
    &&& after.oldest_triangle_ix == before.oldest_triangle_ix
    &&& after.conf == before.conf
    &&& after.chain_ix == before.chain_ix
}

/// What the driver has to do to populate a chain.
#[derive(Debug)]
pub struct Populate<G> {
    /// The triangles that the chain held and has let go. The driver erases
    /// each from the display and takes its entry out of the spatial index
    /// before it does anything else.
    pub removed: Vec<TriangleHandle<G>>,
    /// The number of growth steps to run.
    pub steps: usize,
}

/// Prepares chain `chain_ix` for being populated: the chain starts afresh,
/// and it takes as many growth steps as it is configured to hold triangles.
///
/// Only the chain that is populated changes. Its arena is emptied and what
/// was in it is handed to the driver; every other chain, and with it what
/// the spatial index holds for that chain, stays as it is.
pub fn render<G: Copy>(envs: &mut Vec<Env<G>>, chain_ix: usize) -> (plan: Populate<G>)
    requires
        chain_ix < old(envs)@.len(),
        forall|i: int| 0 <= i < old(envs)@.len() ==> (#[trigger] old(envs)@[i]).wf(),
    ensures
        final(envs)@.len() == old(envs)@.len(),
        forall|i: int| 0 <= i < final(envs)@.len() ==> (#[trigger] final(envs)@[i]).wf(),
        forall|i: int|
            0 <= i < final(envs)@.len() && i != chain_ix
                ==> #[trigger] final(envs)@[i] == old(envs)@[i],
        is_cleared(old(envs)@[chain_ix as int], final(envs)@[chain_ix as int]),
        plan.removed@ == records(old(envs)@[chain_ix as int].arena@),
        plan.steps == old(envs)@[chain_ix as int].conf.triangle_count,
{
    let removed = envs[chain_ix].clear();
    Populate { removed, steps: envs[chain_ix].conf.triangle_count }
}

} // verus!
