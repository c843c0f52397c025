//! One record of the arena: a placed triangle and its links.

use ncollide2d::partitioning::DBVTLeafId;
use vstd::prelude::*;

verus! {

/// `ncollide2d::partitioning::DBVTLeafId`, the identifier that the
/// bounding-volume tree gives to a leaf. Nothing is assumed of it: the chain
/// stores the identifier with the triangle and hands it back when the
/// triangle leaves.
#[verifier::external_type_specification]
#[verifier::external_body]
pub struct ExDBVTLeafId(ncollide2d::partitioning::DBVTLeafId);

/// A placed triangle.
///
/// `geometry` is the driver's and `collider_handle` names the triangle's
/// leaf in the driver's bounding-volume tree; the chain only stores them.
/// `dom_id` is what the renderer returned for the triangle. The three links
/// are slot indices into the arena of the chain that owns the record: the
/// triangle this one grew from, and up to two triangles that grew from it.
#[derive(Debug)]
pub struct TriangleHandle<G> {
    pub geometry: G,
    pub collider_handle: DBVTLeafId,
    pub dom_id: usize,
    pub prev_node: Option<usize>,
    pub next_node_1: Option<usize>,
    pub next_node_2: Option<usize>,
}

/// Whether a link names `slot`.
pub fn names_slot(link: Option<usize>, slot: usize) -> (named: bool)
    ensures
        named == (link == Some(slot)),
{
    match link {
        Some(s) => s == slot,
        None => false,
    }
}

impl<G> TriangleHandle<G> {
    /// The number of links that are set.
    pub open spec fn spec_degree(&self) -> nat {
        let a: nat = if self.prev_node is Some { 1 } else { 0 };
        let b: nat = if self.next_node_1 is Some { 1 } else { 0 };
        let c: nat = if self.next_node_2 is Some { 1 } else { 0 };
        a + b + c
    }

    /// Whether `slot` is one of the two children.
    pub open spec fn lists_child(&self, slot: usize) -> bool {
        self.next_node_1 == Some(slot) || self.next_node_2 == Some(slot)
    }

    /// Whether `slot` is the parent or one of the children.
    pub open spec fn is_linked_to(&self, slot: usize) -> bool {
        self.prev_node == Some(slot) || self.lists_child(slot)
    }

    /// Whether a further child can be attached.
    pub open spec fn has_free_child(&self) -> bool {
        self.next_node_1 is None || self.next_node_2 is None
    }

    /// This record with `slot` attached as a child: the first child link takes
    /// it when empty, otherwise the second.
    pub open spec fn with_child(self, slot: usize) -> Self {
        if self.next_node_1 is None {
            TriangleHandle { next_node_1: Some(slot), ..self }
        } else {
            TriangleHandle { next_node_2: Some(slot), ..self }
        }
    }

    /// This record with every link to `slot` cleared.
    pub open spec fn without_link(self, slot: usize) -> Self {
        TriangleHandle {
            prev_node: if self.prev_node == Some(slot) { None } else { self.prev_node },
            next_node_1: if self.next_node_1 == Some(slot) { None } else { self.next_node_1 },
            next_node_2: if self.next_node_2 == Some(slot) { None } else { self.next_node_2 },
            ..self
        }
    }

    /// Counts the links that are set: the parent and the two children.
    pub fn degree(&self) -> (degree: usize)
        ensures
            degree == self.spec_degree(),
            degree <= 3,
    {
        let mut degree: usize = 0;
        if self.prev_node.is_some() {
            degree += 1;
        }
        if self.next_node_1.is_some() {
            degree += 1;
        }
        if self.next_node_2.is_some() {
            degree += 1;
        }
        degree
    }
}

} // verus!
