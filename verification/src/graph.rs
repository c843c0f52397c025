//! The link structure of an arena, as predicates over its slots.
//!
//! An arena is a sequence of slots; a slot is vacant or holds a record. The
//! records form a graph through their parent and child links. Everything here
//! is specification and proof: the executable operations live with the chain.

use crate::node::TriangleHandle;
use vstd::prelude::*;

verus! {

/// Whether slot `i` exists and holds a record.
pub open spec fn live<G>(slots: Seq<Option<TriangleHandle<G>>>, i: int) -> bool {
    0 <= i < slots.len() && slots[i] is Some
}

/// The record in slot `i`.
pub open spec fn node<G>(slots: Seq<Option<TriangleHandle<G>>>, i: int) -> TriangleHandle<G> {
    slots[i]->0
}

/// The links of the record in slot `i` are sound: each leads to another slot
/// that holds a record, that record links back, and no slot is named twice.
pub open spec fn links_ok<G>(slots: Seq<Option<TriangleHandle<G>>>, i: int) -> bool {
    let n = node(slots, i);
    &&& n.prev_node matches Some(p) ==> p != i && live(slots, p as int) && node(
        slots,
        p as int,
    ).lists_child(i as usize)
    &&& n.next_node_1 matches Some(c) ==> c != i && live(slots, c as int) && node(
        slots,
        c as int,
    ).prev_node == Some(i as usize)
    &&& n.next_node_2 matches Some(c) ==> c != i && live(slots, c as int) && node(
        slots,
        c as int,
    ).prev_node == Some(i as usize)
    &&& n.next_node_1 is Some ==> n.next_node_1 != n.next_node_2
    &&& n.prev_node is Some ==> n.prev_node != n.next_node_1 && n.prev_node != n.next_node_2
}

/// The arena's graph is sound: every record's links are, and a record
/// without any link is the only record there is.
pub open spec fn graph_ok<G>(slots: Seq<Option<TriangleHandle<G>>>) -> bool {
    &&& forall|i: int| #[trigger] live(slots, i) ==> links_ok(slots, i)
    &&& forall|i: int, j: int|
        #[trigger] live(slots, i) && #[trigger] live(slots, j) && i != j ==> node(
            slots,
            i,
        ).spec_degree() >= 1
}

/// The record in slot `o` can leave without stranding anyone: it has exactly
/// one link, and the record at the other end of that link has more than one.
pub open spec fn safe_to_evict<G>(slots: Seq<Option<TriangleHandle<G>>>, o: int) -> bool {
    let n = node(slots, o);
    &&& live(slots, o)
    &&& n.spec_degree() == 1
    &&& n.prev_node matches Some(p) ==> node(slots, p as int).spec_degree() != 1
    &&& n.next_node_1 matches Some(c) ==> node(slots, c as int).spec_degree() != 1
    &&& n.next_node_2 matches Some(c) ==> node(slots, c as int).spec_degree() != 1
}

/// The arena after `record` went into slot `ix` (a new slot when `ix` is the
/// arena's length) and was listed as a child of its parent.
pub open spec fn attach<G>(
    slots: Seq<Option<TriangleHandle<G>>>,
    ix: int,
    record: TriangleHandle<G>,
) -> Seq<Option<TriangleHandle<G>>> {
    let placed = if ix == slots.len() {
        slots.push(Some(record))
    } else {
        slots.update(ix, Some(record))
    };
    match record.prev_node {
        Some(p) => placed.update(p as int, Some(node(slots, p as int).with_child(ix as usize))),
        None => placed,
    }
}

/// The arena after slot `o` was vacated and every link to it cleared.
pub open spec fn detach<G>(slots: Seq<Option<TriangleHandle<G>>>, o: int) -> Seq<
    Option<TriangleHandle<G>>,
> {
    Seq::new(
        slots.len(),
        |i: int|
            if i == o {
                None
            } else {
                match slots[i] {
                    Some(n) => Some(n.without_link(o as usize)),
                    None => None,
                }
            },
    )
}

/// The records that an arena holds, in the order of their slots.
pub open spec fn records<G>(slots: Seq<Option<TriangleHandle<G>>>) -> Seq<TriangleHandle<G>>
    decreases slots.len(),
{
    if slots.len() == 0 {
        Seq::empty()
    } else {
        let before = records(slots.drop_last());
        match slots.last() {
            Some(record) => before.push(record),
            None => before,
        }
    }
}

/// The entries that the driver's spatial index is to hold for a chain: one
/// for each slot that holds a record, tagged with the chain.
///
/// This is defined from the arena, not read off the index, which the library
/// never sees. It says what the index has to hold for the two to be in
/// step; the contracts of the operations say which entry the driver has to
/// add or to take out to keep them so.
pub open spec fn payloads<G>(chain_ix: usize, slots: Seq<Option<TriangleHandle<G>>>) -> Set<
    (usize, usize),
> {
    Set::new(|p: (usize, usize)| p.0 == chain_ix && live(slots, p.1 as int))
}

/// The number of slots that hold a record.
pub open spec fn occupancy<G>(slots: Seq<Option<TriangleHandle<G>>>) -> nat
    decreases slots.len(),
{
    if slots.len() == 0 {
        0
    } else {
        occupancy(slots.drop_last()) + if slots.last() is Some {
            1nat
        } else {
            0nat
        }
    }
}

/// Placing a childless record into a vacant or new slot, under a parent that
/// can take a child (or as the first record of all), keeps the graph sound
/// and makes exactly that slot hold a record.
pub proof fn lemma_attach<G>(
    slots: Seq<Option<TriangleHandle<G>>>,
    ix: int,
    record: TriangleHandle<G>,
)
    requires
        graph_ok(slots),
        0 <= ix <= slots.len(),
        ix <= usize::MAX,
        !live(slots, ix),
        record.next_node_1 is None,
        record.next_node_2 is None,
        match record.prev_node {
            Some(p) => live(slots, p as int) && node(slots, p as int).has_free_child(),
            None => forall|i: int| !live(slots, i),
        },
    ensures
        graph_ok(attach(slots, ix, record)),
        forall|i: int| live(attach(slots, ix, record), i) <==> (live(slots, i) || i == ix),
        node(attach(slots, ix, record), ix) == record,
        forall|chain_ix: usize|
            payloads(chain_ix, attach(slots, ix, record)) == #[trigger] payloads(
                chain_ix,
                slots,
            ).insert((chain_ix, ix as usize)),
{
    let after = attach(slots, ix, record);
    assert forall|i: int| live(after, i) <==> (live(slots, i) || i == ix) by {}
    assert forall|i: int| #[trigger] live(after, i) implies links_ok(after, i) by {
        if i != ix {
            assert(live(slots, i));
            assert(links_ok(slots, i));
        }
    }
    assert forall|i: int, j: int|
        #[trigger] live(after, i) && #[trigger] live(after, j) && i != j implies node(
        after,
        i,
    ).spec_degree() >= 1 by {
        if i != ix {
            assert(live(slots, i));
            if j != ix {
                assert(live(slots, j));
            }
        }
    }
    assert forall|chain_ix: usize|
        payloads(chain_ix, after) == #[trigger] payloads(chain_ix, slots).insert(
            (chain_ix, ix as usize),
        ) by {
        assert(payloads(chain_ix, after) =~= payloads(chain_ix, slots).insert(
            (chain_ix, ix as usize),
        ));
    }
}

/// Vacating a slot whose record is safe to evict keeps the graph sound,
/// leaves every other record in place with at least one link, and changes only
/// the record at the other end of the evicted record's one link.
pub proof fn lemma_detach<G>(slots: Seq<Option<TriangleHandle<G>>>, o: int)
    requires
        graph_ok(slots),
        safe_to_evict(slots, o),
        slots.len() <= usize::MAX,
    ensures
        graph_ok(detach(slots, o)),
        forall|i: int| live(detach(slots, o), i) <==> (live(slots, i) && i != o),
        forall|i: int| #[trigger]
            live(detach(slots, o), i) ==> node(detach(slots, o), i).spec_degree() >= 1,
        forall|i: int|
            live(slots, i) && i != o && !node(slots, o).is_linked_to(i as usize)
                ==> #[trigger] detach(slots, o)[i] == slots[i],
        forall|chain_ix: usize|
            payloads(chain_ix, detach(slots, o)) == #[trigger] payloads(chain_ix, slots).remove(
                (chain_ix, o as usize),
            ),
{
    let after = detach(slots, o);
    let gone = node(slots, o);
    assert(links_ok(slots, o));
    assert forall|i: int| live(after, i) <==> (live(slots, i) && i != o) by {}
    assert forall|i: int|
        live(slots, i) && i != o && !gone.is_linked_to(i as usize) implies #[trigger] after[i]
        == slots[i] by {
        assert(links_ok(slots, i));
    }
    assert forall|i: int| #[trigger] live(after, i) implies links_ok(after, i) && node(
        after,
        i,
    ).spec_degree() >= 1 by {
        assert(live(slots, i));
        assert(links_ok(slots, i));
        let n = node(slots, i);
        if n.prev_node is Some {
            assert(links_ok(slots, n.prev_node->0 as int));
        }
        if n.next_node_1 is Some {
            assert(links_ok(slots, n.next_node_1->0 as int));
        }
        if n.next_node_2 is Some {
            assert(links_ok(slots, n.next_node_2->0 as int));
        }
    }
    assert forall|chain_ix: usize|
        payloads(chain_ix, after) == #[trigger] payloads(chain_ix, slots).remove(
            (chain_ix, o as usize),
        ) by {
        assert(payloads(chain_ix, after) =~= payloads(chain_ix, slots).remove(
            (chain_ix, o as usize),
        ));
    }
}

/// The entries of an arena are finite in number, one for each slot that
/// holds a record.
pub proof fn lemma_payloads_count<G>(chain_ix: usize, slots: Seq<Option<TriangleHandle<G>>>)
    requires
        slots.len() <= usize::MAX,
    ensures
        payloads(chain_ix, slots).finite(),
        payloads(chain_ix, slots).len() == occupancy(slots),
    decreases slots.len(),
{
    if slots.len() == 0 {
        assert(payloads(chain_ix, slots) =~= Set::<(usize, usize)>::empty());
    } else {
        let shorter = slots.drop_last();
        let last = (slots.len() - 1) as usize;
        lemma_payloads_count(chain_ix, shorter);
        if slots.last() is Some {
            assert(payloads(chain_ix, slots) =~= payloads(chain_ix, shorter).insert(
                (chain_ix, last),
            ));
        } else {
            assert(payloads(chain_ix, slots) =~= payloads(chain_ix, shorter));
        }
    }
}

/// Placing a record makes the arena hold one more.
pub proof fn lemma_attach_occupancy<G>(
    slots: Seq<Option<TriangleHandle<G>>>,
    ix: int,
    record: TriangleHandle<G>,
)
    requires
        0 <= ix <= slots.len(),
        ix < usize::MAX,
        slots.len() <= usize::MAX,
        !live(slots, ix),
        record.prev_node matches Some(p) ==> live(slots, p as int),
    ensures
        occupancy(attach(slots, ix, record)) == occupancy(slots) + 1,
{
    let after = attach(slots, ix, record);
    lemma_payloads_count(0, slots);
    lemma_payloads_count(0, after);
    assert(payloads(0, after) =~= payloads(0, slots).insert((0, ix as usize)));
}

/// Taking a record out makes the arena hold one fewer.
pub proof fn lemma_detach_occupancy<G>(slots: Seq<Option<TriangleHandle<G>>>, o: int)
    requires
        live(slots, o),
        slots.len() <= usize::MAX,
    ensures
        occupancy(detach(slots, o)) + 1 == occupancy(slots),
{
    let after = detach(slots, o);
    lemma_payloads_count(0, slots);
    lemma_payloads_count(0, after);
    assert(payloads(0, after) =~= payloads(0, slots).remove((0, o as usize)));
}

/// The records of an arena are as many as its occupied slots, and they are
/// the records of those slots, no more and no fewer.
pub proof fn lemma_records<G>(slots: Seq<Option<TriangleHandle<G>>>)
    ensures
        records(slots).len() == occupancy(slots),
        forall|k: int|
            0 <= k < records(slots).len() ==> exists|i: int|
                live(slots, i) && node(slots, i) == #[trigger] records(slots)[k],
        forall|i: int| #[trigger]
            live(slots, i) ==> exists|k: int|
                0 <= k < records(slots).len() && records(slots)[k] == node(slots, i),
    decreases slots.len(),
{
    if slots.len() > 0 {
        let shorter = slots.drop_last();
        let last = slots.len() - 1;
        lemma_records(shorter);
        assert forall|k: int| 0 <= k < records(slots).len() implies exists|i: int|
            live(slots, i) && node(slots, i) == #[trigger] records(slots)[k] by {
            if k < records(shorter).len() {
                let i = choose|i: int| live(shorter, i) && node(shorter, i) == records(shorter)[k];
                assert(live(slots, i) && node(slots, i) == records(slots)[k]);
            } else {
                assert(live(slots, last) && node(slots, last) == records(slots)[k]);
            }
        }
        assert forall|i: int| #[trigger] live(slots, i) implies exists|k: int|
            0 <= k < records(slots).len() && records(slots)[k] == node(slots, i) by {
            if i < last {
                assert(live(shorter, i));
                let k = choose|k: int|
                    0 <= k < records(shorter).len() && records(shorter)[k] == node(shorter, i);
                assert(records(slots)[k] == node(slots, i));
            } else {
                let k = records(shorter).len() as int;
                assert(records(slots)[k] == node(slots, i));
            }
        }
    }
}

} // verus!
