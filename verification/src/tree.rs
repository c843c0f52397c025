//! A chain is one tree: it never falls apart, and it never runs out of
//! triangles that can leave.

use crate::graph::{attach, detach, graph_ok, links_ok, live, node, occupancy, safe_to_evict};
use crate::node::TriangleHandle;
use vstd::prelude::*;

verus! {

/// The record in slot `i` is a root: it grew from nothing.
pub open spec fn is_root<G>(slots: Seq<Option<TriangleHandle<G>>>, i: int) -> bool {
    live(slots, i) && node(slots, i).prev_node is None
}

/// `rank` puts every record above the record it grew from.
pub open spec fn ranked<G>(
    slots: Seq<Option<TriangleHandle<G>>>,
    rank: spec_fn(int) -> nat,
) -> bool {
    forall|i: int|
        #[trigger] live(slots, i) && node(slots, i).prev_node is Some ==> rank(
            node(slots, i).prev_node->0 as int,
        ) < rank(i)
}

/// The records form one tree: following the parent links never leads round
/// in a circle, and there is no second record at which it could end.
pub open spec fn tree_ok<G>(slots: Seq<Option<TriangleHandle<G>>>) -> bool {
    &&& exists|rank: spec_fn(int) -> nat| ranked(slots, rank)
    &&& forall|i: int, j: int|
        #[trigger] is_root(slots, i) && #[trigger] is_root(slots, j) ==> i == j
}

/// An arena without records is a tree.
pub proof fn lemma_empty_is_tree<G>(slots: Seq<Option<TriangleHandle<G>>>)
    requires
        forall|i: int| !live(slots, i),
    ensures
        tree_ok(slots),
{
    let rank = |i: int| 0nat;
    assert(ranked(slots, rank));
}

/// Placing a record under a parent, or as the first record of all, keeps the
/// arena one tree.
pub proof fn lemma_attach_tree<G>(
    slots: Seq<Option<TriangleHandle<G>>>,
    ix: int,
    record: TriangleHandle<G>,
)
    requires
        graph_ok(slots),
        tree_ok(slots),
        0 <= ix <= slots.len(),
        !live(slots, ix),
        record.next_node_1 is None,
        record.next_node_2 is None,
        match record.prev_node {
            Some(p) => live(slots, p as int) && node(slots, p as int).has_free_child(),
            None => forall|i: int| !live(slots, i),
        },
    ensures
        tree_ok(attach(slots, ix, record)),
{
    let after = attach(slots, ix, record);
    let rank = choose|rank: spec_fn(int) -> nat| ranked(slots, rank);
    let above: nat = match record.prev_node {
        Some(p) => rank(p as int) + 1,
        None => 0,
    };
    let raised = |i: int|
        if i == ix {
            above
        } else {
            rank(i)
        };
    assert forall|i: int| #[trigger]
        live(after, i) && node(after, i).prev_node is Some implies raised(
        node(after, i).prev_node->0 as int,
    ) < raised(i) by {
        if i != ix {
            assert(live(slots, i));
            assert(links_ok(slots, i));
        }
    }
    assert(ranked(after, raised));
    assert forall|i: int, j: int| #[trigger]
        is_root(after, i) && #[trigger] is_root(after, j) implies i == j by {
        if i != ix {
            assert(is_root(slots, i));
        }
        if j != ix {
            assert(is_root(slots, j));
        }
    }
}

/// Taking out a record that is safe to evict keeps the arena one tree.
pub proof fn lemma_detach_tree<G>(slots: Seq<Option<TriangleHandle<G>>>, o: int)
    requires
        graph_ok(slots),
        tree_ok(slots),
        safe_to_evict(slots, o),
        slots.len() <= usize::MAX,
    ensures
        tree_ok(detach(slots, o)),
{
    let after = detach(slots, o);
    let rank = choose|rank: spec_fn(int) -> nat| ranked(slots, rank);
    assert(links_ok(slots, o));
    assert forall|i: int| #[trigger]
        live(after, i) && node(after, i).prev_node is Some implies rank(
        node(after, i).prev_node->0 as int,
    ) < rank(i) by {
        assert(live(slots, i));
    }
    assert(ranked(after, rank));
    assert forall|i: int, j: int| #[trigger]
        is_root(after, i) && #[trigger] is_root(after, j) implies i == j by {
        assert(live(slots, i) && live(slots, j));
        assert(links_ok(slots, i));
        assert(links_ok(slots, j));
        // a record that became a root grew from the record that left, which
        // had no other link and so was the root before
        if node(slots, i).prev_node is Some {
            assert(node(slots, i).prev_node == Some(o as usize));
            assert(node(slots, o).lists_child(i as usize));
            assert(is_root(slots, o));
        }
        if node(slots, j).prev_node is Some {
            assert(node(slots, j).prev_node == Some(o as usize));
            assert(node(slots, o).lists_child(j as usize));
            assert(is_root(slots, o));
        }
        if node(slots, i).prev_node is None {
            assert(is_root(slots, i));
        }
        if node(slots, j).prev_node is None {
            assert(is_root(slots, j));
        }
    }
}

/// Among the records of the first `n` slots, leaving two slots aside, one
/// has the highest rank.
proof fn lemma_highest<G>(
    slots: Seq<Option<TriangleHandle<G>>>,
    rank: spec_fn(int) -> nat,
    aside_1: int,
    aside_2: int,
    n: int,
) -> (m: int)
    requires
        0 <= n <= slots.len(),
        exists|k: int| 0 <= k < n && live(slots, k) && k != aside_1 && k != aside_2,
    ensures
        0 <= m < n,
        live(slots, m),
        m != aside_1,
        m != aside_2,
        forall|k: int|
            0 <= k < n && live(slots, k) && k != aside_1 && k != aside_2 ==> rank(k) <= rank(m),
    decreases n,
{
    let last = n - 1;
    if exists|k: int| 0 <= k < last && live(slots, k) && k != aside_1 && k != aside_2 {
        let m = lemma_highest(slots, rank, aside_1, aside_2, last);
        if live(slots, last) && last != aside_1 && last != aside_2 && rank(last) > rank(m) {
            last
        } else {
            m
        }
    } else {
        last
    }
}

/// Slots that hold a record, as many as asked for, in rising order.
pub proof fn lemma_occupied_slots<G>(slots: Seq<Option<TriangleHandle<G>>>, k: nat) -> (found: Seq<
    int,
>)
    requires
        occupancy(slots) >= k,
    ensures
        found.len() == k,
        forall|i: int| 0 <= i < k ==> live(slots, #[trigger] found[i]),
        forall|i: int, j: int| 0 <= i < j < k ==> found[i] < found[j],
    decreases slots.len(),
{
    if k == 0 {
        Seq::empty()
    } else {
        let shorter = slots.drop_last();
        assert forall|i: int| live(shorter, i) implies live(slots, i) by {}
        if slots.last() is Some {
            let found = lemma_occupied_slots(shorter, (k - 1) as nat);
            found.push(slots.len() - 1)
        } else {
            lemma_occupied_slots(shorter, k)
        }
    }
}

/// A chain of three or more triangles always has one that can leave: a
/// triangle with a single link whose neighbour has another.
pub proof fn lemma_some_triangle_can_leave<G>(slots: Seq<Option<TriangleHandle<G>>>)
    requires
        graph_ok(slots),
        tree_ok(slots),
        occupancy(slots) >= 3,
        slots.len() <= usize::MAX,
    ensures
        exists|o: int| safe_to_evict(slots, o),
{
    let three = lemma_occupied_slots(slots, 3);
    let (a, b, c) = (three[0], three[1], three[2]);
    assert(live(slots, a) && live(slots, b) && live(slots, c));
    let rank = choose|rank: spec_fn(int) -> nat| ranked(slots, rank);
    let len = slots.len() as int;
    let m = lemma_highest(slots, rank, -1, -1, len);
    assert(links_ok(slots, m));
    let top = node(slots, m);
    // nothing grew from the highest record
    if top.next_node_1 is Some {
        let child = top.next_node_1->0 as int;
        assert(live(slots, child) && node(slots, child).prev_node->0 as int == m);
        assert(rank(m) < rank(child));
    }
    if top.next_node_2 is Some {
        let child = top.next_node_2->0 as int;
        assert(live(slots, child) && node(slots, child).prev_node->0 as int == m);
        assert(rank(m) < rank(child));
    }
    assert(top.next_node_1 is None && top.next_node_2 is None);
    // it is not alone, so it grew from something
    assert(live(slots, m) && live(slots, if m == a {
        b
    } else {
        a
    }));
    assert(top.prev_node is Some);
    let p = top.prev_node->0 as int;
    assert(links_ok(slots, p));
    if node(slots, p).spec_degree() != 1 {
        assert(safe_to_evict(slots, m));
    } else {
        // the parent has no link but this one: it is the root
        assert(is_root(slots, p));
        let spare = if a != m && a != p {
            a
        } else if b != m && b != p {
            b
        } else {
            c
        };
        assert(live(slots, spare) && spare != m && spare != p);
        let x = lemma_highest(slots, rank, m, p, len);
        assert(links_ok(slots, x));
        let other = node(slots, x);
        if other.next_node_1 is Some {
            let child = other.next_node_1->0 as int;
            assert(live(slots, child) && node(slots, child).prev_node->0 as int == x);
            assert(rank(x) < rank(child));
        }
        if other.next_node_2 is Some {
            let child = other.next_node_2->0 as int;
            assert(live(slots, child) && node(slots, child).prev_node->0 as int == x);
            assert(rank(x) < rank(child));
        }
        assert(other.next_node_1 is None && other.next_node_2 is None);
        if other.prev_node is None {
            assert(is_root(slots, x));
        }
        let q = other.prev_node->0 as int;
        assert(links_ok(slots, q));
        if node(slots, q).spec_degree() == 1 {
            assert(is_root(slots, q));
        }
        assert(safe_to_evict(slots, x));
    }
}

} // verus!
