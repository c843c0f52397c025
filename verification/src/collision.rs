//! What is decided about a candidate triangle from tests on coordinates.
//!
//! Whether two triangles intersect comes down to one question that needs
//! coordinates: on which side of a line a point lies. The driver answers
//! it, with whatever arithmetic it has; what follows from the answers is
//! decided here, and so is what a collision query does at a node of the
//! bounding-volume tree and whether a candidate is accepted.

use vstd::prelude::*;

verus! {

/// Whether two segments cross, given for each end point of the one on which
/// side of the other it lies (`a1_side` and `a2_side` for the ends of the
/// first, `b1_side` and `b2_side` for the ends of the second): they cross
/// when each segment parts the end points of the other.
pub open spec fn segments_cross(
    a1_side: bool,
    a2_side: bool,
    b1_side: bool,
    b2_side: bool,
) -> bool {
    a1_side != a2_side && b1_side != b2_side
}

/// Whether the segment from `a1` to `a2` crosses the one from `b1` to `b2`
/// under the orientation test `ccw`.
pub open spec fn segments_intersect<P>(
    ccw: spec_fn(P, P, P) -> bool,
    a1: P,
    a2: P,
    b1: P,
    b2: P,
) -> bool {
    segments_cross(ccw(a1, b1, b2), ccw(a2, b1, b2), ccw(a1, a2, b1), ccw(a1, a2, b2))
}

/// The corner that follows corner `i` round a triangle.
pub open spec fn next_corner(i: int) -> int {
    if i == 2 {
        0
    } else {
        i + 1
    }
}

/// A corner of one of the two triangles under test, by its place among the
/// three corners of its triangle.
#[derive(Clone, Copy, Debug, PartialEq, Eq, Structural)]
pub enum Corner {
    First(usize),
    Second(usize),
}

impl Corner {
    /// Whether this is one of the three corners of its triangle.
    pub open spec fn in_triangle(self) -> bool {
        match self {
            Corner::First(i) => i < 3,
            Corner::Second(i) => i < 3,
        }
    }
}

/// The orientation tests between two triangles.
///
/// Edge `e` of a triangle runs from its corner `e` to the corner after it.
/// `first_to_second[v][e]` says whether corner `v` of the first triangle and
/// then edge `e` of the second make a counter-clockwise turn (or none at
/// all). `second_to_first[e][w]` says the same of edge `e` of the first
/// triangle and then corner `w` of the second.
#[derive(Clone, Copy, Debug)]
pub struct Sides {
    pub first_to_second: [[bool; 3]; 3],
    pub second_to_first: [[bool; 3]; 3],
}

/// The three points of the test behind `first_to_second[v][e]`.
pub open spec fn corner_then_edge(v: int, e: int) -> (Corner, Corner, Corner) {
    (
        Corner::First(v as usize),
        Corner::Second(e as usize),
        Corner::Second(next_corner(e) as usize),
    )
}

/// The three points of the test behind `second_to_first[e][w]`.
pub open spec fn edge_then_corner(e: int, w: int) -> (Corner, Corner, Corner) {
    (
        Corner::First(e as usize),
        Corner::First(next_corner(e) as usize),
        Corner::Second(w as usize),
    )
}

impl Sides {
    /// Whether every entry is an answer of `ccw` to the test that the entry
    /// stands for.
    pub open spec fn answers<F: Fn(Corner, Corner, Corner) -> bool>(&self, ccw: F) -> bool {
        &&& forall|v: int, e: int|
            #![trigger self.first_to_second@[v]@[e]]
            0 <= v < 3 && 0 <= e < 3 ==> call_ensures(
                ccw,
                corner_then_edge(v, e),
                self.first_to_second@[v]@[e],
            )
        &&& forall|e: int, w: int|
            #![trigger self.second_to_first@[e]@[w]]
            0 <= e < 3 && 0 <= w < 3 ==> call_ensures(
                ccw,
                edge_then_corner(e, w),
                self.second_to_first@[e]@[w],
            )
    }

    /// Puts to `ccw` the eighteen orientation tests between two triangles.
    ///
    /// `ccw` is asked whether three corners, in the order given, make a
    /// counter-clockwise turn or none at all. It is only ever asked about
    /// corners that exist.
    pub fn from_tests<F: Fn(Corner, Corner, Corner) -> bool>(ccw: F) -> (sides: Sides)
        requires
            forall|p: Corner, q: Corner, r: Corner|
                p.in_triangle() && q.in_triangle() && r.in_triangle() ==> call_requires(
                    ccw,
                    (p, q, r),
                ),
        ensures
            sides.answers(ccw),
    {
        let first_to_second = [
            [
                ccw(Corner::First(0), Corner::Second(0), Corner::Second(1)),
                ccw(Corner::First(0), Corner::Second(1), Corner::Second(2)),
                ccw(Corner::First(0), Corner::Second(2), Corner::Second(0)),
            ],
            [
                ccw(Corner::First(1), Corner::Second(0), Corner::Second(1)),
                ccw(Corner::First(1), Corner::Second(1), Corner::Second(2)),
                ccw(Corner::First(1), Corner::Second(2), Corner::Second(0)),
            ],
            [
                ccw(Corner::First(2), Corner::Second(0), Corner::Second(1)),
                ccw(Corner::First(2), Corner::Second(1), Corner::Second(2)),
                ccw(Corner::First(2), Corner::Second(2), Corner::Second(0)),
            ],
        ];
        let second_to_first = [
            [
                ccw(Corner::First(0), Corner::First(1), Corner::Second(0)),
                ccw(Corner::First(0), Corner::First(1), Corner::Second(1)),
                ccw(Corner::First(0), Corner::First(1), Corner::Second(2)),
            ],
            [
                ccw(Corner::First(1), Corner::First(2), Corner::Second(0)),
                ccw(Corner::First(1), Corner::First(2), Corner::Second(1)),
                ccw(Corner::First(1), Corner::First(2), Corner::Second(2)),
            ],
            [
                ccw(Corner::First(2), Corner::First(0), Corner::Second(0)),
                ccw(Corner::First(2), Corner::First(0), Corner::Second(1)),
                ccw(Corner::First(2), Corner::First(0), Corner::Second(2)),
            ],
        ];
        Sides { first_to_second, second_to_first }
    }

    /// Whether edge `i` of the first triangle crosses edge `j` of the second.
    pub open spec fn edges_cross(&self, i: int, j: int) -> bool {
        segments_cross(
            self.first_to_second@[i]@[j],
            self.first_to_second@[next_corner(i)]@[j],
            self.second_to_first@[i]@[j],
            self.second_to_first@[i]@[next_corner(j)],
        )
    }

    /// Whether any edge of the first triangle crosses any edge of the second.
    pub open spec fn any_edges_cross(&self) -> bool {
        exists|i: int, j: int| 0 <= i < 3 && 0 <= j < 3 && #[trigger] self.edges_cross(i, j)
    }
}

/// Decides whether two segments cross from the four orientation tests
/// between them.
pub fn check_line_seg_intersection(
    a1_side: bool,
    a2_side: bool,
    b1_side: bool,
    b2_side: bool,
) -> (crossing: bool)
    ensures
        crossing == segments_cross(a1_side, a2_side, b1_side, b2_side),
{
    a1_side != a2_side && b1_side != b2_side
}

/// Decides whether two triangles intersect: they do when a side of the one
/// crosses a side of the other. A triangle that lies wholly inside another
/// crosses none of its sides and is not found.
pub fn check_triangle_collision(sides: &Sides) -> (hit: bool)
    ensures
        hit == sides.any_edges_cross(),
{
    let mut i: usize = 0;
    while i < 3
        invariant
            i <= 3,
            forall|a: int, b: int|
                0 <= a < i && 0 <= b < 3 ==> !#[trigger] sides.edges_cross(a, b),
        decreases 3 - i,
    {
        let i_next: usize = if i == 2 {
            0
        } else {
            i + 1
        };
        let mut j: usize = 0;
        while j < 3
            invariant
                i < 3,
                j <= 3,
                i_next == next_corner(i as int),
                forall|a: int, b: int|
                    0 <= a < i && 0 <= b < 3 ==> !#[trigger] sides.edges_cross(a, b),
                forall|b: int| 0 <= b < j ==> !#[trigger] sides.edges_cross(i as int, b),
            decreases 3 - j,
        {
            let j_next: usize = if j == 2 {
                0
            } else {
                j + 1
            };
            if check_line_seg_intersection(
                sides.first_to_second[i][j],
                sides.first_to_second[i_next][j],
                sides.second_to_first[i][j],
                sides.second_to_first[i][j_next],
            ) {
                assert(sides.edges_cross(i as int, j as int));
                return true;
            }
            j += 1;
        }
        i += 1;
    }
    false
}

/// A node of the bounding-volume tree, as a collision query meets it.
#[derive(Clone, Copy, Debug, PartialEq, Eq, Structural)]
pub enum Visited {
    /// A leaf, and whether its triangle intersects the candidate.
    Leaf { collides: bool },
    /// An inner node, and whether its box overlaps the candidate's.
    Branch { overlaps: bool },
}

/// How a collision query goes on after a node.
#[derive(Clone, Copy, Debug, PartialEq, Eq, Structural)]
pub enum Visit {
    /// Descend into the children of the node.
    Continue,
    /// Leave the subtree of the node aside.
    Stop,
    /// End the query: a collision was found.
    ExitEarly,
}

/// How a collision query goes on after `node`.
pub open spec fn spec_visit(node: Visited) -> Visit {
    match node {
        Visited::Leaf { collides: true } => Visit::ExitEarly,
        Visited::Leaf { collides: false } => Visit::Stop,
        Visited::Branch { overlaps: true } => Visit::Continue,
        Visited::Branch { overlaps: false } => Visit::Stop,
    }
}

/// Decides how a collision query goes on after a node: a leaf that collides
/// ends it, a subtree whose box overlaps the candidate's is searched, and
/// everything else is left aside.
pub fn visit(node: Visited) -> (next: Visit)
    ensures
        next == spec_visit(node),
{
    match node {
        Visited::Leaf { collides } => if collides {
            Visit::ExitEarly
        } else {
            Visit::Stop
        },
        Visited::Branch { overlaps } => if overlaps {
            Visit::Continue
        } else {
            Visit::Stop
        },
    }
}

/// Whether all three corners of a candidate lie on the canvas.
pub open spec fn all_on_canvas(on_canvas: [bool; 3]) -> bool {
    on_canvas@[0] && on_canvas@[1] && on_canvas@[2]
}

/// Decides whether a candidate triangle is accepted: all its corners have to
/// lie on the canvas, and it must not collide with a triangle that is
/// already placed.
///
/// `on_canvas` says of each corner whether it lies on the canvas. `collides`
/// runs the collision query; it is not run for a candidate that has a corner
/// off the canvas.
pub fn accepts_candidate<Q: FnOnce() -> bool>(
    on_canvas: [bool; 3],
    collides: Q,
) -> (accepted: bool)
    requires
        call_requires(collides, ()),
    ensures
        accepted ==> all_on_canvas(on_canvas) && call_ensures(collides, (), false),
        !accepted ==> !all_on_canvas(on_canvas) || call_ensures(collides, (), true),
{
    if !(on_canvas[0] && on_canvas[1] && on_canvas[2]) {
        return false;
    }
    !collides()
}

/// Whether, under the orientation test `ccw`, some side of the first triangle
/// crosses some side of the second.
pub open spec fn triangles_intersect(ccw: spec_fn(Corner, Corner, Corner) -> bool) -> bool {
    exists|i: int, j: int|
        0 <= i < 3 && 0 <= j < 3 && #[trigger] segments_intersect(
            ccw,
            Corner::First(i as usize),
            Corner::First(next_corner(i) as usize),
            Corner::Second(j as usize),
            Corner::Second(next_corner(j) as usize),
        )
}

/// Two triangles are found to intersect exactly when one of the nine pairs
/// of their sides crosses: with the answers of an orientation test in
/// `sides`, what is decided from `sides` is what the test says of the sides.
pub proof fn lemma_collision_is_a_crossing_of_sides(
    sides: Sides,
    ccw: spec_fn(Corner, Corner, Corner) -> bool,
)
    requires
        forall|v: int, e: int|
            0 <= v < 3 && 0 <= e < 3 ==> #[trigger] sides.first_to_second@[v]@[e] == ccw(
                Corner::First(v as usize),
                Corner::Second(e as usize),
                Corner::Second(next_corner(e) as usize),
            ),
        forall|e: int, w: int|
            0 <= e < 3 && 0 <= w < 3 ==> #[trigger] sides.second_to_first@[e]@[w] == ccw(
                Corner::First(e as usize),
                Corner::First(next_corner(e) as usize),
                Corner::Second(w as usize),
            ),
    ensures
        sides.any_edges_cross() == triangles_intersect(ccw),
{
    assert forall|i: int, j: int| 0 <= i < 3 && 0 <= j < 3 implies sides.edges_cross(i, j)
        == segments_intersect(
        ccw,
        Corner::First(i as usize),
        Corner::First(next_corner(i) as usize),
        Corner::Second(j as usize),
        Corner::Second(next_corner(j) as usize),
    ) by {
        let ni = next_corner(i);
        let nj = next_corner(j);
        assert(sides.first_to_second@[i]@[j] == ccw(
            Corner::First(i as usize),
            Corner::Second(j as usize),
            Corner::Second(nj as usize),
        ));
        assert(sides.first_to_second@[ni]@[j] == ccw(
            Corner::First(ni as usize),
            Corner::Second(j as usize),
            Corner::Second(nj as usize),
        ));
        assert(sides.second_to_first@[i]@[j] == ccw(
            Corner::First(i as usize),
            Corner::First(ni as usize),
            Corner::Second(j as usize),
        ));
        assert(sides.second_to_first@[i]@[nj] == ccw(
            Corner::First(i as usize),
            Corner::First(ni as usize),
            Corner::Second(nj as usize),
        ));
    }
    if sides.any_edges_cross() {
        let (i, j) = choose|i: int, j: int|
            0 <= i < 3 && 0 <= j < 3 && #[trigger] sides.edges_cross(i, j);
        assert(segments_intersect(
            ccw,
            Corner::First(i as usize),
            Corner::First(next_corner(i) as usize),
            Corner::Second(j as usize),
            Corner::Second(next_corner(j) as usize),
        ));
    }
    if triangles_intersect(ccw) {
        let (i, j) = choose|i: int, j: int|
            0 <= i < 3 && 0 <= j < 3 && #[trigger] segments_intersect(
                ccw,
                Corner::First(i as usize),
                Corner::First(next_corner(i) as usize),
                Corner::Second(j as usize),
                Corner::Second(next_corner(j) as usize),
            );
        assert(sides.edges_cross(i, j));
    }
}

/// Swapping two segments does not change whether they cross, as long as the
/// orientation test does not depend on which of three points comes first.
pub proof fn lemma_segments_intersect_symmetric<P>(
    ccw: spec_fn(P, P, P) -> bool,
    a1: P,
    a2: P,
    b1: P,
    b2: P,
)
    requires
        ccw(b1, b2, a1) == ccw(a1, b1, b2),
        ccw(b1, b2, a2) == ccw(a2, b1, b2),
        ccw(b1, a1, a2) == ccw(a1, a2, b1),
        ccw(b2, a1, a2) == ccw(a1, a2, b2),
    ensures
        segments_intersect(ccw, a1, a2, b1, b2) == segments_intersect(ccw, b1, b2, a1, a2),
{
}

/// The orientation test in exact arithmetic: whether the turn from `a` by
/// `b` to `c` is counter-clockwise or none at all.
pub open spec fn exact_ccw(a: (int, int), b: (int, int), c: (int, int)) -> bool {
    (c.1 - a.1) * (b.0 - a.0) >= (b.1 - a.1) * (c.0 - a.0)
}

/// In exact arithmetic the orientation test does not depend on which of
/// the three points comes first.
pub proof fn lemma_exact_ccw_is_cyclic(a: (int, int), b: (int, int), c: (int, int))
    ensures
        exact_ccw(a, b, c) == exact_ccw(b, c, a),
{
    assert((c.1 - a.1) * (b.0 - a.0) - (b.1 - a.1) * (c.0 - a.0) == (a.1 - b.1) * (c.0 - b.0) - (
    c.1 - b.1) * (a.0 - b.0)) by (nonlinear_arith);
}

/// In exact arithmetic, swapping two segments never changes whether they
/// cross.
pub proof fn lemma_exact_segments_symmetric(
    a1: (int, int),
    a2: (int, int),
    b1: (int, int),
    b2: (int, int),
)
    ensures
        segments_intersect(|p, q, r| exact_ccw(p, q, r), a1, a2, b1, b2) == segments_intersect(
            |p, q, r| exact_ccw(p, q, r),
            b1,
            b2,
            a1,
            a2,
        ),
{
    lemma_exact_ccw_is_cyclic(a1, b1, b2);
    lemma_exact_ccw_is_cyclic(b1, b2, a1);
    lemma_exact_ccw_is_cyclic(a2, b1, b2);
    lemma_exact_ccw_is_cyclic(b1, b2, a2);
    lemma_exact_ccw_is_cyclic(b1, a1, a2);
    lemma_exact_ccw_is_cyclic(b2, a1, a2);
}

} // verus!
