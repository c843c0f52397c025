//! What the collision test finds when coordinates are exact.
//!
//! The driver's coordinates are rounded, and rounding can turn an
//! orientation test round. With exact coordinates the test is sound in this
//! sense: sides that are found to cross have a point in common, so triangles
//! whose sides have no point in common are never found to intersect.

use crate::collision::{
    exact_ccw, lemma_collision_is_a_crossing_of_sides, next_corner, segments_intersect,
    triangles_intersect, Corner, Sides,
};
use vstd::prelude::*;

verus! {

/// Whether the point that lies `s` parts in `d` of the way from `a1` to `a2`
/// is the point that lies `t` parts in `d` of the way from `b1` to `b2`.
pub open spec fn meet_at(
    a1: (int, int),
    a2: (int, int),
    b1: (int, int),
    b2: (int, int),
    d: int,
    s: int,
    t: int,
) -> bool {
    &&& d > 0
    &&& 0 <= s <= d
    &&& 0 <= t <= d
    &&& d * a1.0 + s * (a2.0 - a1.0) == d * b1.0 + t * (b2.0 - b1.0)
    &&& d * a1.1 + s * (a2.1 - a1.1) == d * b1.1 + t * (b2.1 - b1.1)
}

/// Whether the segment from `a1` to `a2` and the segment from `b1` to `b2`
/// have a point in common.
pub open spec fn segments_meet(
    a1: (int, int),
    a2: (int, int),
    b1: (int, int),
    b2: (int, int),
) -> bool {
    exists|d: int, s: int, t: int| #[trigger] meet_at(a1, a2, b1, b2, d, s, t)
}

/// For three vectors `p`, `q` and `r` of the plane, with `x` for the cross
/// product: `(q x r) p = (p x (r - q)) q - (p x q) (r - q)`, here in its
/// first coordinate.
proof fn lemma_cross_identity(px: int, py: int, qx: int, qy: int, rx: int, ry: int)
    ensures
        (ry * qx - qy * rx) * px == (px * (ry - qy) - py * (rx - qx)) * qx - (qy * px - py * qx)
            * (rx - qx),
{
    let m = ry - qy;
    let d = rx - qx;
    let u = ry * qx - qy * rx;
    let pm = px * m;
    let yd = py * d;
    let qp = qy * px;
    let yq = py * qx;
    let k = pm - yd;
    let w = qp - yq;
    let inner = m * qx - qy * d;
    // k qx - w d, term by term
    assert(k * qx == pm * qx - yd * qx) by (nonlinear_arith)
        requires
            k == pm - yd,
    ;
    assert(w * d == qp * d - yq * d) by (nonlinear_arith)
        requires
            w == qp - yq,
    ;
    // the two terms with py cancel
    assert(yd * qx == yq * d) by (nonlinear_arith)
        requires
            yd == py * d,
            yq == py * qx,
    ;
    // what is left is px times the cross product of q and r
    assert(pm * qx == px * (m * qx)) by (nonlinear_arith)
        requires
            pm == px * m,
    ;
    assert(qp * d == px * (qy * d)) by (nonlinear_arith)
        requires
            qp == qy * px,
    ;
    assert(px * (m * qx) - px * (qy * d) == px * inner) by (nonlinear_arith)
        requires
            inner == m * qx - qy * d,
    ;
    assert(inner == u) by (nonlinear_arith)
        requires
            inner == m * qx - qy * d,
            m == ry - qy,
            d == rx - qx,
            u == ry * qx - qy * rx,
    ;
    assert(u * px == px * u) by (nonlinear_arith);
}

/// Segments that are found to cross in exact arithmetic have a point in
/// common.
pub proof fn lemma_crossing_segments_meet(
    a1: (int, int),
    a2: (int, int),
    b1: (int, int),
    b2: (int, int),
)
    requires
        segments_intersect(|p, q, r| exact_ccw(p, q, r), a1, a2, b1, b2),
    ensures
        segments_meet(a1, a2, b1, b2),
{
    // everything as seen from a1
    let px = a2.0 - a1.0;
    let py = a2.1 - a1.1;
    let qx = b1.0 - a1.0;
    let qy = b1.1 - a1.1;
    let rx = b2.0 - a1.0;
    let ry = b2.1 - a1.1;
    // the four orientation tests, as signed areas
    let u = (b2.1 - a1.1) * (b1.0 - a1.0) - (b1.1 - a1.1) * (b2.0 - a1.0);
    let v = (b2.1 - a2.1) * (b1.0 - a2.0) - (b1.1 - a2.1) * (b2.0 - a2.0);
    let w = (b1.1 - a1.1) * (a2.0 - a1.0) - (a2.1 - a1.1) * (b1.0 - a1.0);
    let z = (b2.1 - a1.1) * (a2.0 - a1.0) - (a2.1 - a1.1) * (b2.0 - a1.0);
    assert(exact_ccw(a1, b1, b2) == (u >= 0));
    assert(exact_ccw(a2, b1, b2) == (v >= 0));
    assert(exact_ccw(a1, a2, b1) == (w >= 0));
    assert(exact_ccw(a1, a2, b2) == (z >= 0));
    assert((u >= 0) != (v >= 0));
    assert((w >= 0) != (z >= 0));
    let k = u - v;
    assert(u == ry * qx - qy * rx);
    assert(v == (ry - py) * (qx - px) - (qy - py) * (rx - px));
    assert(w == qy * px - py * qx);
    assert(z == ry * px - py * rx);
    assert(k == px * (ry - qy) - py * (rx - qx)) by (nonlinear_arith)
        requires
            k == u - v,
            u == ry * qx - qy * rx,
            v == (ry - py) * (qx - px) - (qy - py) * (rx - px),
    ;
    assert(z - w == k) by (nonlinear_arith)
        requires
            k == px * (ry - qy) - py * (rx - qx),
            w == qy * px - py * qx,
            z == ry * px - py * rx,
    ;
    lemma_cross_identity(px, py, qx, qy, rx, ry);
    lemma_cross_identity(py, -px, qy, -qx, ry, -rx);
    assert(u * px == k * qx - w * (rx - qx));
    assert(u * py == k * qy - w * (ry - qy)) by (nonlinear_arith)
        requires
            k == px * (ry - qy) - py * (rx - qx),
            u == ry * qx - qy * rx,
            w == qy * px - py * qx,
            ((-rx) * qy - (-qx) * ry) * py == (py * ((-rx) - (-qx)) - (-px) * (ry - qy)) * qy - ((
            -qx) * py - (-px) * qy) * (ry - qy),
    ;
    if k > 0 {
        let (d, s, t) = (k, u, -w);
        assert(d * a1.0 + s * px == d * b1.0 + t * (rx - qx) && d * a1.1 + s * py == d * b1.1 + t
            * (ry - qy)) by (nonlinear_arith)
            requires
                d == k,
                s == u,
                t == -w,
                qx == b1.0 - a1.0,
                qy == b1.1 - a1.1,
                u * px == k * qx - w * (rx - qx),
                u * py == k * qy - w * (ry - qy),
        ;
        assert(meet_at(a1, a2, b1, b2, d, s, t));
    } else {
        let (d, s, t) = (-k, -u, w);
        assert(d * a1.0 + s * px == d * b1.0 + t * (rx - qx) && d * a1.1 + s * py == d * b1.1 + t
            * (ry - qy)) by (nonlinear_arith)
            requires
                d == -k,
                s == -u,
                t == w,
                qx == b1.0 - a1.0,
                qy == b1.1 - a1.1,
                u * px == k * qx - w * (rx - qx),
                u * py == k * qy - w * (ry - qy),
        ;
        assert(meet_at(a1, a2, b1, b2, d, s, t));
    }
}

/// The point at a corner of one of two triangles.
pub open spec fn corner_point(t1: Seq<(int, int)>, t2: Seq<(int, int)>, at: Corner) -> (int, int) {
    match at {
        Corner::First(i) => t1[i as int],
        Corner::Second(i) => t2[i as int],
    }
}

/// The orientation test on the corners of two triangles, in exact
/// arithmetic.
pub open spec fn exact_test(t1: Seq<(int, int)>, t2: Seq<(int, int)>) -> spec_fn(
    Corner,
    Corner,
    Corner,
) -> bool {
    |p: Corner, q: Corner, r: Corner|
        exact_ccw(corner_point(t1, t2, p), corner_point(t1, t2, q), corner_point(t1, t2, r))
}

/// Whether no side of the first triangle has a point in common with a side
/// of the second.
pub open spec fn sides_apart(t1: Seq<(int, int)>, t2: Seq<(int, int)>) -> bool {
    forall|i: int, j: int|
        0 <= i < 3 && 0 <= j < 3 ==> !#[trigger] segments_meet(
            t1[i],
            t1[next_corner(i)],
            t2[j],
            t2[next_corner(j)],
        )
}

/// Two triangles whose sides have no point in common do not intersect under
/// the exact orientation test.
pub proof fn lemma_triangles_apart_do_not_intersect(t1: Seq<(int, int)>, t2: Seq<(int, int)>)
    requires
        t1.len() == 3,
        t2.len() == 3,
        sides_apart(t1, t2),
    ensures
        !triangles_intersect(exact_test(t1, t2)),
{
    let test = exact_test(t1, t2);
    if triangles_intersect(test) {
        let (i, j) = choose|i: int, j: int|
            0 <= i < 3 && 0 <= j < 3 && #[trigger] segments_intersect(
                test,
                Corner::First(i as usize),
                Corner::First(next_corner(i) as usize),
                Corner::Second(j as usize),
                Corner::Second(next_corner(j) as usize),
            );
        let (a1, a2, b1, b2) = (t1[i], t1[next_corner(i)], t2[j], t2[next_corner(j)]);
        assert(corner_point(t1, t2, Corner::First(i as usize)) == a1);
        assert(corner_point(t1, t2, Corner::First(next_corner(i) as usize)) == a2);
        assert(corner_point(t1, t2, Corner::Second(j as usize)) == b1);
        assert(corner_point(t1, t2, Corner::Second(next_corner(j) as usize)) == b2);
        assert(segments_intersect(|p, q, r| exact_ccw(p, q, r), a1, a2, b1, b2));
        lemma_crossing_segments_meet(a1, a2, b1, b2);
        assert(segments_meet(t1[i], t1[next_corner(i)], t2[j], t2[next_corner(j)]));
    }
}

/// With the answers of the exact orientation test, triangles whose sides have
/// no point in common are not found to intersect.
pub proof fn lemma_apart_is_no_collision(sides: Sides, t1: Seq<(int, int)>, t2: Seq<(int, int)>)
    requires
        t1.len() == 3,
        t2.len() == 3,
        sides_apart(t1, t2),
        forall|v: int, e: int|
            0 <= v < 3 && 0 <= e < 3 ==> #[trigger] sides.first_to_second@[v]@[e] == exact_ccw(
                t1[v],
                t2[e],
                t2[next_corner(e)],
            ),
        forall|e: int, w: int|
            0 <= e < 3 && 0 <= w < 3 ==> #[trigger] sides.second_to_first@[e]@[w] == exact_ccw(
                t1[e],
                t1[next_corner(e)],
                t2[w],
            ),
    ensures
        !sides.any_edges_cross(),
{
    let test = exact_test(t1, t2);
    lemma_triangles_apart_do_not_intersect(t1, t2);
    assert forall|v: int, e: int|
        0 <= v < 3 && 0 <= e < 3 implies #[trigger] sides.first_to_second@[v]@[e] == test(
        Corner::First(v as usize),
        Corner::Second(e as usize),
        Corner::Second(next_corner(e) as usize),
    ) by {}
    assert forall|e: int, w: int|
        0 <= e < 3 && 0 <= w < 3 implies #[trigger] sides.second_to_first@[e]@[w] == test(
        Corner::First(e as usize),
        Corner::First(next_corner(e) as usize),
        Corner::Second(w as usize),
    ) by {}
    lemma_collision_is_a_crossing_of_sides(sides, test);
}

} // verus!
