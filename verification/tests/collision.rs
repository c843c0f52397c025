use triangles::collision::{
    accepts_candidate, check_line_seg_intersection, check_triangle_collision, visit, Corner,
    Sides, Visit, Visited,
};

type Point = (f32, f32);
type TriangleBuf = [Point; 3];

fn p2(x: f32, y: f32) -> Point {
    (x, y)
}

fn ccw(a: Point, b: Point, c: Point) -> bool {
    (c.1 - a.1) * (b.0 - a.0) >= (b.1 - a.1) * (c.0 - a.0)
}

fn corner(t1: &TriangleBuf, t2: &TriangleBuf, at: Corner) -> Point {
    match at {
        Corner::First(i) => t1[i],
        Corner::Second(i) => t2[i],
    }
}

fn sides(t1: &TriangleBuf, t2: &TriangleBuf) -> Sides {
    Sides::from_tests(|p, q, r| ccw(corner(t1, t2, p), corner(t1, t2, q), corner(t1, t2, r)))
}

fn collide(t1: &TriangleBuf, t2: &TriangleBuf) -> bool {
    check_triangle_collision(&sides(t1, t2))
}

fn segments_intersect(a1: Point, a2: Point, b1: Point, b2: Point) -> bool {
    check_line_seg_intersection(ccw(a1, b1, b2), ccw(a2, b1, b2), ccw(a1, a2, b1), ccw(a1, a2, b2))
}

#[test]
fn triangle_intersection() {
    let triangle1 = [
        p2(305.66763, 439.45938),
        p2(278.40073, 428.20035),
        p2(282.28357, 457.4437),
    ];
    let triangle2 = [
        p2(290.44968, 472.76297),
        p2(310.24722, 450.89273),
        p2(281.4083, 444.68268),
    ];

    assert!(collide(&triangle1, &triangle2));
}

#[test]
fn segments_cross_when_each_parts_the_ends_of_the_other() {
    for a in [false, true] {
        for b in [false, true] {
            for c in [false, true] {
                for d in [false, true] {
                    assert_eq!(check_line_seg_intersection(a, b, c, d), a != b && c != d);
                }
            }
        }
    }
    assert!(check_line_seg_intersection(true, false, false, true));
    assert!(!check_line_seg_intersection(true, true, false, true));
    assert!(!check_line_seg_intersection(true, false, false, false));
}

#[test]
fn crossing_segments_are_found() {
    assert!(segments_intersect(p2(0., 0.), p2(4., 4.), p2(0., 4.), p2(4., 0.)));
    assert!(!segments_intersect(p2(0., 0.), p2(1., 1.), p2(0., 4.), p2(4., 0.)));
    assert!(!segments_intersect(p2(0., 0.), p2(4., 0.), p2(0., 1.), p2(4., 1.)));
}

#[test]
fn swapping_the_segments_gives_the_same_answer() {
    let points = [
        p2(0., 0.),
        p2(4., 4.),
        p2(0., 4.),
        p2(4., 0.),
        p2(1., 3.),
        p2(-2., 5.),
        p2(7., 1.),
    ];
    for &a1 in &points {
        for &a2 in &points {
            for &b1 in &points {
                for &b2 in &points {
                    assert_eq!(
                        segments_intersect(a1, a2, b1, b2),
                        segments_intersect(b1, b2, a1, a2)
                    );
                }
            }
        }
    }
}

#[test]
fn rounding_can_make_the_answer_depend_on_the_order() {
    // the end point a1 lies almost on the line through b1 and b2: rounded to
    // `f32`, the orientation of the three depends on which comes first
    let a1 = p2(540.4015502929688, 404.14434814453125);
    let a2 = p2(613.9998168945312, 489.1955261230469);
    let b1 = p2(503.4096374511719, 380.239501953125);
    let b2 = p2(547.1214599609375, 408.48687744140625);
    assert!(!ccw(a1, b1, b2));
    assert!(ccw(b1, b2, a1));
    assert!(segments_intersect(a1, a2, b1, b2));
    assert!(!segments_intersect(b1, b2, a1, a2));
}

#[test]
fn triangles_apart_do_not_intersect() {
    let t1 = [p2(0., 0.), p2(4., 0.), p2(2., 3.)];
    let t2 = [p2(10., 0.), p2(14., 0.), p2(12., 3.)];
    assert!(!collide(&t1, &t2));
    assert!(!collide(&t2, &t1));
}

#[test]
fn one_crossing_pair_of_sides_is_enough() {
    // the corner (2, 1) of the second triangle pokes through the base of the first
    let t1 = [p2(0., 2.), p2(4., 2.), p2(2., 6.)];
    let t2 = [p2(2., 3.), p2(1., -3.), p2(3., -3.)];
    assert!(collide(&t1, &t2));
    assert!(collide(&t2, &t1));
    let s = sides(&t1, &t2);
    let mut crossing = 0;
    for i in 0..3 {
        for j in 0..3 {
            if check_line_seg_intersection(
                s.first_to_second[i][j],
                s.first_to_second[(i + 1) % 3][j],
                s.second_to_first[i][j],
                s.second_to_first[i][(j + 1) % 3],
            ) {
                crossing += 1;
            }
        }
    }
    assert_eq!(crossing, 2);
}

#[test]
fn the_last_pair_of_sides_is_looked_at() {
    // no test says that anything crosses
    let quiet = Sides {
        first_to_second: [[true; 3]; 3],
        second_to_first: [[true; 3]; 3],
    };
    assert!(!check_triangle_collision(&quiet));
    // only the third side of the first triangle and the third of the second cross
    let mut s = quiet;
    s.first_to_second[0][2] = false;
    s.second_to_first[2][0] = false;
    assert!(check_line_seg_intersection(
        s.first_to_second[2][2],
        s.first_to_second[0][2],
        s.second_to_first[2][2],
        s.second_to_first[2][0]
    ));
    assert!(check_triangle_collision(&s));
    // one of the two tests alone is not a crossing there
    let mut half = quiet;
    half.second_to_first[2][0] = false;
    assert!(!check_triangle_collision(&half));
}

#[test]
fn a_triangle_inside_another_is_not_found() {
    let outer = [p2(0., 0.), p2(20., 0.), p2(10., 20.)];
    let inner = [p2(9., 4.), p2(11., 4.), p2(10., 6.)];
    assert!(!collide(&outer, &inner));
    assert!(!collide(&inner, &outer));
}

#[test]
fn triangles_that_share_a_corner_do_not_intersect() {
    let t1 = [p2(0., 0.), p2(-2., 3.), p2(2., 3.)];
    let t2 = [p2(2., 3.), p2(3., 7.), p2(6., 4.)];
    assert!(!collide(&t1, &t2));
    assert!(!collide(&t2, &t1));
}

#[test]
fn the_tests_are_put_in_their_order() {
    let mut asked = std::cell::RefCell::new(Vec::new());
    let sides = Sides::from_tests(|p, q, r| {
        asked.borrow_mut().push((p, q, r));
        // true of the tests that begin at the first corner of the first
        // triangle and end at the last corner of the second
        p == Corner::First(0) && r == Corner::Second(2)
    });
    let asked = asked.get_mut();
    assert_eq!(asked.len(), 18);
    for v in 0..3 {
        for e in 0..3 {
            let test = (Corner::First(v), Corner::Second(e), Corner::Second((e + 1) % 3));
            assert!(asked.contains(&test));
            assert_eq!(sides.first_to_second[v][e], v == 0 && e == 1);
            let test = (Corner::First(v), Corner::First((v + 1) % 3), Corner::Second(e));
            assert!(asked.contains(&test));
            assert_eq!(sides.second_to_first[v][e], v == 0 && e == 2);
        }
    }
}

#[test]
fn a_candidate_on_the_canvas_is_accepted_if_it_is_free() {
    assert!(accepts_candidate([true, true, true], || false));
    assert!(!accepts_candidate([true, true, true], || true));
}

#[test]
fn a_candidate_off_the_canvas_is_turned_down_without_a_query() {
    for off in 0..3 {
        let mut on_canvas = [true; 3];
        on_canvas[off] = false;
        let queried = std::cell::Cell::new(false);
        let accepted = accepts_candidate(on_canvas, || {
            queried.set(true);
            false
        });
        assert!(!accepted);
        assert!(!queried.get());
    }
    assert!(!accepts_candidate([false, false, false], || false));
}

#[test]
fn a_query_goes_on_as_the_node_says() {
    assert_eq!(visit(Visited::Leaf { collides: true }), Visit::ExitEarly);
    assert_eq!(visit(Visited::Leaf { collides: false }), Visit::Stop);
    assert_eq!(visit(Visited::Branch { overlaps: true }), Visit::Continue);
    assert_eq!(visit(Visited::Branch { overlaps: false }), Visit::Stop);
}
