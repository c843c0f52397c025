use std::collections::HashSet;

use ncollide2d::bounding_volume::{BoundingVolume, AABB};
use ncollide2d::na::{Isometry2, Point2, Vector2};
use ncollide2d::partitioning::{DBVTLeaf, VisitStatus, Visitor, BVH, DBVT};
use rand::Rng;
use rand_core::SeedableRng;
use rand_pcg::Pcg32;
use triangles::collision::{
    accepts_candidate, check_triangle_collision, visit, Corner, Sides, Visit, Visited,
};
use triangles::conf::{init_triangles, Conf, PLACEMENT_ATTEMPTS, PLACEMENT_BAILOUT_THRESHOLD};
use triangles::env::Env;
use triangles::eviction::{generate, Eviction};
use triangles::lifecycle::render;
use triangles::placement::{place_triangle, PlaceError};
use triangles::search::{generate_triangle, InitialSearch, Request, Search};

type TriangleBuf = [Point2<f32>; 3];
type World = DBVT<f32, (usize, usize), AABB<f32>>;

const TRIANGLE_SIZE: f32 = 12.25;
const MAX_ROTATION_RADS: f32 = 0.5;
const ROTATION_OFFSET: f32 = 60.0;
const PRNG_SEED: f64 = 9209.2338;

fn deg_to_rad(degrees: f32) -> f32 {
    degrees * (std::f32::consts::PI / 180.0)
}

fn ccw(a: Point2<f32>, b: Point2<f32>, c: Point2<f32>) -> bool {
    (c.y - a.y) * (b.x - a.x) >= (b.y - a.y) * (c.x - a.x)
}

fn corner(t1: &TriangleBuf, t2: &TriangleBuf, at: Corner) -> Point2<f32> {
    match at {
        Corner::First(i) => t1[i],
        Corner::Second(i) => t2[i],
    }
}

fn sides(t1: &TriangleBuf, t2: &TriangleBuf) -> Sides {
    Sides::from_tests(|p, q, r| ccw(corner(t1, t2, p), corner(t1, t2, q), corner(t1, t2, r)))
}

fn triangles_collide(t1: &TriangleBuf, t2: &TriangleBuf) -> bool {
    check_triangle_collision(&sides(t1, t2))
}

fn get_triangle_bv(t: &TriangleBuf) -> AABB<f32> {
    let min = Point2::new(
        t[0].x.min(t[1].x).min(t[2].x),
        t[0].y.min(t[1].y).min(t[2].y),
    );
    let max = Point2::new(
        t[0].x.max(t[1].x).max(t[2].x),
        t[0].y.max(t[1].y).max(t[2].y),
    );
    AABB::new(min, max)
}

fn bits(t: &TriangleBuf) -> [u32; 6] {
    [
        t[0].x.to_bits(),
        t[0].y.to_bits(),
        t[1].x.to_bits(),
        t[1].y.to_bits(),
        t[2].x.to_bits(),
        t[2].y.to_bits(),
    ]
}

struct TriangleCollisionVisitor<'a> {
    triangle: &'a TriangleBuf,
    triangle_bv: &'a AABB<f32>,
    envs: &'a [Env<TriangleBuf>],
    does_collide: &'a mut bool,
}

impl<'a> Visitor<(usize, usize), AABB<f32>> for TriangleCollisionVisitor<'a> {
    fn visit(&mut self, bv: &AABB<f32>, data: Option<&(usize, usize)>) -> VisitStatus {
        let node = match data {
            Some(&(chain_ix, triangle_ix)) => {
                let env = &self.envs[chain_ix];
                assert!(env.holds_triangle(triangle_ix));
                Visited::Leaf {
                    collides: triangles_collide(
                        self.triangle,
                        &env.get_triangle(triangle_ix).geometry,
                    ),
                }
            }
            None => Visited::Branch {
                overlaps: self.triangle_bv.intersects(bv),
            },
        };
        match visit(node) {
            Visit::ExitEarly => {
                *self.does_collide = true;
                VisitStatus::ExitEarly
            }
            Visit::Continue => VisitStatus::Continue,
            Visit::Stop => VisitStatus::Stop,
        }
    }
}

/// Collects the payload of every leaf.
struct Census {
    found: Vec<(usize, usize)>,
}

impl Visitor<(usize, usize), AABB<f32>> for Census {
    fn visit(&mut self, _bv: &AABB<f32>, data: Option<&(usize, usize)>) -> VisitStatus {
        if let Some(&payload) = data {
            self.found.push(payload);
        }
        VisitStatus::Continue
    }
}

fn collides(world: &World, envs: &[Env<TriangleBuf>], triangle: &TriangleBuf) -> bool {
    let bounding_box = get_triangle_bv(triangle);
    let mut does_collide = false;
    let mut visitor = TriangleCollisionVisitor {
        triangle,
        triangle_bv: &bounding_box,
        envs,
        does_collide: &mut does_collide,
    };
    world.visit(&mut visitor);
    does_collide
}

/// A canvas with its chains, driven as a page would drive it, and a display
/// that only keeps count.
struct Sim {
    world: World,
    rng: Pcg32,
    envs: Vec<Env<TriangleBuf>>,
    base: TriangleBuf,
    rotation: Vec<f32>,
    on_display: HashSet<usize>,
    next_dom_id: usize,
    draws: usize,
    erasures: usize,
    accepted: Vec<[u32; 6]>,
    attempts: usize,
}

fn seed_bytes(seed: f64) -> [u8; 16] {
    let half = seed.to_ne_bytes();
    let mut bytes = [0u8; 16];
    bytes[..8].copy_from_slice(&half);
    bytes[8..].copy_from_slice(&half);
    bytes
}

impl Sim {
    fn new(confs: Vec<Conf>, seed: f64) -> Sim {
        let half = TRIANGLE_SIZE / 2.0;
        let height = ((TRIANGLE_SIZE * TRIANGLE_SIZE) - (half * half)).sqrt();
        let mut sim = Sim {
            world: DBVT::new(),
            rng: Pcg32::from_seed(1u128.to_ne_bytes()),
            envs: Vec::new(),
            base: [
                Point2::origin(),
                Point2::new(-half, height),
                Point2::new(half, height),
            ],
            rotation: Vec::new(),
            on_display: HashSet::new(),
            next_dom_id: 1,
            draws: 0,
            erasures: 0,
            accepted: Vec::new(),
            attempts: 0,
        };
        for (chain_ix, conf) in confs.into_iter().enumerate() {
            sim.rng = Pcg32::from_seed(seed_bytes(seed));
            let (triangle, rotation) = sim
                .get_initial_triangle(conf.canvas_width, conf.canvas_height)
                .expect("room for an initial triangle");
            sim.envs.push(Env::new(conf, chain_ix, triangle));
            sim.rotation.push(rotation);
        }
        sim
    }

    fn get_initial_triangle(&mut self, width: usize, height: usize) -> Option<(TriangleBuf, f32)> {
        let mut search = InitialSearch::new();
        while search.next_try() {
            let offset = Vector2::new(
                self.rng
                    .gen_range(TRIANGLE_SIZE, width as f32 - TRIANGLE_SIZE),
                self.rng
                    .gen_range(TRIANGLE_SIZE, height as f32 - TRIANGLE_SIZE),
            );
            let rotation = self.rng.gen_range(0.0, std::f32::consts::PI / 2.0);
            let proposed = [
                self.base[0] + offset,
                self.base[1] + offset,
                self.base[2] + offset,
            ];
            if !collides(&self.world, &self.envs, &proposed) {
                return Some((proposed, rotation));
            }
        }
        None
    }

    fn find_triangle_placement(
        &mut self,
        chain_ix: usize,
        origin: Point2<f32>,
        rotation: f32,
    ) -> Option<(AABB<f32>, TriangleBuf)> {
        let proposed_rotation =
            rotation + self.rng.gen_range(-MAX_ROTATION_RADS, MAX_ROTATION_RADS + 0.00001);
        let isometry = Isometry2::new(Vector2::new(origin.x, origin.y), proposed_rotation);
        let proposed = [
            isometry * self.base[0],
            isometry * self.base[1],
            isometry * self.base[2],
        ];
        let conf = &self.envs[chain_ix].conf;
        let (width, height) = (conf.canvas_width as f32, conf.canvas_height as f32);
        let within = |pt: &Point2<f32>| pt.x > 0. && pt.x < width && pt.y > 0. && pt.y < height;
        let on_canvas = [
            within(&proposed[0]),
            within(&proposed[1]),
            within(&proposed[2]),
        ];
        let (world, envs) = (&self.world, &self.envs);
        if !accepts_candidate(on_canvas, || collides(world, envs, &proposed)) {
            return None;
        }
        Some((get_triangle_bv(&proposed), proposed))
    }

    fn place_triangle(&mut self, chain_ix: usize, insert_at_oldest_ix: bool) -> Option<()> {
        let mut search = Search::new(insert_at_oldest_ix);
        loop {
            match generate_triangle(&mut self.envs[chain_ix], &mut search, &mut self.rng) {
                Request::Attempt(pivot) => {
                    self.attempts += 1;
                    let rot_offset = if pivot.negates_offset() {
                        deg_to_rad(-ROTATION_OFFSET)
                    } else {
                        deg_to_rad(ROTATION_OFFSET)
                    };
                    let origin = self.envs[chain_ix].last_triangle[pivot.vertex()];
                    let rotation = self.rotation[chain_ix] + rot_offset;
                    if let Some((bv, triangle)) =
                        self.find_triangle_placement(chain_ix, origin, rotation)
                    {
                        self.rotation[chain_ix] += rot_offset;
                        let ix = match self.envs[chain_ix].insertion_ix(insert_at_oldest_ix) {
                            Ok(ix) => ix,
                            Err(PlaceError::ArenaFull) => return None,
                            Err(e) => panic!("cannot place: {:?}", e),
                        };
                        let dom_id = self.next_dom_id;
                        self.next_dom_id += 1;
                        self.draws += 1;
                        assert!(self.on_display.insert(dom_id));
                        let leaf_id = self.world.insert(DBVTLeaf::new(bv, (chain_ix, ix)));
                        place_triangle(
                            &mut self.envs[chain_ix],
                            insert_at_oldest_ix,
                            triangle,
                            leaf_id,
                            dom_id,
                        );
                        self.accepted.push(bits(&triangle));
                        return Some(());
                    }
                }
                Request::Initial => {
                    let (width, height) = {
                        let conf = &self.envs[chain_ix].conf;
                        (conf.canvas_width, conf.canvas_height)
                    };
                    match self.get_initial_triangle(width, height) {
                        Some((triangle, rotation)) => {
                            assert_eq!(self.envs[chain_ix].occupancy(), 0);
                            self.envs[chain_ix].set_initial_triangle(triangle);
                            self.rotation[chain_ix] = rotation;
                        }
                        None => return None,
                    }
                }
                Request::GiveUp => return None,
            }
        }
    }

    fn render(&mut self, chain_ix: usize) {
        let plan = render(&mut self.envs, chain_ix);
        for gone in plan.removed {
            assert!(self.on_display.remove(&gone.dom_id));
            self.erasures += 1;
            assert_eq!(self.world.remove(gone.collider_handle).data.0, chain_ix);
        }
        for _ in 0..plan.steps {
            self.place_triangle(chain_ix, false);
        }
    }

    /// One cycle; says whether a triangle left and whether one came.
    fn generate(&mut self, chain_ix: usize) -> (bool, bool) {
        let left = match generate(&mut self.envs[chain_ix], &mut self.rng) {
            Eviction::Evicted(oldest) => {
                assert!(self.on_display.remove(&oldest.dom_id));
                self.erasures += 1;
                let leaf = self.world.remove(oldest.collider_handle);
                assert_eq!(
                    leaf.data,
                    (chain_ix, self.envs[chain_ix].oldest_triangle_ix.unwrap())
                );
                true
            }
            Eviction::Vacant => false,
            Eviction::Stalled => return (false, false),
        };
        let came = self.place_triangle(chain_ix, true).is_some();
        self.envs[chain_ix].advance_oldest();
        (left, came)
    }

    fn census(&self) -> Vec<(usize, usize)> {
        let mut census = Census { found: Vec::new() };
        self.world.visit(&mut census);
        census.found.sort();
        census.found
    }

    fn live_slots(&self) -> Vec<(usize, usize)> {
        let mut live = Vec::new();
        for env in &self.envs {
            for (i, slot) in env.triangles().iter().enumerate() {
                if slot.is_some() {
                    live.push((env.chain_ix, i));
                }
            }
        }
        live.sort();
        live
    }

    /// What has to hold between any two steps.
    fn check(&self) {
        assert_eq!(self.census(), self.live_slots());
        let mut shown = HashSet::new();
        for env in &self.envs {
            assert!(env.is_sound());
            let occupancy = env.occupancy();
            let roots = env
                .triangles()
                .iter()
                .flatten()
                .filter(|t| t.prev_node.is_none())
                .count();
            assert_eq!(roots, if occupancy == 0 { 0 } else { 1 });
            for (i, slot) in env.triangles().iter().enumerate() {
                if let Some(t) = slot {
                    assert!(t.degree() <= 3);
                    assert!(t.degree() >= 1 || occupancy == 1);
                    assert_eq!(
                        self.world.get(t.collider_handle).expect("a leaf").data,
                        (env.chain_ix, i)
                    );
                    assert!(shown.insert(t.dom_id));
                }
            }
            if let Some(l) = env.last_triangle_ix {
                assert_eq!(bits(&env.last_triangle), bits(&env.get_triangle(l).geometry));
            }
        }
        assert_eq!(shown, self.on_display);
        assert_eq!(self.draws - self.erasures, self.on_display.len());
    }

    fn all_triangles(&self) -> Vec<TriangleBuf> {
        self.envs
            .iter()
            .flat_map(|env| env.triangles().iter().flatten().map(|t| t.geometry))
            .collect()
    }
}

fn one_chain(width: usize, height: usize, triangle_count: usize) -> Vec<Conf> {
    let mut confs = init_triangles(width, height);
    confs.truncate(1);
    confs[0].triangle_count = triangle_count;
    confs
}

#[test]
fn populating_a_chain_fills_it_without_overlap() {
    let mut sim = Sim::new(one_chain(800, 600, 50), PRNG_SEED);
    sim.render(0);
    sim.check();
    let env = &sim.envs[0];
    assert_eq!(env.triangles().len(), 50);
    assert_eq!(env.occupancy(), 50);
    assert_eq!(env.last_triangle_ix, Some(49));
    assert_eq!(sim.draws, 50);
    assert_eq!(sim.erasures, 0);
    let census = sim.census();
    assert_eq!(census.len(), 50);
    assert_eq!(census, (0..50).map(|i| (0, i)).collect::<Vec<_>>());
    let placed = sim.all_triangles();
    for i in 0..placed.len() {
        for j in 0..placed.len() {
            if i != j {
                assert!(
                    !triangles_collide(&placed[i], &placed[j]),
                    "triangles {} and {} intersect",
                    i,
                    j
                );
            }
        }
        for pt in placed[i].iter() {
            assert!(pt.x > 0. && pt.x < 800. && pt.y > 0. && pt.y < 600.);
        }
    }
    // every triangle but the first grew from one that came before it
    assert_eq!(env.get_triangle(0).prev_node, None);
    for i in 1..50 {
        let parent = env.get_triangle(i).prev_node.expect("a parent");
        assert!(parent < i);
    }
}

#[test]
fn two_hundred_cycles_keep_the_chain_full_and_sound() {
    let mut sim = Sim::new(one_chain(800, 600, 50), PRNG_SEED);
    sim.render(0);
    assert_eq!(sim.envs[0].occupancy(), 50);
    for cycle in 0..200 {
        let (left, came) = sim.generate(0);
        assert!(left, "no triangle left in cycle {}", cycle);
        assert!(came, "no triangle came in cycle {}", cycle);
        sim.check();
        assert_eq!(sim.envs[0].occupancy(), 50);
        assert_eq!(sim.envs[0].triangles().len(), 50);
        assert_eq!(sim.census().len(), 50);
        for slot in sim.envs[0].triangles().iter() {
            let degree = slot.as_ref().expect("a triangle").degree();
            assert!((1..=3).contains(&degree));
        }
    }
    assert_eq!(sim.draws, 250);
    assert_eq!(sim.erasures, 200);
}

#[test]
fn three_chains_keep_apart() {
    let mut sim = Sim::new(init_triangles(800, 600), PRNG_SEED);
    for chain_ix in 0..3 {
        sim.render(chain_ix);
        sim.check();
    }
    for round in 0..60 {
        let chain_ix = round % 3;
        let before = sim.envs[chain_ix].occupancy();
        let (left, came) = sim.generate(chain_ix);
        sim.check();
        let after = sim.envs[chain_ix].occupancy();
        assert_eq!(after + left as usize, before + came as usize);
    }
    let placed = sim.all_triangles();
    assert_eq!(placed.len(), sim.census().len());
    assert!(placed.len() > 100);
}

#[test]
fn populating_a_chain_again_leaves_the_others_alone() {
    let mut sim = Sim::new(init_triangles(800, 600), PRNG_SEED);
    for chain_ix in 0..3 {
        sim.render(chain_ix);
    }
    sim.check();
    let others: Vec<_> = [1, 2].iter().map(|&c| graph(&sim.envs[c])).collect();
    let other_entries: Vec<_> = sim.census().into_iter().filter(|p| p.0 != 0).collect();
    let held = sim.envs[0].occupancy();
    let erased = sim.erasures;
    assert!(held > 0);
    sim.render(0);
    sim.check();
    // what chain 0 held was erased, and chain 0 was filled anew
    assert_eq!(sim.erasures - erased, held);
    assert!(sim.envs[0].occupancy() > 0);
    // the other chains and their entries in the index are as they were
    assert_eq!(graph(&sim.envs[1]), others[0]);
    assert_eq!(graph(&sim.envs[2]), others[1]);
    let entries: Vec<_> = sim.census().into_iter().filter(|p| p.0 != 0).collect();
    assert_eq!(entries, other_entries);
}

#[test]
fn the_same_seed_places_the_same_triangles() {
    let run = |seed: f64| {
        let mut sim = Sim::new(one_chain(800, 600, 50), seed);
        sim.render(0);
        for _ in 0..100 {
            sim.generate(0);
        }
        (sim.accepted, sim.attempts)
    };
    let (first, first_attempts) = run(PRNG_SEED);
    let (second, second_attempts) = run(PRNG_SEED);
    assert!(first.len() >= 100);
    assert_eq!(first, second);
    assert_eq!(first_attempts, second_attempts);
    let (other, _) = run(17.5);
    assert_ne!(first, other);
}

#[test]
fn a_step_without_room_fails_within_its_budget() {
    // the canvas holds the initial triangle and nothing that grows from it
    let mut sim = Sim::new(one_chain(25, 25, 50), PRNG_SEED);
    let anchor = bits(&sim.envs[0].last_triangle);
    assert_eq!(sim.place_triangle(0, false), None);
    assert_eq!(sim.attempts, PLACEMENT_ATTEMPTS * PLACEMENT_BAILOUT_THRESHOLD);
    sim.check();
    let env = &sim.envs[0];
    assert_eq!(env.triangles().len(), 0);
    assert_eq!(env.occupancy(), 0);
    assert_eq!(env.last_triangle_ix, None);
    assert_eq!(env.oldest_triangle_ix, None);
    assert_eq!(sim.draws, 0);
    assert!(sim.census().is_empty());
    // the anchor was drawn up anew between the rounds
    assert_ne!(bits(&env.last_triangle), anchor);
}

type Record = (usize, Option<usize>, Option<usize>, Option<usize>);

fn graph(env: &Env<TriangleBuf>) -> Vec<Option<Record>> {
    env.triangles()
        .iter()
        .map(|slot| {
            slot.as_ref()
                .map(|t| (t.dom_id, t.prev_node, t.next_node_1, t.next_node_2))
        })
        .collect()
}

#[test]
fn a_hemmed_in_chain_fails_to_grow_and_keeps_its_graph() {
    // grow a chain on a small canvas until a step finds no room
    let mut sim = Sim::new(one_chain(100, 100, 200), PRNG_SEED);
    let mut failed = false;
    for _ in 0..200 {
        let before = graph(&sim.envs[0]);
        let held = sim.envs[0].occupancy();
        let attempts = sim.attempts;
        let draws = sim.draws;
        match sim.place_triangle(0, false) {
            Some(()) => {
                assert_eq!(sim.envs[0].occupancy(), held + 1);
                assert_eq!(sim.draws, draws + 1);
                assert!(
                    sim.attempts - attempts <= PLACEMENT_ATTEMPTS * PLACEMENT_BAILOUT_THRESHOLD
                );
            }
            None => {
                assert_eq!(
                    sim.attempts - attempts,
                    PLACEMENT_ATTEMPTS * PLACEMENT_BAILOUT_THRESHOLD
                );
                assert_eq!(sim.draws, draws);
                assert_eq!(graph(&sim.envs[0]), before);
                assert_eq!(sim.envs[0].occupancy(), held);
                assert_eq!(sim.census().len(), held);
                assert!(held >= 1);
                failed = true;
            }
        }
        sim.check();
        if failed {
            break;
        }
    }
    assert!(failed, "the canvas never filled up");
}
