use ncollide::algorithm::{CapsuleShapeManifoldGenerator, ContactAlgorithm};
use ncollide::dispatch::{ContactDispatcher, GeneratorKind};
use ncollide::geometry::{isqrt, unit, Vec3, NORMAL_SCALE};
use ncollide::ids::IdAllocator;
use ncollide::manifold::{Contact, ContactManifold, FeatureId};
use ncollide::shape::{ContactPrediction, ContactPreprocessor, Placement, Shape, ShapeKind};
use ncollide::generators::plane_convex;

fn at(x: i64, y: i64, z: i64) -> Placement {
    Placement::new(Vec3::new(x, y, z))
}

fn up_plane() -> Shape {
    Shape::Plane { normal: Vec3::new(0, NORMAL_SCALE, 0) }
}

fn run(
    alg: &mut ContactAlgorithm,
    d: &ContactDispatcher,
    pa: Placement,
    sa: &Shape,
    pb: Placement,
    sb: &Shape,
    margin: i64,
    ids: &mut IdAllocator,
    m: &mut ContactManifold,
) -> bool {
    alg.generate_contacts(d, &pa, sa, None, &pb, sb, None, &ContactPrediction::new(margin), ids, m)
}

fn contacts_of(m: &ContactManifold) -> Vec<Contact> {
    m.contacts.iter().map(|t| t.contact).collect()
}

#[test]
fn overlapping_balls_give_one_contact() {
    let d = ContactDispatcher::with_defaults();
    let ball = Shape::Ball { radius: 1000 };
    let mut alg = d.get_contact_algorithm(&ball, &ball).unwrap();
    let mut ids = IdAllocator::new();
    let mut m = ContactManifold::new();
    assert!(run(&mut alg, &d, at(0, 0, 0), &ball, at(1500, 0, 0), &ball, 600, &mut ids, &mut m));
    assert_eq!(m.len(), 1);
    let c = m.contacts[0].contact;
    assert_eq!(c.depth, 500);
    assert_eq!(c.normal, Vec3::new(NORMAL_SCALE, 0, 0));
    assert_eq!(c.point_a, Vec3::new(1000, 0, 0));
    assert_eq!(c.point_b, Vec3::new(500, 0, 0));
    let id = m.contacts[0].id;
    assert!(run(&mut alg, &d, at(0, 0, 0), &ball, at(1400, 0, 0), &ball, 600, &mut ids, &mut m));
    assert_eq!(m.len(), 1);
    assert_eq!(m.contacts[0].id, id);
    assert_eq!(m.contacts[0].contact.depth, 600);
}

#[test]
fn ball_above_plane_is_beyond_margin() {
    let d = ContactDispatcher::with_defaults();
    let ball = Shape::Ball { radius: 1000 };
    let plane = up_plane();
    let mut alg = d.get_contact_algorithm(&plane, &ball).unwrap();
    let mut ids = IdAllocator::new();
    let mut m = ContactManifold::new();
    assert!(!run(&mut alg, &d, at(0, 0, 0), &plane, at(0, 3000, 0), &ball, 100, &mut ids, &mut m));
    assert_eq!(m.len(), 0);
}

#[test]
fn ball_resting_in_plane() {
    let d = ContactDispatcher::with_defaults();
    let ball = Shape::Ball { radius: 1000 };
    let plane = up_plane();
    let mut alg = d.get_contact_algorithm(&plane, &ball).unwrap();
    let mut ids = IdAllocator::new();
    let mut m = ContactManifold::new();
    assert!(run(&mut alg, &d, at(0, 0, 0), &plane, at(0, 800, 0), &ball, 0, &mut ids, &mut m));
    let c = m.contacts[0].contact;
    assert_eq!(c.depth, 200);
    assert_eq!(c.point_b, Vec3::new(0, -200, 0));
    assert_eq!(c.point_a, Vec3::new(0, 0, 0));
    assert_eq!(c.normal, Vec3::new(0, NORMAL_SCALE, 0));
}

#[test]
fn capsule_above_plane_then_touching() {
    let d = ContactDispatcher::with_defaults();
    let capsule = Shape::Capsule { a: Vec3::new(0, 0, 0), b: Vec3::new(0, 2000, 0), radius: 500 };
    let plane = up_plane();
    let mut alg = d.get_contact_algorithm(&capsule, &plane).unwrap();
    let mut ids = IdAllocator::new();
    let mut m = ContactManifold::new();
    assert!(!run(&mut alg, &d, at(0, 0, 0), &capsule, at(0, -1000, 0), &plane, 0, &mut ids, &mut m));
    assert_eq!(m.len(), 0);
    assert!(run(&mut alg, &d, at(0, -500, 0), &capsule, at(0, -1000, 0), &plane, 0, &mut ids, &mut m));
    assert_eq!(m.len(), 1);
    let c = m.contacts[0].contact;
    assert_eq!(c.depth, 0);
    assert_eq!(c.point_a, Vec3::new(0, -1000, 0));
    assert_eq!(c.point_b, Vec3::new(0, -1000, 0));
    assert_eq!(c.normal, Vec3::new(0, -NORMAL_SCALE, 0));
    assert_eq!(c.feature_a, FeatureId::Face(0));
    assert_eq!(c.feature_b, FeatureId::Face(0));
}

#[test]
fn capsule_depth_is_segment_depth_plus_radius() {
    let d = ContactDispatcher::with_defaults();
    let capsule = Shape::Capsule { a: Vec3::new(0, 0, 0), b: Vec3::new(3000, 0, 0), radius: 700 };
    let segment = Shape::Segment { a: Vec3::new(0, 0, 0), b: Vec3::new(3000, 0, 0) };
    let plane = up_plane();
    let mut ids = IdAllocator::new();
    let mut m1 = ContactManifold::new();
    let mut m2 = ContactManifold::new();
    let mut capsule_alg = d.get_contact_algorithm(&capsule, &plane).unwrap();
    let mut segment_alg = d.get_contact_algorithm(&segment, &plane).unwrap();
    assert!(run(&mut capsule_alg, &d, at(0, 400, 0), &capsule, at(0, 0, 0), &plane, 0, &mut ids, &mut m1));
    assert!(run(&mut segment_alg, &d, at(0, 400, 0), &segment, at(0, 0, 0), &plane, 700, &mut ids, &mut m2));
    let c = m1.contacts[0].contact;
    let s = m2.contacts[0].contact;
    assert_eq!(c.depth, s.depth + 700);
    assert_eq!(c.depth, 300);
    assert_eq!(s.point_a, Vec3::new(0, 400, 0));
    assert_eq!(c.point_a, Vec3::new(0, -300, 0));
}

#[test]
fn capsule_generator_caches_its_nested_algorithm() {
    let d = ContactDispatcher::with_defaults();
    let capsule = Shape::Capsule { a: Vec3::new(0, 0, 0), b: Vec3::new(0, 2000, 0), radius: 500 };
    let plane = up_plane();
    let mut alg = ContactAlgorithm::CapsuleShape(CapsuleShapeManifoldGenerator::new(true));
    let mut ids = IdAllocator::new();
    let mut m = ContactManifold::new();
    assert!(run(&mut alg, &d, at(0, 0, 0), &plane, at(0, 100, 0), &capsule, 0, &mut ids, &mut m));
    match &alg {
        ContactAlgorithm::CapsuleShape(g) => {
            assert!(g.flip);
            assert!(matches!(g.sub_detector.as_deref(), Some(ContactAlgorithm::PlaneConvex { flip: false })));
        }
        _ => panic!("not a capsule generator"),
    }
    assert_eq!(m.contacts[0].contact.depth, 400);
}

#[test]
fn capsule_on_the_wrong_side_gives_nothing() {
    let d = ContactDispatcher::with_defaults();
    let capsule = Shape::Capsule { a: Vec3::new(0, 0, 0), b: Vec3::new(0, 2000, 0), radius: 500 };
    let plane = up_plane();
    let mut alg = ContactAlgorithm::CapsuleShape(CapsuleShapeManifoldGenerator::new(false));
    let mut ids = IdAllocator::new();
    let mut m = ContactManifold::new();
    assert!(!run(&mut alg, &d, at(0, 0, 0), &plane, at(0, 100, 0), &capsule, 0, &mut ids, &mut m));
    assert_eq!(m.len(), 0);
    let kept = m.update_contact(&mut ids, sample(3, 4));
    assert!(!run(&mut alg, &d, at(0, 0, 0), &plane, at(0, 100, 0), &capsule, 0, &mut ids, &mut m));
    assert_eq!(m.len(), 1);
    assert_eq!(m.contacts[0].id, kept);
    assert_eq!(m.contacts[0].contact, sample(3, 4));
    assert_eq!(ids.next, 1);
    assert!(ids.free.is_empty());
    match &alg {
        ContactAlgorithm::CapsuleShape(g) => assert!(g.sub_detector.is_none()),
        _ => panic!("not a capsule generator"),
    }
}

#[test]
fn new_contact_takes_next_id_before_old_ones_are_released() {
    let d = ContactDispatcher::with_defaults();
    let plane = up_plane();
    let segment = Shape::Segment { a: Vec3::new(-500, 0, 0), b: Vec3::new(500, 100, 0) };
    let tilted = Shape::Segment { a: Vec3::new(-500, 100, 0), b: Vec3::new(500, 0, 0) };
    let mut alg = d.get_contact_algorithm(&plane, &segment).unwrap();
    let mut ids = IdAllocator::new();
    let mut m = ContactManifold::new();
    assert!(run(&mut alg, &d, at(0, 0, 0), &plane, at(0, -10, 0), &segment, 0, &mut ids, &mut m));
    assert_eq!(m.contacts[0].id, 0);
    assert_eq!(m.contacts[0].contact.feature_b, FeatureId::Vertex(0));
    assert!(run(&mut alg, &d, at(0, 0, 0), &plane, at(0, -10, 0), &tilted, 0, &mut ids, &mut m));
    assert_eq!(m.contacts[0].contact.feature_b, FeatureId::Vertex(1));
    assert_eq!(m.contacts[0].id, 1);
    assert_eq!(ids.free, vec![0]);
}

#[test]
fn fresh_runs_give_equal_ids() {
    let d = ContactDispatcher::with_defaults();
    let capsule = Shape::Capsule { a: Vec3::new(0, 0, 0), b: Vec3::new(0, 2000, 0), radius: 500 };
    let plane = up_plane();
    let mut ids1 = IdAllocator::new();
    let mut ids2 = IdAllocator::new();
    ids1.issue();
    ids2.issue();
    let mut m1 = ContactManifold::new();
    let mut m2 = ContactManifold::new();
    let mut g1 = ContactAlgorithm::CapsuleShape(CapsuleShapeManifoldGenerator::new(false));
    let mut g2 = ContactAlgorithm::CapsuleShape(CapsuleShapeManifoldGenerator::new(false));
    assert!(run(&mut g1, &d, at(0, 300, 0), &capsule, at(0, 0, 0), &plane, 0, &mut ids1, &mut m1));
    assert!(run(&mut g2, &d, at(0, 300, 0), &capsule, at(0, 0, 0), &plane, 0, &mut ids2, &mut m2));
    assert_eq!(m1.contacts, m2.contacts);
    assert_eq!(m1.contacts[0].id, 1);
}

#[test]
fn do_update_reduces_capsule_to_segment() {
    let d = ContactDispatcher::with_defaults();
    let plane = up_plane();
    let mut g = CapsuleShapeManifoldGenerator::new(false);
    let mut ids = IdAllocator::new();
    let mut m = ContactManifold::new();
    let found = g.do_update(
        &d,
        &at(0, 300, 0),
        Vec3::new(0, 0, 0),
        Vec3::new(0, 2000, 0),
        500,
        None,
        &at(0, 0, 0),
        &plane,
        None,
        &ContactPrediction::new(0),
        &mut ids,
        &mut m,
        false,
    );
    assert!(found);
    let c = m.contacts[0].contact;
    assert_eq!(c.depth, 200);
    assert_eq!(c.point_a, Vec3::new(0, -200, 0));
    assert_eq!(c.point_b, Vec3::new(0, 0, 0));
    assert!(g.sub_detector.is_some());
}

#[test]
fn flipped_plane_generator_mirrors_contact() {
    let d = ContactDispatcher::with_defaults();
    let ball = Shape::Ball { radius: 1000 };
    let plane = up_plane();
    let mut ab = d.get_contact_algorithm(&plane, &ball).unwrap();
    let mut ba = d.get_contact_algorithm(&ball, &plane).unwrap();
    let mut ids = IdAllocator::new();
    let mut m1 = ContactManifold::new();
    let mut m2 = ContactManifold::new();
    assert!(run(&mut ab, &d, at(0, 0, 0), &plane, at(300, 700, 0), &ball, 0, &mut ids, &mut m1));
    assert!(run(&mut ba, &d, at(300, 700, 0), &ball, at(0, 0, 0), &plane, 0, &mut ids, &mut m2));
    let c1 = m1.contacts[0].contact;
    let c2 = m2.contacts[0].contact;
    assert_eq!(c1.point_a, c2.point_b);
    assert_eq!(c1.point_b, c2.point_a);
    assert_eq!(c1.normal, Vec3::new(-c2.normal.x, -c2.normal.y, -c2.normal.z));
    assert_eq!(c1.depth, c2.depth);
    assert_eq!(c1.feature_a, c2.feature_b);
    assert_eq!(c1.feature_b, c2.feature_a);
}

#[test]
fn ball_pair_mirrors_when_swapped() {
    let d = ContactDispatcher::with_defaults();
    let a = Shape::Ball { radius: 1000 };
    let b = Shape::Ball { radius: 600 };
    let mut alg = d.get_contact_algorithm(&a, &b).unwrap();
    let mut ids = IdAllocator::new();
    let mut m1 = ContactManifold::new();
    let mut m2 = ContactManifold::new();
    assert!(run(&mut alg, &d, at(0, 0, 0), &a, at(900, 1200, 0), &b, 0, &mut ids, &mut m1));
    assert!(run(&mut alg, &d, at(900, 1200, 0), &b, at(0, 0, 0), &a, 0, &mut ids, &mut m2));
    let c1 = m1.contacts[0].contact;
    let c2 = m2.contacts[0].contact;
    assert_eq!(c1.depth, 100);
    assert_eq!(c1.normal, Vec3::new(39321, 52428, 0));
    assert_eq!(c1.point_a, c2.point_b);
    assert_eq!(c1.point_b, c2.point_a);
    assert_eq!(c2.normal, Vec3::new(-39321, -52428, 0));
}

#[test]
fn larger_margin_keeps_and_adds_contacts() {
    let d = ContactDispatcher::with_defaults();
    let ball = Shape::Ball { radius: 1000 };
    let mut ids = IdAllocator::new();
    let mut alg = d.get_contact_algorithm(&ball, &ball).unwrap();
    let mut m = ContactManifold::new();
    assert!(!run(&mut alg, &d, at(0, 0, 0), &ball, at(2300, 0, 0), &ball, 200, &mut ids, &mut m));
    assert!(run(&mut alg, &d, at(0, 0, 0), &ball, at(2300, 0, 0), &ball, 300, &mut ids, &mut m));
    assert_eq!(m.contacts[0].contact.depth, -300);
    assert!(run(&mut alg, &d, at(0, 0, 0), &ball, at(2300, 0, 0), &ball, 400, &mut ids, &mut m));
    assert_eq!(m.contacts[0].contact.depth, -300);
}

#[test]
fn fresh_algorithms_are_deterministic() {
    let d = ContactDispatcher::with_defaults();
    let capsule = Shape::Capsule { a: Vec3::new(-1000, 0, 0), b: Vec3::new(1000, 300, 0), radius: 250 };
    let plane = up_plane();
    let mut ids = IdAllocator::new();
    let mut m1 = ContactManifold::new();
    let mut m2 = ContactManifold::new();
    let mut a1 = d.get_contact_algorithm(&plane, &capsule).unwrap();
    let mut a2 = d.get_contact_algorithm(&plane, &capsule).unwrap();
    let r1 = run(&mut a1, &d, at(0, 0, 0), &plane, at(5, 100, 7), &capsule, 50, &mut ids, &mut m1);
    let r2 = run(&mut a2, &d, at(0, 0, 0), &plane, at(5, 100, 7), &capsule, 50, &mut ids, &mut m2);
    assert!(r1 && r2);
    assert_eq!(contacts_of(&m1), contacts_of(&m2));
    assert_eq!(m1.contacts[0].contact.feature_b, FeatureId::Face(0));
}

#[test]
fn segment_tie_picks_first_vertex() {
    let d = ContactDispatcher::with_defaults();
    let segment = Shape::Segment { a: Vec3::new(-500, 0, 0), b: Vec3::new(500, 0, 0) };
    let plane = up_plane();
    let mut alg = d.get_contact_algorithm(&plane, &segment).unwrap();
    let mut ids = IdAllocator::new();
    let mut m = ContactManifold::new();
    assert!(run(&mut alg, &d, at(0, 0, 0), &plane, at(0, -10, 0), &segment, 0, &mut ids, &mut m));
    let c = m.contacts[0].contact;
    assert_eq!(c.feature_b, FeatureId::Vertex(0));
    assert_eq!(c.point_b, Vec3::new(-500, -10, 0));
    assert_eq!(c.depth, 10);
}

#[test]
fn coincident_balls_use_default_normal() {
    let d = ContactDispatcher::with_defaults();
    let ball = Shape::Ball { radius: 100 };
    let mut alg = d.get_contact_algorithm(&ball, &ball).unwrap();
    let mut ids = IdAllocator::new();
    let mut m = ContactManifold::new();
    assert!(run(&mut alg, &d, at(5, 5, 5), &ball, at(5, 5, 5), &ball, 0, &mut ids, &mut m));
    let c = m.contacts[0].contact;
    assert_eq!(c.normal, Vec3::new(0, NORMAL_SCALE, 0));
    assert_eq!(c.depth, 200);
}

#[test]
fn unsupported_pair_has_no_algorithm() {
    let d = ContactDispatcher::with_defaults();
    let ball = Shape::Ball { radius: 100 };
    let segment = Shape::Segment { a: Vec3::new(0, 0, 0), b: Vec3::new(1, 0, 0) };
    assert!(d.get_contact_algorithm(&ball, &segment).is_none());
    assert!(d.get_contact_algorithm(&up_plane(), &up_plane()).is_none());
    assert_eq!(d.generator_for(ShapeKind::Plane, ShapeKind::Capsule), Some(GeneratorKind::ShapeCapsule));
}

#[test]
fn later_registration_wins() {
    let mut d = ContactDispatcher::new();
    assert_eq!(d.generator_for(ShapeKind::Capsule, ShapeKind::Capsule), None);
    d.register(ShapeKind::Capsule, ShapeKind::Capsule, GeneratorKind::CapsuleShape);
    assert_eq!(d.generator_for(ShapeKind::Capsule, ShapeKind::Capsule), Some(GeneratorKind::CapsuleShape));
    d.register(ShapeKind::Capsule, ShapeKind::Capsule, GeneratorKind::ShapeCapsule);
    assert_eq!(d.generator_for(ShapeKind::Capsule, ShapeKind::Capsule), Some(GeneratorKind::ShapeCapsule));
    assert_eq!(d.generator_for(ShapeKind::Ball, ShapeKind::Ball), None);
}

#[test]
fn wrong_shapes_for_algorithm_clear_manifold() {
    let d = ContactDispatcher::with_defaults();
    let ball = Shape::Ball { radius: 1000 };
    let mut alg = ContactAlgorithm::BallBall;
    let mut ids = IdAllocator::new();
    let mut m = ContactManifold::new();
    assert!(run(&mut alg, &d, at(0, 0, 0), &ball, at(100, 0, 0), &ball, 0, &mut ids, &mut m));
    assert!(!run(&mut alg, &d, at(0, 0, 0), &up_plane(), at(100, 0, 0), &ball, 0, &mut ids, &mut m));
    assert_eq!(m.len(), 0);
    assert_eq!(ids.free, vec![0]);
}

#[test]
fn allocator_reissues_released_ids() {
    let mut ids = IdAllocator::new();
    assert_eq!(ids.issue(), 0);
    assert_eq!(ids.issue(), 1);
    assert_eq!(ids.issue(), 2);
    ids.release(1);
    ids.release(0);
    assert_eq!(ids.issue(), 0);
    assert_eq!(ids.issue(), 1);
    assert_eq!(ids.issue(), 3);
}

fn sample(fa: u32, depth: i64) -> Contact {
    Contact {
        point_a: Vec3::new(0, 0, 0),
        point_b: Vec3::new(1, 1, 1),
        normal: Vec3::new(0, NORMAL_SCALE, 0),
        depth,
        feature_a: FeatureId::Vertex(fa),
        feature_b: FeatureId::Face(0),
    }
}

#[test]
fn manifold_update_keeps_id_for_same_features() {
    let mut ids = IdAllocator::new();
    let mut m = ContactManifold::new();
    let first = m.update_contact(&mut ids, sample(0, 5));
    let second = m.update_contact(&mut ids, sample(1, 6));
    assert_ne!(first, second);
    let again = m.update_contact(&mut ids, sample(0, 9));
    assert_eq!(again, first);
    assert_eq!(m.len(), 2);
    assert_eq!(m.contacts[0].contact.depth, 9);
    assert_eq!(m.find_features(FeatureId::Vertex(1), FeatureId::Face(0)), Some(1));
    assert_eq!(m.find_features(FeatureId::Vertex(2), FeatureId::Face(0)), None);
}

#[test]
fn manifold_remove_releases_id() {
    let mut ids = IdAllocator::new();
    let mut m = ContactManifold::new();
    let first = m.update_contact(&mut ids, sample(0, 5));
    let _second = m.update_contact(&mut ids, sample(1, 6));
    assert!(m.remove_contact(&mut ids, first));
    assert!(!m.remove_contact(&mut ids, first));
    assert_eq!(m.len(), 1);
    let third = m.update_contact(&mut ids, sample(2, 7));
    assert_eq!(third, first);
    m.clear(&mut ids);
    assert_eq!(m.len(), 0);
    assert_eq!(ids.free.len(), 2);
}

#[test]
fn keep_single_keeps_matching_id() {
    let mut ids = IdAllocator::new();
    let mut m = ContactManifold::new();
    let _a = m.update_contact(&mut ids, sample(0, 5));
    let b = m.update_contact(&mut ids, sample(1, 6));
    let kept = m.keep_single(&mut ids, sample(1, 8));
    assert_eq!(kept, b);
    assert_eq!(m.len(), 1);
    assert_eq!(ids.free, vec![0]);
}

#[test]
fn preprocessor_inflates_both_sides() {
    let d = ContactDispatcher::with_defaults();
    let ball = Shape::Ball { radius: 1000 };
    let mut alg = d.get_contact_algorithm(&ball, &ball).unwrap();
    let mut ids = IdAllocator::new();
    let mut m = ContactManifold::new();
    let pa = ContactPreprocessor { radius: 100 };
    let pb = ContactPreprocessor { radius: 50 };
    assert!(alg.generate_contacts(&d, &at(0, 0, 0), &ball, Some(pa), &at(2100, 0, 0), &ball, Some(pb), &ContactPrediction::new(200), &mut ids, &mut m));
    let c = m.contacts[0].contact;
    assert_eq!(c.depth, 50);
    assert_eq!(c.point_a, Vec3::new(1100, 0, 0));
    assert_eq!(c.point_b, Vec3::new(1050, 0, 0));
}

#[test]
fn integer_square_root_and_unit() {
    assert_eq!(isqrt(0), 0);
    assert_eq!(isqrt(24), 4);
    assert_eq!(isqrt(25), 5);
    assert_eq!(isqrt(2250000), 1500);
    assert_eq!(unit(Vec3::new(3000, -4000, 0)), Vec3::new(39321, -52428, 0));
}

#[test]
fn prediction_accessors() {
    let mut p = ContactPrediction::new(10);
    assert_eq!(p.linear(), 10);
    p.set_linear(25);
    assert_eq!(p.linear(), 25);
}

fn cube(half: i64) -> Shape {
    let mut vertices = Vec::new();
    for &x in &[-half, half] {
        for &y in &[-half, half] {
            for &z in &[-half, half] {
                vertices.push(Vec3::new(x, y, z));
            }
        }
    }
    Shape::Polyhedron { vertices }
}

#[test]
fn polyhedron_on_plane_uses_lowest_tied_vertex() {
    let d = ContactDispatcher::with_defaults();
    let plane = up_plane();
    let shape = cube(500);
    let mut alg = d.get_contact_algorithm(&plane, &shape).unwrap();
    let mut ids = IdAllocator::new();
    let mut m = ContactManifold::new();
    assert!(run(&mut alg, &d, at(0, 0, 0), &plane, at(0, 450, 0), &shape, 0, &mut ids, &mut m));
    let c = m.contacts[0].contact;
    assert_eq!(c.feature_b, FeatureId::Vertex(0));
    assert_eq!(c.point_b, Vec3::new(-500, -50, -500));
    assert_eq!(c.point_a, Vec3::new(-500, 0, -500));
    assert_eq!(c.depth, 50);
}

#[test]
fn polyhedron_picks_deepest_vertex() {
    let shape = Shape::Polyhedron {
        vertices: vec![Vec3::new(0, 10, 0), Vec3::new(5, -30, 0), Vec3::new(9, -30, 1), Vec3::new(2, 40, 0)],
    };
    let c = plane_convex(at(0, 0, 0), Vec3::new(0, NORMAL_SCALE, 0), at(100, 0, 0), &shape).unwrap();
    assert_eq!(c.feature_b, FeatureId::Vertex(1));
    assert_eq!(c.point_b, Vec3::new(105, -30, 0));
    assert_eq!(c.depth, 30);
}

#[test]
fn polyhedron_above_plane_and_flipped() {
    let d = ContactDispatcher::with_defaults();
    let plane = up_plane();
    let shape = cube(500);
    let mut alg = d.get_contact_algorithm(&shape, &plane).unwrap();
    let mut ids = IdAllocator::new();
    let mut m = ContactManifold::new();
    assert!(!run(&mut alg, &d, at(0, 700, 0), &shape, at(0, 0, 0), &plane, 100, &mut ids, &mut m));
    assert!(run(&mut alg, &d, at(0, 550, 0), &shape, at(0, 0, 0), &plane, 100, &mut ids, &mut m));
    let c = m.contacts[0].contact;
    assert_eq!(c.depth, -50);
    assert_eq!(c.feature_a, FeatureId::Vertex(0));
    assert_eq!(c.normal, Vec3::new(0, -NORMAL_SCALE, 0));
}

#[test]
fn ball_against_tilted_plane() {
    let d = ContactDispatcher::with_defaults();
    let plane = Shape::Plane { normal: Vec3::new(46341, 46341, 0) };
    let ball = Shape::Ball { radius: 1000 };
    let mut alg = d.get_contact_algorithm(&plane, &ball).unwrap();
    let mut ids = IdAllocator::new();
    let mut m = ContactManifold::new();
    assert!(run(&mut alg, &d, at(0, 0, 0), &plane, at(1000, 1000, 0), &ball, 500, &mut ids, &mut m));
    let c = m.contacts[0].contact;
    assert_eq!(c.depth, -414);
    assert_eq!(c.point_b, Vec3::new(293, 293, 0));
    assert_eq!(c.point_a, Vec3::new(1, 1, 0));
    assert!(!run(&mut alg, &d, at(0, 0, 0), &plane, at(1000, 1000, 0), &ball, 400, &mut ids, &mut m));
}

#[test]
fn capsule_side_feature_is_relabelled() {
    let d = ContactDispatcher::with_defaults();
    let capsule = Shape::Capsule { a: Vec3::new(0, 2000, 0), b: Vec3::new(0, 0, 0), radius: 500 };
    let segment = Shape::Segment { a: Vec3::new(0, 2000, 0), b: Vec3::new(0, 0, 0) };
    let plane = up_plane();
    let mut ids = IdAllocator::new();
    let mut m1 = ContactManifold::new();
    let mut m2 = ContactManifold::new();
    let mut capsule_alg = d.get_contact_algorithm(&plane, &capsule).unwrap();
    let mut segment_alg = d.get_contact_algorithm(&plane, &segment).unwrap();
    assert!(run(&mut capsule_alg, &d, at(0, 0, 0), &plane, at(0, 100, 0), &capsule, 0, &mut ids, &mut m1));
    assert!(run(&mut segment_alg, &d, at(0, 0, 0), &plane, at(0, 100, 0), &segment, 500, &mut ids, &mut m2));
    let c = m1.contacts[0].contact;
    let s = m2.contacts[0].contact;
    assert_eq!(s.feature_b, FeatureId::Vertex(1));
    assert_eq!(c.feature_b, FeatureId::Face(1));
    assert_eq!(c.feature_a, FeatureId::Face(0));
    assert_eq!(c.depth, s.depth + 500);
    assert_eq!(c.point_b, Vec3::new(0, -400, 0));
    assert_eq!(s.point_b, Vec3::new(0, 100, 0));
}
