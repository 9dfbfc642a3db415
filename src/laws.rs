use vstd::prelude::*;
use crate::algorithm::{
    after_update, applied, nested_algorithm, outcome, pair_count, ContactAlgorithm,
    CapsuleShapeManifoldGenerator,
};
use crate::algorithm::{finish, inputs_ok, swapped_opt, untouched};
use crate::ids::IdAllocator;
use crate::dispatch::{
    algorithm_for, all_fit, default_registrations, fresh, lemma_lookup_fits, lookup,
    GeneratorKind, Registration,
};
use crate::generators::{ball_ball_contact, plane_convex_contact};
use crate::geometry::{
    floor_sqrt, is_floor_sqrt, lemma_coord_below_length, lemma_trunc_div_bound,
    lemma_trunc_div_neg, norm2, offset, trunc_div, unit_of, vneg, vsub, Vec3,
    COORD_LIMIT, NORMAL_SCALE,
};
use crate::shape::{rounded_feature, swapped};
use crate::manifold::{same_features, Contact, TrackedContact};
use crate::shape::{preprocessed, ContactPreprocessor, Placement, Shape, ShapeKind};

verus! {

/// Two updates of the same algorithm on the same inputs, from equal
/// manifolds and equal allocators, leave equal manifolds (the same contacts,
/// in the same order, under the same identifiers) and the same live
/// identifiers.
pub proof fn lemma_deterministic(
    alg: ContactAlgorithm,
    regs: Seq<Registration>,
    pa: Placement,
    sa: Shape,
    proc_a: Option<ContactPreprocessor>,
    pb: Placement,
    sb: Shape,
    proc_b: Option<ContactPreprocessor>,
    margin: int,
    before: Seq<TrackedContact>,
    ids0: IdAllocator,
    after1: Seq<TrackedContact>,
    ids1: IdAllocator,
    after2: Seq<TrackedContact>,
    ids2: IdAllocator,
)
    requires
        applied(outcome(alg, regs, pa, sa, proc_a, pb, sb, proc_b, margin), before, after1, ids0, ids1),
        applied(outcome(alg, regs, pa, sa, proc_a, pb, sb, proc_b, margin), before, after2, ids0, ids2),
    ensures
        after1 == after2,
        forall|k: usize| #[trigger] ids1.is_live(k) == ids2.is_live(k),
{
    match outcome(alg, regs, pa, sa, proc_a, pb, sb, proc_b, margin) {
        Some(c) => {
            if exists|i: int| 0 <= i < before.len() && same_features(#[trigger] before[i], c) {
                let i = choose|i: int| 0 <= i < before.len() && same_features(#[trigger] before[i], c);
                assert(after1[0].id == before[i].id && after2[0].id == before[i].id);
            } else {
                assert forall|i: int| 0 <= i < before.len() implies !same_features(#[trigger] before[i], c) by {}
            }
            assert(after1[0] == after2[0]);
            assert(after1 =~= after2);
        },
        None => {
            assert(after1 =~= after2);
        },
    }
    assert forall|k: usize| #[trigger] ids1.is_live(k) == ids2.is_live(k) by {
        assert(ids1.is_live(k) == ids2.is_live(k));
    }
}

/// Over two successive updates of one algorithm, a contact that both find
/// with the same features keeps its identifier.
pub proof fn lemma_id_persists(
    alg: ContactAlgorithm,
    regs: Seq<Registration>,
    pa1: Placement,
    pb1: Placement,
    pa2: Placement,
    pb2: Placement,
    sa: Shape,
    proc_a: Option<ContactPreprocessor>,
    sb: Shape,
    proc_b: Option<ContactPreprocessor>,
    margin: int,
    m0: Seq<TrackedContact>,
    ids0: IdAllocator,
    m1: Seq<TrackedContact>,
    ids1: IdAllocator,
    m2: Seq<TrackedContact>,
    ids2: IdAllocator,
)
    requires
        applied(outcome(alg, regs, pa1, sa, proc_a, pb1, sb, proc_b, margin), m0, m1, ids0, ids1),
        applied(
            outcome(after_update(alg, regs, sa, sb), regs, pa2, sa, proc_a, pb2, sb, proc_b, margin),
            m1,
            m2,
            ids1,
            ids2,
        ),
        outcome(alg, regs, pa1, sa, proc_a, pb1, sb, proc_b, margin) matches Some(c1)
            && outcome(after_update(alg, regs, sa, sb), regs, pa2, sa, proc_a, pb2, sb, proc_b, margin) matches Some(c2)
            && c1.feature_a == c2.feature_a && c1.feature_b == c2.feature_b,
    ensures
        m1.len() == 1 && m2.len() == 1,
        m2[0].id == m1[0].id,
{
    let c2 = outcome(after_update(alg, regs, sa, sb), regs, pa2, sa, proc_a, pb2, sb, proc_b, margin).unwrap();
    assert(same_features(m1[0], c2));
}

/// Two balls always report their contact with the same pair of features, so
/// successive updates that both find it keep one identifier.
pub proof fn lemma_ball_contact_features(
    regs: Seq<Registration>,
    pa: Placement,
    sa: Shape,
    proc_a: Option<ContactPreprocessor>,
    pb: Placement,
    sb: Shape,
    proc_b: Option<ContactPreprocessor>,
    margin: int,
)
    requires
        outcome(ContactAlgorithm::BallBall, regs, pa, sa, proc_a, pb, sb, proc_b, margin) is Some,
    ensures
        outcome(ContactAlgorithm::BallBall, regs, pa, sa, proc_a, pb, sb, proc_b, margin) matches Some(c)
            && c.feature_a == crate::manifold::FeatureId::Face(0) && c.feature_b
            == crate::manifold::FeatureId::Face(0),
{
}

/// A larger margin keeps every contact that a smaller one found, unchanged.
pub proof fn lemma_margin_monotone(
    alg: ContactAlgorithm,
    regs: Seq<Registration>,
    pa: Placement,
    sa: Shape,
    proc_a: Option<ContactPreprocessor>,
    pb: Placement,
    sb: Shape,
    proc_b: Option<ContactPreprocessor>,
    margin: int,
    larger: int,
)
    requires
        margin <= larger,
        outcome(alg, regs, pa, sa, proc_a, pb, sb, proc_b, margin) is Some,
    ensures
        outcome(alg, regs, pa, sa, proc_a, pb, sb, proc_b, larger) == outcome(
            alg,
            regs,
            pa,
            sa,
            proc_a,
            pb,
            sb,
            proc_b,
            margin,
        ),
    decreases pair_count(sa, sb),
{
    match alg {
        ContactAlgorithm::CapsuleShape(g) => {
            if !g.flip {
                match sa {
                    Shape::Capsule { a, b, radius } => {
                        let seg = Shape::Segment { a, b };
                        let n = nested_algorithm(g, regs, ShapeKind::Segment, sb.kind_of()).unwrap();
                        let ps = Some(crate::algorithm::inflate(proc_a, radius as int));
                        lemma_margin_monotone(n, regs, pa, seg, ps, pb, sb, proc_b, margin + radius, larger + radius);
                    },
                    _ => {},
                }
            } else {
                match sb {
                    Shape::Capsule { a, b, radius } => {
                        let seg = Shape::Segment { a, b };
                        let n = nested_algorithm(g, regs, sa.kind_of(), ShapeKind::Segment).unwrap();
                        let ps = Some(crate::algorithm::inflate(proc_b, radius as int));
                        lemma_margin_monotone(n, regs, pa, sa, proc_a, pb, seg, ps, margin + radius, larger + radius);
                    },
                    _ => {},
                }
            }
        },
        _ => {},
    }
}

/// The contact `c` is `s` with the capsule's side inflated by `radius`: on
/// side `a` unless `flip`, else on side `b`. The depth grows by `radius`, the
/// capsule's point moves out by `radius` along the normal onto the capsule's
/// surface, its feature becomes the capsule's rounded feature, and the other
/// side is unchanged.
pub open spec fn capsule_side_inflated(c: Contact, s: Contact, radius: int, flip: bool) -> bool {
    &&& c.depth == (s.depth + radius) as i64
    &&& c.normal == s.normal
    &&& if !flip {
        &&& c.point_a == offset(s.point_a, s.normal, radius)
        &&& c.feature_a == rounded_feature(s.feature_a)
        &&& c.point_b == s.point_b && c.feature_b == s.feature_b
    } else {
        &&& c.point_b == offset(s.point_b, vneg(s.normal), radius)
        &&& c.feature_b == rounded_feature(s.feature_b)
        &&& c.point_a == s.point_a && c.feature_a == s.feature_a
    }
}

/// Finishing a raw contact with a preprocessor of `radius` on one side is
/// finishing it without one, then inflating that side.
proof fn lemma_finish_inflated(raw: Option<Contact>, margin: int, radius: i64, flip: bool)
    ensures
        ({
            let p = Some(ContactPreprocessor { radius });
            let with = if flip { finish(raw, margin, None, p) } else { finish(raw, margin, p, None) };
            let without = finish(raw, margin, None, None);
            match (with, without) {
                (Some(c), Some(s)) => capsule_side_inflated(c, s, radius as int, flip),
                (None, None) => true,
                _ => false,
            }
        }),
{
    assert(0int / (NORMAL_SCALE as int) == 0);
    assert forall|p: Vec3, m: Vec3| #[trigger] offset(p, m, 0) == p by {
        assert(m.x * 0 == 0 && m.y * 0 == 0 && m.z * 0 == 0);
    }
}

/// Between a capsule `(a, b, radius)` placed at `pc` and another shape placed
/// at `po`, a capsule generator whose nested algorithm is not itself a capsule
/// generator reports what that algorithm reports for the core segment with
/// the margin inflated by `radius`, with the capsule's side inflated by
/// `radius` (`capsule_side_inflated`). The capsule is the first shape unless
/// the generator is flipped.
pub proof fn lemma_capsule_reduction(
    g: CapsuleShapeManifoldGenerator,
    regs: Seq<Registration>,
    pc: Placement,
    a: Vec3,
    b: Vec3,
    radius: i64,
    po: Placement,
    other: Shape,
    margin: int,
)
    requires
        reduction_nested(g, regs, other) matches Some(n) && !(n is CapsuleShape),
    ensures
        ({
            let n = reduction_nested(g, regs, other).unwrap();
            let cap = Shape::Capsule { a, b, radius };
            let seg = Shape::Segment { a, b };
            let capsule = if !g.flip {
                outcome(ContactAlgorithm::CapsuleShape(g), regs, pc, cap, None, po, other, None, margin)
            } else {
                outcome(ContactAlgorithm::CapsuleShape(g), regs, po, other, None, pc, cap, None, margin)
            };
            let core = if !g.flip {
                outcome(n, regs, pc, seg, None, po, other, None, margin + radius)
            } else {
                outcome(n, regs, po, other, None, pc, seg, None, margin + radius)
            };
            match (capsule, core) {
                (Some(c), Some(s)) => capsule_side_inflated(c, s, radius as int, g.flip),
                (None, None) => true,
                _ => false,
            }
        }),
{
    let n = reduction_nested(g, regs, other).unwrap();
    let cap = Shape::Capsule { a, b, radius };
    let seg = Shape::Segment { a, b };
    let ps = Some(ContactPreprocessor { radius });
    let m2 = margin + radius;
    assert(crate::algorithm::inflate(None, radius as int) == ContactPreprocessor { radius });
    let (xa, sa, qa, xb, sb, qb) = if !g.flip {
        (pc, seg, ps, po, other, None)
    } else {
        (po, other, None, pc, seg, ps)
    };
    if !g.flip {
        assert(outcome(ContactAlgorithm::CapsuleShape(g), regs, pc, cap, None, po, other, None, margin)
            == crate::algorithm::capsule_outcome(g, regs, pc, cap, None, po, other, None, margin));
        assert(crate::algorithm::capsule_outcome(g, regs, pc, cap, None, po, other, None, margin)
            == crate::algorithm::reduced_outcome(g, regs, pc, a, b, radius as int, None, po, other, None, margin, false));
        assert(crate::algorithm::reduced_outcome(g, regs, pc, a, b, radius as int, None, po, other, None, margin, false)
            == outcome(n, regs, xa, sa, qa, xb, sb, qb, m2));
    } else {
        assert(outcome(ContactAlgorithm::CapsuleShape(g), regs, po, other, None, pc, cap, None, margin)
            == crate::algorithm::capsule_outcome(g, regs, po, other, None, pc, cap, None, margin));
        assert(crate::algorithm::capsule_outcome(g, regs, po, other, None, pc, cap, None, margin)
            == crate::algorithm::reduced_outcome(g, regs, pc, a, b, radius as int, None, po, other, None, margin, true));
        assert(crate::algorithm::reduced_outcome(g, regs, pc, a, b, radius as int, None, po, other, None, margin, true)
            == outcome(n, regs, xa, sa, qa, xb, sb, qb, m2));
    }
    let raw: Option<Contact> = match n {
        ContactAlgorithm::BallBall => match (sa, sb) {
            (Shape::Ball { radius: ra }, Shape::Ball { radius: rb }) => Some(
                ball_ball_contact(xa.translation, ra as int, xb.translation, rb as int),
            ),
            _ => None,
        },
        ContactAlgorithm::PlaneConvex { flip } => if !flip {
            match sa {
                Shape::Plane { normal } => plane_convex_contact(xa, normal, xb, sb),
                _ => None,
            }
        } else {
            match sb {
                Shape::Plane { normal } => swapped_opt(plane_convex_contact(xb, normal, xa, sa)),
                _ => None,
            }
        },
        _ => None,
    };
    assert(outcome(n, regs, xa, sa, qa, xb, sb, qb, m2) == finish(raw, m2, qa, qb));
    assert(outcome(n, regs, xa, sa, None, xb, sb, None, m2) == finish(raw, m2, None, None));
    lemma_finish_inflated(raw, m2, radius, g.flip);
}

/// The algorithm that a capsule generator delegates to for its core segment
/// and `other`, in the order that its `flip` gives.
pub open spec fn reduction_nested(
    g: CapsuleShapeManifoldGenerator,
    regs: Seq<Registration>,
    other: Shape,
) -> Option<ContactAlgorithm> {
    if g.flip {
        nested_algorithm(g, regs, other.kind_of(), ShapeKind::Segment)
    } else {
        nested_algorithm(g, regs, ShapeKind::Segment, other.kind_of())
    }
}

/// The generator kind registered for the mirrored pair of kinds.
pub open spec fn mirror_kind(g: GeneratorKind) -> GeneratorKind {
    match g {
        GeneratorKind::BallBall => GeneratorKind::BallBall,
        GeneratorKind::PlaneConvex => GeneratorKind::ConvexPlane,
        GeneratorKind::ConvexPlane => GeneratorKind::PlaneConvex,
        GeneratorKind::CapsuleShape => GeneratorKind::ShapeCapsule,
        GeneratorKind::ShapeCapsule => GeneratorKind::CapsuleShape,
    }
}

/// Every pair has the mirrored generator registered for the mirrored pair.
pub open spec fn symmetric_registry(regs: Seq<Registration>) -> bool {
    forall|ka: ShapeKind, kb: ShapeKind|
        #[trigger] lookup(regs, kb, ka) == match lookup(regs, ka, kb) {
            Some(g) => Some(mirror_kind(g)),
            None => None,
        }
}

/// An algorithm that has not been updated yet.
pub open spec fn is_fresh(alg: ContactAlgorithm) -> bool {
    alg matches ContactAlgorithm::CapsuleShape(g) ==> g.sub_detector is None
}

/// The fresh algorithm for the same pair of shapes in the other order.
pub open spec fn mirrored(alg: ContactAlgorithm) -> ContactAlgorithm {
    match alg {
        ContactAlgorithm::BallBall => ContactAlgorithm::BallBall,
        ContactAlgorithm::PlaneConvex { flip } => ContactAlgorithm::PlaneConvex { flip: !flip },
        ContactAlgorithm::CapsuleShape(g) => ContactAlgorithm::CapsuleShape(
            CapsuleShapeManifoldGenerator { sub_detector: None, flip: !g.flip },
        ),
    }
}

/// The registry that `ContactDispatcher::with_defaults` builds is symmetric.
pub proof fn lemma_default_registry_symmetric()
    ensures
        symmetric_registry(default_registrations()),
{
    reveal_with_fuel(lookup, 10);
    assert forall|ka: ShapeKind, kb: ShapeKind|
        #[trigger] lookup(default_registrations(), kb, ka) == match lookup(
            default_registrations(),
            ka,
            kb,
        ) {
            Some(g) => Some(mirror_kind(g)),
            None => None,
        } by {
        let r = default_registrations();
        assert(r.drop_last().drop_last().drop_last().drop_last().drop_last().drop_last().drop_last().drop_last().drop_last().len() == 0);
    }
}

pub proof fn lemma_floor_sqrt_exists(n: int)
    requires
        n >= 0,
    ensures
        is_floor_sqrt(n, floor_sqrt(n)),
    decreases n,
{
    if n == 0 {
        assert(is_floor_sqrt(0, 0));
    } else {
        lemma_floor_sqrt_exists(n - 1);
        let r = floor_sqrt(n - 1);
        if (r + 1) * (r + 1) <= n {
            assert((r + 2) * (r + 2) > n) by (nonlinear_arith)
                requires
                    (r + 1) * (r + 1) > n - 1,
                    r >= 0,
            ;
            assert(is_floor_sqrt(n, r + 1));
        } else {
            assert(is_floor_sqrt(n, r));
        }
    }
}

/// Exchanging the sides twice gives back the contact.
pub proof fn lemma_swap_twice(c: Contact)
    requires
        c.normal.bounded(NORMAL_SCALE as int),
    ensures
        swapped(swapped(c)) == c,
{
}

/// Preprocessing and exchanging the sides commute.
pub proof fn lemma_swap_preprocessed(
    c: Contact,
    p: Option<ContactPreprocessor>,
    q: Option<ContactPreprocessor>,
)
    requires
        c.normal.bounded(NORMAL_SCALE as int),
    ensures
        swapped(preprocessed(c, p, q)) == preprocessed(swapped(c), q, p),
{
    assert(vneg(vneg(c.normal)) == c.normal);
}

/// The unit normal of a reversed vector is the reversed unit normal.
proof fn lemma_unit_of_neg(d: Vec3)
    requires
        d.bounded(2 * COORD_LIMIT),
        !d.is_zero(),
    ensures
        unit_of(vneg(d)) == vneg(unit_of(d)),
        unit_of(d).bounded(NORMAL_SCALE as int),
{
    let e = vneg(d);
    assert(norm2(e) == norm2(d)) by (nonlinear_arith)
        requires
            e.x == -d.x,
            e.y == -d.y,
            e.z == -d.z,
    ;
    let n = norm2(d);
    assert(d.x * d.x >= 0 && d.y * d.y >= 0 && d.z * d.z >= 0) by (nonlinear_arith);
    lemma_floor_sqrt_exists(n);
    let l = floor_sqrt(n);
    assert(n > 0) by (nonlinear_arith)
        requires
            d.x != 0 || d.y != 0 || d.z != 0,
            n == d.x * d.x + d.y * d.y + d.z * d.z,
    ;
    assert(is_floor_sqrt(n, l));
    if l == 0 {
        assert((l + 1) * (l + 1) == 1) by (nonlinear_arith)
            requires
                l == 0,
        ;
        assert(n < 1);
    }
    let s = NORMAL_SCALE as int;
    assert forall|c: int| c * c <= n implies #[trigger] trunc_div(c * s, l) == -trunc_div(-c * s, l) && -s <= trunc_div(c * s, l) <= s by {
        if c * c <= n {
            lemma_coord_below_length(c, n, l);
            assert(-(s * l) <= c * s <= s * l) by (nonlinear_arith)
                requires
                    -l <= c <= l,
                    s > 0,
            ;
            lemma_trunc_div_bound(c * s, l, s);
            assert(-c * s == -(c * s)) by (nonlinear_arith);
            lemma_trunc_div_neg(c * s, l);
        }
    }
    assert(d.x * d.x <= n && d.y * d.y <= n && d.z * d.z <= n);
    assert(trunc_div(d.x * s, l) == -trunc_div(-d.x * s, l));
    assert(trunc_div(d.y * s, l) == -trunc_div(-d.y * s, l));
    assert(trunc_div(d.z * s, l) == -trunc_div(-d.z * s, l));
    assert(e.x == -d.x && e.y == -d.y && e.z == -d.z);
}

/// Two balls seen in the other order give the contact with its sides
/// exchanged, unless their centres coincide.
pub proof fn lemma_ball_pair_swap(ca: Vec3, ra: int, cb: Vec3, rb: int)
    requires
        ca.bounded(COORD_LIMIT as int),
        cb.bounded(COORD_LIMIT as int),
        ca != cb,
    ensures
        ball_ball_contact(cb, rb, ca, ra) == swapped(ball_ball_contact(ca, ra, cb, rb)),
        ball_ball_contact(ca, ra, cb, rb).normal.bounded(NORMAL_SCALE as int),
{
    let d = vsub(cb, ca);
    let e = vsub(ca, cb);
    assert(e == vneg(d));
    assert(!d.is_zero());
    lemma_unit_of_neg(d);
    assert(norm2(e) == norm2(d)) by (nonlinear_arith)
        requires
            e.x == -d.x,
            e.y == -d.y,
            e.z == -d.z,
    ;
    let n = unit_of(d);
    assert(vneg(vneg(n)) == n);
}

/// Seen in the other order, by the mirrored fresh algorithm of a symmetric
/// registry, a pair gives the same contact with its sides exchanged: points,
/// features and preprocessors change places and the normal turns around. Two
/// balls with coincident centres are left out: both orders then use the same
/// fixed normal.
pub proof fn lemma_flip_symmetry(
    alg: ContactAlgorithm,
    regs: Seq<Registration>,
    pa: Placement,
    sa: Shape,
    proc_a: Option<ContactPreprocessor>,
    pb: Placement,
    sb: Shape,
    proc_b: Option<ContactPreprocessor>,
    margin: int,
)
    requires
        symmetric_registry(regs),
        is_fresh(alg),
        inputs_ok(pa, sa, proc_a, pb, sb, proc_b, margin),
        !(sa is Ball && sb is Ball && pa.translation == pb.translation),
    ensures
        outcome(alg, regs, pa, sa, proc_a, pb, sb, proc_b, margin) == swapped_opt(
            outcome(mirrored(alg), regs, pb, sb, proc_b, pa, sa, proc_a, margin),
        ),
    decreases pair_count(sa, sb),
{
    match alg {
        ContactAlgorithm::BallBall => {
            match (sa, sb) {
                (Shape::Ball { radius: ra }, Shape::Ball { radius: rb }) => {
                    let c = ball_ball_contact(pa.translation, ra as int, pb.translation, rb as int);
                    lemma_ball_pair_swap(pa.translation, ra as int, pb.translation, rb as int);
                    lemma_swap_preprocessed(swapped(c), proc_b, proc_a);
                    lemma_swap_twice(c);
                },
                _ => {},
            }
        },
        ContactAlgorithm::PlaneConvex { flip } => {
            if !flip {
                match sa {
                    Shape::Plane { normal } => {
                        match crate::generators::plane_convex_contact(pa, normal, pb, sb) {
                            Some(c) => {
                                lemma_swap_preprocessed(swapped(c), proc_b, proc_a);
                                lemma_swap_twice(c);
                            },
                            None => {},
                        }
                    },
                    _ => {},
                }
            } else {
                match sb {
                    Shape::Plane { normal } => {
                        match crate::generators::plane_convex_contact(pb, normal, pa, sa) {
                            Some(c) => {
                                lemma_swap_preprocessed(c, proc_b, proc_a);
                            },
                            None => {},
                        }
                    },
                    _ => {},
                }
            }
        },
        ContactAlgorithm::CapsuleShape(g) => {
            let h = CapsuleShapeManifoldGenerator { sub_detector: None, flip: !g.flip };
            if !g.flip {
                match sa {
                    Shape::Capsule { a, b, radius } => {
                        let seg = Shape::Segment { a, b };
                        let ps = Some(crate::algorithm::inflate(proc_a, radius as int));
                        assert(lookup(regs, sb.kind_of(), ShapeKind::Segment) == match lookup(regs, ShapeKind::Segment, sb.kind_of()) {
                            Some(k) => Some(mirror_kind(k)),
                            None => None,
                        });
                        match algorithm_for(regs, ShapeKind::Segment, sb.kind_of()) {
                            Some(n) => {
                                lemma_flip_symmetry(n, regs, pa, seg, ps, pb, sb, proc_b, margin + radius);
                                let k = lookup(regs, ShapeKind::Segment, sb.kind_of()).unwrap();
                                assert(mirrored(fresh(k)) == fresh(mirror_kind(k)));
                                assert(crate::algorithm::capsule_outcome(h, regs, pb, sb, proc_b, pa, sa, proc_a, margin)
                                    == crate::algorithm::reduced_outcome(h, regs, pa, a, b, radius as int, proc_a, pb, sb, proc_b, margin, true));
                            },
                            None => {
                                assert(crate::algorithm::capsule_outcome(h, regs, pb, sb, proc_b, pa, sa, proc_a, margin)
                                    == crate::algorithm::reduced_outcome(h, regs, pa, a, b, radius as int, proc_a, pb, sb, proc_b, margin, true));
                            },
                        }
                    },
                    _ => {},
                }
            } else {
                match sb {
                    Shape::Capsule { a, b, radius } => {
                        let seg = Shape::Segment { a, b };
                        let ps = Some(crate::algorithm::inflate(proc_b, radius as int));
                        assert(lookup(regs, ShapeKind::Segment, sa.kind_of()) == match lookup(regs, sa.kind_of(), ShapeKind::Segment) {
                            Some(k) => Some(mirror_kind(k)),
                            None => None,
                        });
                        match algorithm_for(regs, sa.kind_of(), ShapeKind::Segment) {
                            Some(n) => {
                                lemma_flip_symmetry(n, regs, pa, sa, proc_a, pb, seg, ps, margin + radius);
                                let k = lookup(regs, sa.kind_of(), ShapeKind::Segment).unwrap();
                                assert(mirrored(fresh(k)) == fresh(mirror_kind(k)));
                                assert(crate::algorithm::capsule_outcome(h, regs, pb, sb, proc_b, pa, sa, proc_a, margin)
                                    == crate::algorithm::reduced_outcome(h, regs, pb, a, b, radius as int, proc_b, pa, sa, proc_a, margin, false));
                            },
                            None => {
                                assert(crate::algorithm::capsule_outcome(h, regs, pb, sb, proc_b, pa, sa, proc_a, margin)
                                    == crate::algorithm::reduced_outcome(h, regs, pb, a, b, radius as int, proc_b, pa, sa, proc_a, margin, false));
                            },
                        }
                    },
                    _ => {},
                }
            }
        },
    }
}

/// An algorithm that a registry of fitting generators builds for a pair
/// always updates the manifold: no capsule generator it builds, directly or
/// nested, is handed its capsule on the other side.
pub proof fn lemma_dispatched_never_untouched(regs: Seq<Registration>, sa: Shape, sb: Shape)
    requires
        all_fit(regs),
    ensures
        algorithm_for(regs, sa.kind_of(), sb.kind_of()) matches Some(alg) ==> !untouched(
            alg,
            regs,
            sa,
            sb,
        ),
    decreases pair_count(sa, sb),
{
    lemma_lookup_fits(regs, sa.kind_of(), sb.kind_of());
    match lookup(regs, sa.kind_of(), sb.kind_of()) {
        Some(GeneratorKind::CapsuleShape) => {
            match sa {
                Shape::Capsule { a, b, .. } => {
                    let seg = Shape::Segment { a, b };
                    lemma_dispatched_never_untouched(regs, seg, sb);
                },
                _ => {},
            }
        },
        Some(GeneratorKind::ShapeCapsule) => {
            match sb {
                Shape::Capsule { a, b, .. } => {
                    let seg = Shape::Segment { a, b };
                    lemma_dispatched_never_untouched(regs, sa, seg);
                },
                _ => {},
            }
        },
        _ => {},
    }
}

} // verus!
