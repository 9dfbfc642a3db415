use vstd::prelude::*;
use crate::dispatch::{algorithm_for, ContactDispatcher, Registration};
use crate::generators::{ball_ball, ball_ball_contact, plane_convex, plane_convex_contact};
use crate::geometry::COORD_LIMIT;
use crate::ids::IdAllocator;
use crate::manifold::{
    holds_single, new_id_issued, released, Contact, ContactManifold, TrackedContact,
};
use crate::shape::{
    core_segment, preprocess, preprocessed, proc_ok, proc_radius, raw_bounded, swap, swapped,
    ContactPrediction, ContactPreprocessor, Placement, Shape, ShapeKind,
};

verus! {

/// A stateful contact generator bound to one ordered pair of shape kinds.
pub enum ContactAlgorithm {
    /// Two balls: the centres' distance against the sum of the radii.
    BallBall,
    /// A plane and a convex shape: the convex shape's extreme point behind the
    /// plane. With `flip` the plane is the second shape.
    PlaneConvex { flip: bool },
    /// A capsule reduced to its core segment.
    CapsuleShape(CapsuleShapeManifoldGenerator),
}

/// Contact generator between a capsule and another shape: the capsule is its
/// core segment inflated by its radius.
pub struct CapsuleShapeManifoldGenerator {
    /// The algorithm for the core segment and the other shape, built on the
    /// first update and kept for the later ones.
    pub sub_detector: Option<Box<ContactAlgorithm>>,
    /// The capsule is the second shape of the pair.
    pub flip: bool,
}

/// The number of capsules in a pair; each reduction removes one.
pub open spec fn pair_count(sa: Shape, sb: Shape) -> nat {
    sa.capsule_count() + sb.capsule_count()
}

/// The inputs of one update are within the ranges that the arithmetic allows:
/// well-formed shapes and placements, a margin of at most `COORD_LIMIT` for
/// each capsule fewer than three, and preprocessors that leave room for a
/// capsule's own inflation.
pub open spec fn inputs_ok(
    pa: Placement,
    sa: Shape,
    proc_a: Option<ContactPreprocessor>,
    pb: Placement,
    sb: Shape,
    proc_b: Option<ContactPreprocessor>,
    margin: int,
) -> bool {
    &&& pa.wf() && sa.wf() && pb.wf() && sb.wf()
    &&& proc_ok(proc_a) && proc_ok(proc_b)
    &&& sa is Capsule ==> proc_radius(proc_a) <= COORD_LIMIT
    &&& sb is Capsule ==> proc_radius(proc_b) <= COORD_LIMIT
    &&& 0 <= margin && margin + COORD_LIMIT * pair_count(sa, sb) <= 3 * COORD_LIMIT
}

/// A contact that lies within the margin, after the preprocessors.
pub open spec fn finish(
    raw: Option<Contact>,
    margin: int,
    proc_a: Option<ContactPreprocessor>,
    proc_b: Option<ContactPreprocessor>,
) -> Option<Contact> {
    match raw {
        Some(c) => if c.depth >= -margin {
            Some(preprocessed(c, proc_a, proc_b))
        } else {
            None
        },
        None => None,
    }
}

pub open spec fn swapped_opt(c: Option<Contact>) -> Option<Contact> {
    match c {
        Some(x) => Some(swapped(x)),
        None => None,
    }
}

/// The preprocessor of a capsule's core: the incoming one, inflated further by
/// the capsule's radius.
pub open spec fn inflate(p: Option<ContactPreprocessor>, radius: int) -> ContactPreprocessor {
    ContactPreprocessor { radius: (proc_radius(p) + radius) as i64 }
}

/// The algorithm that a capsule generator delegates to: the cached one, or
/// else the one that the registry builds.
pub open spec fn nested_algorithm(
    g: CapsuleShapeManifoldGenerator,
    regs: Seq<Registration>,
    ka: ShapeKind,
    kb: ShapeKind,
) -> Option<ContactAlgorithm> {
    match g.sub_detector {
        Some(b) => Some(*b),
        None => algorithm_for(regs, ka, kb),
    }
}

/// The contact that `alg` reports for the pair, or `None` where the shapes are
/// farther apart than `margin` or the algorithm does not handle them.
pub open spec fn outcome(
    alg: ContactAlgorithm,
    regs: Seq<Registration>,
    pa: Placement,
    sa: Shape,
    proc_a: Option<ContactPreprocessor>,
    pb: Placement,
    sb: Shape,
    proc_b: Option<ContactPreprocessor>,
    margin: int,
) -> Option<Contact>
    decreases pair_count(sa, sb), 2nat,
{
    match alg {
        ContactAlgorithm::BallBall => match (sa, sb) {
            (Shape::Ball { radius: ra }, Shape::Ball { radius: rb }) => finish(
                Some(ball_ball_contact(pa.translation, ra as int, pb.translation, rb as int)),
                margin,
                proc_a,
                proc_b,
            ),
            _ => None,
        },
        ContactAlgorithm::PlaneConvex { flip } => if !flip {
            match sa {
                Shape::Plane { normal } => finish(
                    plane_convex_contact(pa, normal, pb, sb),
                    margin,
                    proc_a,
                    proc_b,
                ),
                _ => None,
            }
        } else {
            match sb {
                Shape::Plane { normal } => finish(
                    swapped_opt(plane_convex_contact(pb, normal, pa, sa)),
                    margin,
                    proc_a,
                    proc_b,
                ),
                _ => None,
            }
        },
        ContactAlgorithm::CapsuleShape(g) => capsule_outcome(
            g,
            regs,
            pa,
            sa,
            proc_a,
            pb,
            sb,
            proc_b,
            margin,
        ),
    }
}

/// What a capsule generator reports: `None` unless the capsule stands on the
/// side that `flip` names.
pub open spec fn capsule_outcome(
    g: CapsuleShapeManifoldGenerator,
    regs: Seq<Registration>,
    pa: Placement,
    sa: Shape,
    proc_a: Option<ContactPreprocessor>,
    pb: Placement,
    sb: Shape,
    proc_b: Option<ContactPreprocessor>,
    margin: int,
) -> Option<Contact>
    decreases pair_count(sa, sb), 1nat,
{
    if !g.flip {
        match sa {
            Shape::Capsule { a, b, radius } => reduced_outcome(
                g,
                regs,
                pa,
                a,
                b,
                radius as int,
                proc_a,
                pb,
                sb,
                proc_b,
                margin,
                false,
            ),
            _ => None,
        }
    } else {
        match sb {
            Shape::Capsule { a, b, radius } => reduced_outcome(
                g,
                regs,
                pb,
                a,
                b,
                radius as int,
                proc_b,
                pa,
                sa,
                proc_a,
                margin,
                true,
            ),
            _ => None,
        }
    }
}

/// The capsule `(a, b, radius)` placed at `pc` against `other` placed at `po`:
/// the nested algorithm's outcome for the core segment, with the margin
/// inflated by the radius and the segment's contact point pushed out by it.
/// With `flip` the capsule is the second shape.
pub open spec fn reduced_outcome(
    g: CapsuleShapeManifoldGenerator,
    regs: Seq<Registration>,
    pc: Placement,
    a: crate::geometry::Vec3,
    b: crate::geometry::Vec3,
    radius: int,
    proc_c: Option<ContactPreprocessor>,
    po: Placement,
    other: Shape,
    proc_o: Option<ContactPreprocessor>,
    margin: int,
    flip: bool,
) -> Option<Contact>
    decreases 1 + other.capsule_count(), 0nat,
{
    let seg = core_segment(a, b);
    let proc_seg = Some(inflate(proc_c, radius));
    let kinds = if flip {
        (other.kind_of(), ShapeKind::Segment)
    } else {
        (ShapeKind::Segment, other.kind_of())
    };
    match nested_algorithm(g, regs, kinds.0, kinds.1) {
        Some(n) => if flip {
            outcome(n, regs, po, other, proc_o, pc, seg, proc_seg, margin + radius)
        } else {
            outcome(n, regs, pc, seg, proc_seg, po, other, proc_o, margin + radius)
        },
        None => None,
    }
}

/// The algorithm after an update: capsule generators have cached their nested
/// algorithms, themselves updated.
pub open spec fn after_update(
    alg: ContactAlgorithm,
    regs: Seq<Registration>,
    sa: Shape,
    sb: Shape,
) -> ContactAlgorithm
    decreases pair_count(sa, sb), 2nat,
{
    match alg {
        ContactAlgorithm::CapsuleShape(g) => ContactAlgorithm::CapsuleShape(
            capsule_after(g, regs, sa, sb),
        ),
        _ => alg,
    }
}

pub open spec fn capsule_after(
    g: CapsuleShapeManifoldGenerator,
    regs: Seq<Registration>,
    sa: Shape,
    sb: Shape,
) -> CapsuleShapeManifoldGenerator
    decreases pair_count(sa, sb), 1nat,
{
    if !g.flip {
        match sa {
            Shape::Capsule { a, b, .. } => reduced_after(g, regs, a, b, sb, false),
            _ => g,
        }
    } else {
        match sb {
            Shape::Capsule { a, b, .. } => reduced_after(g, regs, a, b, sa, true),
            _ => g,
        }
    }
}

pub open spec fn reduced_after(
    g: CapsuleShapeManifoldGenerator,
    regs: Seq<Registration>,
    a: crate::geometry::Vec3,
    b: crate::geometry::Vec3,
    other: Shape,
    flip: bool,
) -> CapsuleShapeManifoldGenerator
    decreases 1 + other.capsule_count(), 0nat,
{
    let seg = core_segment(a, b);
    let kinds = if flip {
        (other.kind_of(), ShapeKind::Segment)
    } else {
        (ShapeKind::Segment, other.kind_of())
    };
    match nested_algorithm(g, regs, kinds.0, kinds.1) {
        Some(n) => CapsuleShapeManifoldGenerator {
            sub_detector: Some(
                Box::new(
                    if flip {
                        after_update(n, regs, other, seg)
                    } else {
                        after_update(n, regs, seg, other)
                    },
                ),
            ),
            flip: g.flip,
        },
        None => g,
    }
}

/// The manifold `after` and the allocator `ids1` are what an update that
/// found `o` leaves of `before` and `ids0`: the single contact `o` under the
/// identifier of the earlier contact with its features, or else under the
/// identifier that `ids0` issues next; every other identifier of `before` is
/// released, and no other identifier changes.
pub open spec fn applied(
    o: Option<Contact>,
    before: Seq<TrackedContact>,
    after: Seq<TrackedContact>,
    ids0: IdAllocator,
    ids1: IdAllocator,
) -> bool {
    &&& released(ids0, before, after, ids1)
    &&& match o {
        Some(c) => holds_single(before, after, c) && new_id_issued(before, after, c, ids0),
        None => after.len() == 0,
    }
}

/// The update leaves the manifold and the allocator as they were: a capsule
/// generator was handed its capsule on the other side, directly or through the
/// algorithms it delegates to.
pub open spec fn untouched(
    alg: ContactAlgorithm,
    regs: Seq<Registration>,
    sa: Shape,
    sb: Shape,
) -> bool
    decreases pair_count(sa, sb), 2nat,
{
    match alg {
        ContactAlgorithm::CapsuleShape(g) => capsule_untouched(g, regs, sa, sb),
        _ => false,
    }
}

/// The capsule is not on the side that `flip` names, or the nested algorithm
/// leaves everything as it was.
pub open spec fn capsule_untouched(
    g: CapsuleShapeManifoldGenerator,
    regs: Seq<Registration>,
    sa: Shape,
    sb: Shape,
) -> bool
    decreases pair_count(sa, sb), 1nat,
{
    if !g.flip {
        match sa {
            Shape::Capsule { a, b, .. } => reduced_untouched(g, regs, a, b, sb, false),
            _ => true,
        }
    } else {
        match sb {
            Shape::Capsule { a, b, .. } => reduced_untouched(g, regs, a, b, sa, true),
            _ => true,
        }
    }
}

pub open spec fn reduced_untouched(
    g: CapsuleShapeManifoldGenerator,
    regs: Seq<Registration>,
    a: crate::geometry::Vec3,
    b: crate::geometry::Vec3,
    other: Shape,
    flip: bool,
) -> bool
    decreases 1 + other.capsule_count(), 0nat,
{
    let seg = core_segment(a, b);
    let kinds = if flip {
        (other.kind_of(), ShapeKind::Segment)
    } else {
        (ShapeKind::Segment, other.kind_of())
    };
    match nested_algorithm(g, regs, kinds.0, kinds.1) {
        Some(n) => if flip {
            untouched(n, regs, other, seg)
        } else {
            untouched(n, regs, seg, other)
        },
        None => false,
    }
}

/// Stores the outcome of an update: the contact if it lies within `margin`,
/// after the preprocessors; else nothing.
fn emit(
    raw: Option<Contact>,
    margin: i64,
    proc_a: Option<ContactPreprocessor>,
    proc_b: Option<ContactPreprocessor>,
    ids: &mut IdAllocator,
    manifold: &mut ContactManifold,
) -> (found: bool)
    requires
        0 <= margin,
        raw matches Some(c) ==> raw_bounded(c),
        proc_ok(proc_a),
        proc_ok(proc_b),
        old(manifold).wf_with(*old(ids)),
        old(ids).can_issue(),
    ensures
        final(manifold).wf_with(*final(ids)),
        applied(
            finish(raw, margin as int, proc_a, proc_b),
            old(manifold)@,
            final(manifold)@,
            *old(ids),
            *final(ids),
        ),
        found == finish(raw, margin as int, proc_a, proc_b) is Some,
{
    match raw {
        Some(c) => {
            if c.depth >= -margin {
                let p = preprocess(c, proc_a, proc_b);
                manifold.keep_single(ids, p);
                true
            } else {
                manifold.clear(ids);
                false
            }
        },
        None => {
            manifold.clear(ids);
            false
        },
    }
}

impl ContactAlgorithm {
    /// Updates `manifold` with the contact between `sa` placed at `pa` and
    /// `sb` placed at `pb`. Returns whether the shapes are within the
    /// prediction's margin; the manifold then holds that single contact, and
    /// is empty otherwise. A capsule generator handed its capsule on the other
    /// side returns `false` and leaves the manifold and the allocator as they
    /// were.
    pub fn generate_contacts(
        &mut self,
        d: &ContactDispatcher,
        pa: &Placement,
        sa: &Shape,
        proc_a: Option<ContactPreprocessor>,
        pb: &Placement,
        sb: &Shape,
        proc_b: Option<ContactPreprocessor>,
        prediction: &ContactPrediction,
        ids: &mut IdAllocator,
        manifold: &mut ContactManifold,
    ) -> (found: bool)
        requires
            inputs_ok(*pa, *sa, proc_a, *pb, *sb, proc_b, prediction.linear as int),
            old(manifold).wf_with(*old(ids)),
            old(ids).can_issue(),
        ensures
            final(manifold).wf_with(*final(ids)),
            untouched(*old(self), d@, *sa, *sb) ==> final(manifold)@ == old(manifold)@
                && *final(ids) == *old(ids),
            !untouched(*old(self), d@, *sa, *sb) ==> applied(
                outcome(*old(self), d@, *pa, *sa, proc_a, *pb, *sb, proc_b, prediction.linear as int),
                old(manifold)@,
                final(manifold)@,
                *old(ids),
                *final(ids),
            ),
            found == outcome(
                *old(self),
                d@,
                *pa,
                *sa,
                proc_a,
                *pb,
                *sb,
                proc_b,
                prediction.linear as int,
            ) is Some,
            *final(self) == after_update(*old(self), d@, *sa, *sb),
        decreases pair_count(*sa, *sb), 2nat,
    {
        match self {
            ContactAlgorithm::BallBall => match (sa, sb) {
                (Shape::Ball { radius: ra }, Shape::Ball { radius: rb }) => {
                    let c = ball_ball(pa.translation, *ra, pb.translation, *rb);
                    emit(Some(c), prediction.linear, proc_a, proc_b, ids, manifold)
                },
                _ => {
                    manifold.clear(ids);
                    false
                },
            },
            ContactAlgorithm::PlaneConvex { flip } => {
                if !*flip {
                    match sa {
                        Shape::Plane { normal } => {
                            let r = plane_convex(*pa, *normal, *pb, sb);
                            emit(r, prediction.linear, proc_a, proc_b, ids, manifold)
                        },
                        _ => {
                            manifold.clear(ids);
                            false
                        },
                    }
                } else {
                    match sb {
                        Shape::Plane { normal } => {
                            let r = match plane_convex(*pb, *normal, *pa, sa) {
                                Some(c) => Some(swap(c)),
                                None => None,
                            };
                            emit(r, prediction.linear, proc_a, proc_b, ids, manifold)
                        },
                        _ => {
                            manifold.clear(ids);
                            false
                        },
                    }
                }
            },
            ContactAlgorithm::CapsuleShape(g) => g.generate_contacts(
                d,
                pa,
                sa,
                proc_a,
                pb,
                sb,
                proc_b,
                prediction,
                ids,
                manifold,
            ),
        }
    }
}

impl CapsuleShapeManifoldGenerator {
    /// A generator whose capsule is the second shape of the pair if `flip`.
    pub fn new(flip: bool) -> (r: CapsuleShapeManifoldGenerator)
        ensures
            r.sub_detector is None,
            r.flip == flip,
    {
        CapsuleShapeManifoldGenerator { sub_detector: None, flip }
    }

    /// Updates `manifold` with the contact between the capsule, on the side
    /// that `flip` names, and the other shape. Where that side holds no
    /// capsule it returns `false` and changes nothing: not itself, the
    /// manifold or the allocator.
    pub fn generate_contacts(
        &mut self,
        d: &ContactDispatcher,
        pa: &Placement,
        sa: &Shape,
        proc_a: Option<ContactPreprocessor>,
        pb: &Placement,
        sb: &Shape,
        proc_b: Option<ContactPreprocessor>,
        prediction: &ContactPrediction,
        ids: &mut IdAllocator,
        manifold: &mut ContactManifold,
    ) -> (found: bool)
        requires
            inputs_ok(*pa, *sa, proc_a, *pb, *sb, proc_b, prediction.linear as int),
            old(manifold).wf_with(*old(ids)),
            old(ids).can_issue(),
        ensures
            final(manifold).wf_with(*final(ids)),
            capsule_untouched(*old(self), d@, *sa, *sb) ==> final(manifold)@ == old(manifold)@
                && *final(ids) == *old(ids),
            !capsule_untouched(*old(self), d@, *sa, *sb) ==> applied(
                capsule_outcome(*old(self), d@, *pa, *sa, proc_a, *pb, *sb, proc_b, prediction.linear as int),
                old(manifold)@,
                final(manifold)@,
                *old(ids),
                *final(ids),
            ),
            (if old(self).flip { !(*sb is Capsule) } else { !(*sa is Capsule) }) ==> *final(self) == *old(self) && !found,
            found == capsule_outcome(
                *old(self),
                d@,
                *pa,
                *sa,
                proc_a,
                *pb,
                *sb,
                proc_b,
                prediction.linear as int,
            ) is Some,
            *final(self) == capsule_after(*old(self), d@, *sa, *sb),
        decreases pair_count(*sa, *sb), 1nat,
    {
        if !self.flip {
            match sa {
                Shape::Capsule { a, b, radius } => {
                    return self.do_update(d, pa, *a, *b, *radius, proc_a, pb, sb, proc_b, prediction, ids, manifold, false);
                },
                _ => {},
            }
        } else {
            match sb {
                Shape::Capsule { a, b, radius } => {
                    return self.do_update(d, pb, *a, *b, *radius, proc_b, pa, sa, proc_a, prediction, ids, manifold, true);
                },
                _ => {},
            }
        }
        false
    }

    /// Updates `manifold` with the contact between the capsule `(a, b,
    /// radius)` placed at `m1` and `g2` placed at `m2`, through the algorithm
    /// for the capsule's core segment and `g2`, built on the first call and
    /// kept. With `flip` the capsule is the second shape of the pair.
    pub fn do_update(
        &mut self,
        d: &ContactDispatcher,
        m1: &Placement,
        a: crate::geometry::Vec3,
        b: crate::geometry::Vec3,
        radius: i64,
        proc1: Option<ContactPreprocessor>,
        m2: &Placement,
        g2: &Shape,
        proc2: Option<ContactPreprocessor>,
        prediction: &ContactPrediction,
        ids: &mut IdAllocator,
        manifold: &mut ContactManifold,
        flip: bool,
    ) -> (found: bool)
        requires
            flip ==> inputs_ok(*m2, *g2, proc2, *m1, Shape::Capsule { a, b, radius }, proc1, prediction.linear as int),
            !flip ==> inputs_ok(*m1, Shape::Capsule { a, b, radius }, proc1, *m2, *g2, proc2, prediction.linear as int),
            old(manifold).wf_with(*old(ids)),
            old(ids).can_issue(),
        ensures
            final(manifold).wf_with(*final(ids)),
            reduced_untouched(*old(self), d@, a, b, *g2, flip) ==> final(manifold)@ == old(manifold)@
                && *final(ids) == *old(ids),
            !reduced_untouched(*old(self), d@, a, b, *g2, flip) ==> applied(
                reduced_outcome(*old(self), d@, *m1, a, b, radius as int, proc1, *m2, *g2, proc2, prediction.linear as int, flip),
                old(manifold)@,
                final(manifold)@,
                *old(ids),
                *final(ids),
            ),
            found == reduced_outcome(*old(self), d@, *m1, a, b, radius as int, proc1, *m2, *g2, proc2, prediction.linear as int, flip) is Some,
            *final(self) == reduced_after(*old(self), d@, a, b, *g2, flip),
        decreases 1 + g2.capsule_count(), 0nat,
    {
        let segment = Shape::Segment { a, b };
        assert(segment == core_segment(a, b));
        let mut prediction = *prediction;
        let new_linear_prediction = prediction.linear() + radius;
        prediction.set_linear(new_linear_prediction);

        if self.sub_detector.is_none() {
            let found = if flip {
                d.get_contact_algorithm(g2, &segment)
            } else {
                d.get_contact_algorithm(&segment, g2)
            };
            self.sub_detector = match found {
                Some(alg) => Some(Box::new(alg)),
                None => None,
            };
        }
        let inflation: i64 = match proc1 {
            Some(p) => p.radius + radius,
            None => radius,
        };
        let proc_segment = Some(ContactPreprocessor { radius: inflation });

        match &mut self.sub_detector {
            Some(sub) => {
                if flip {
                    sub.generate_contacts(d, m2, g2, proc2, m1, &segment, proc_segment, &prediction, ids, manifold)
                } else {
                    sub.generate_contacts(d, m1, &segment, proc_segment, m2, g2, proc2, &prediction, ids, manifold)
                }
            },
            None => {
                manifold.clear(ids);
                false
            },
        }
    }
}

} // verus!
