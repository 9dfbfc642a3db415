use vstd::prelude::*;
use crate::shape::{Shape, ShapeKind};
use crate::algorithm::{CapsuleShapeManifoldGenerator, ContactAlgorithm};

verus! {

/// Which generator handles an ordered pair of shape kinds.
#[derive(Clone, Copy, Debug, PartialEq, Eq, Structural)]
pub enum GeneratorKind {
    /// Two balls.
    BallBall,
    /// A plane first, then a convex shape.
    PlaneConvex,
    /// A convex shape first, then a plane.
    ConvexPlane,
    /// A capsule first, then another shape.
    CapsuleShape,
    /// Another shape first, then a capsule.
    ShapeCapsule,
}

/// One entry of the registry.
#[derive(Clone, Copy, Debug, PartialEq, Eq, Structural)]
pub struct Registration {
    pub first: ShapeKind,
    pub second: ShapeKind,
    pub generator: GeneratorKind,
}

/// The generator registered last for the ordered pair `(ka, kb)`.
pub open spec fn lookup(regs: Seq<Registration>, ka: ShapeKind, kb: ShapeKind) -> Option<
    GeneratorKind,
>
    decreases regs.len(),
{
    if regs.len() == 0 {
        None
    } else if regs.last().first == ka && regs.last().second == kb {
        Some(regs.last().generator)
    } else {
        lookup(regs.drop_last(), ka, kb)
    }
}

/// A newly constructed algorithm of kind `g`.
pub open spec fn fresh(g: GeneratorKind) -> ContactAlgorithm {
    match g {
        GeneratorKind::BallBall => ContactAlgorithm::BallBall,
        GeneratorKind::PlaneConvex => ContactAlgorithm::PlaneConvex { flip: false },
        GeneratorKind::ConvexPlane => ContactAlgorithm::PlaneConvex { flip: true },
        GeneratorKind::CapsuleShape => ContactAlgorithm::CapsuleShape(
            CapsuleShapeManifoldGenerator { sub_detector: None, flip: false },
        ),
        GeneratorKind::ShapeCapsule => ContactAlgorithm::CapsuleShape(
            CapsuleShapeManifoldGenerator { sub_detector: None, flip: true },
        ),
    }
}

/// The algorithm that the registry `regs` builds for the ordered pair.
pub open spec fn algorithm_for(regs: Seq<Registration>, ka: ShapeKind, kb: ShapeKind) -> Option<
    ContactAlgorithm,
> {
    match lookup(regs, ka, kb) {
        Some(g) => Some(fresh(g)),
        None => None,
    }
}

/// The registrations of `ContactDispatcher::with_defaults`.
pub open spec fn default_registrations() -> Seq<Registration> {
    seq![
        Registration { first: ShapeKind::Ball, second: ShapeKind::Ball, generator: GeneratorKind::BallBall },
        Registration { first: ShapeKind::Plane, second: ShapeKind::Ball, generator: GeneratorKind::PlaneConvex },
        Registration { first: ShapeKind::Ball, second: ShapeKind::Plane, generator: GeneratorKind::ConvexPlane },
        Registration { first: ShapeKind::Plane, second: ShapeKind::Segment, generator: GeneratorKind::PlaneConvex },
        Registration { first: ShapeKind::Segment, second: ShapeKind::Plane, generator: GeneratorKind::ConvexPlane },
        Registration { first: ShapeKind::Plane, second: ShapeKind::Polyhedron, generator: GeneratorKind::PlaneConvex },
        Registration { first: ShapeKind::Polyhedron, second: ShapeKind::Plane, generator: GeneratorKind::ConvexPlane },
        Registration { first: ShapeKind::Capsule, second: ShapeKind::Plane, generator: GeneratorKind::CapsuleShape },
        Registration { first: ShapeKind::Plane, second: ShapeKind::Capsule, generator: GeneratorKind::ShapeCapsule },
    ]
}

/// The generator `g` can handle a first shape of kind `ka` and a second of
/// kind `kb`.
pub open spec fn fits(ka: ShapeKind, kb: ShapeKind, g: GeneratorKind) -> bool {
    match g {
        GeneratorKind::BallBall => ka == ShapeKind::Ball && kb == ShapeKind::Ball,
        GeneratorKind::PlaneConvex => ka == ShapeKind::Plane && is_convex_kind(kb),
        GeneratorKind::ConvexPlane => is_convex_kind(ka) && kb == ShapeKind::Plane,
        GeneratorKind::CapsuleShape => ka == ShapeKind::Capsule,
        GeneratorKind::ShapeCapsule => kb == ShapeKind::Capsule,
    }
}

/// The kinds whose extreme point along a direction the plane generator finds.
pub open spec fn is_convex_kind(k: ShapeKind) -> bool {
    k == ShapeKind::Ball || k == ShapeKind::Segment || k == ShapeKind::Polyhedron
}

/// Every registration pairs its kinds with a generator that fits them.
pub open spec fn all_fit(regs: Seq<Registration>) -> bool {
    forall|i: int|
        0 <= i < regs.len() ==> fits(#[trigger] regs[i].first, regs[i].second, regs[i].generator)
}

/// What the registry of a well-formed dispatcher gives for a pair fits it.
pub proof fn lemma_lookup_fits(regs: Seq<Registration>, ka: ShapeKind, kb: ShapeKind)
    requires
        all_fit(regs),
    ensures
        lookup(regs, ka, kb) matches Some(g) ==> fits(ka, kb, g),
    decreases regs.len(),
{
    if regs.len() > 0 {
        let last = regs.len() - 1;
        assert(regs[last] == regs.last());
        assert(fits(regs[last].first, regs[last].second, regs[last].generator));
        let rest = regs.drop_last();
        assert forall|i: int| 0 <= i < rest.len() implies fits(
            #[trigger] rest[i].first,
            rest[i].second,
            rest[i].generator,
        ) by {
            assert(rest[i] == regs[i]);
            assert(fits(regs[i].first, regs[i].second, regs[i].generator));
        }
        lemma_lookup_fits(rest, ka, kb);
    }
}

/// Builds a contact algorithm for an ordered pair of shapes from their kinds.
/// Only generators that fit their pair can be registered.
pub struct ContactDispatcher {
    registrations: Vec<Registration>,
}

impl ContactDispatcher {
    pub closed spec fn view(&self) -> Seq<Registration> {
        self.registrations@
    }

    /// Every registration fits its pair of kinds.
    pub open spec fn wf(&self) -> bool {
        all_fit(self@)
    }

    /// A dispatcher with nothing registered.
    pub fn new() -> (r: ContactDispatcher)
        ensures
            r@.len() == 0,
            r.wf(),
    {
        ContactDispatcher { registrations: Vec::new() }
    }

    /// Registers `generator` for the ordered pair `(first, second)`; it takes
    /// the place of any earlier registration for that pair.
    pub fn register(&mut self, first: ShapeKind, second: ShapeKind, generator: GeneratorKind)
        requires
            old(self).wf(),
            fits(first, second, generator),
        ensures
            final(self)@ == old(self)@.push(Registration { first, second, generator }),
            final(self).wf(),
    {
        self.registrations.push(Registration { first, second, generator });
        assert forall|i: int| 0 <= i < self@.len() implies fits(
            #[trigger] self@[i].first,
            self@[i].second,
            self@[i].generator,
        ) by {
            if i < old(self)@.len() {
                assert(self@[i] == old(self)@[i]);
            }
        }
    }

    /// A dispatcher for ball/ball, plane/ball, plane/segment,
    /// plane/polyhedron and plane/capsule, in both orders.
    pub fn with_defaults() -> (r: ContactDispatcher)
        ensures
            r@ == default_registrations(),
            r.wf(),
    {
        let mut d = ContactDispatcher::new();
        d.register(ShapeKind::Ball, ShapeKind::Ball, GeneratorKind::BallBall);
        d.register(ShapeKind::Plane, ShapeKind::Ball, GeneratorKind::PlaneConvex);
        d.register(ShapeKind::Ball, ShapeKind::Plane, GeneratorKind::ConvexPlane);
        d.register(ShapeKind::Plane, ShapeKind::Segment, GeneratorKind::PlaneConvex);
        d.register(ShapeKind::Segment, ShapeKind::Plane, GeneratorKind::ConvexPlane);
        d.register(ShapeKind::Plane, ShapeKind::Polyhedron, GeneratorKind::PlaneConvex);
        d.register(ShapeKind::Polyhedron, ShapeKind::Plane, GeneratorKind::ConvexPlane);
        d.register(ShapeKind::Capsule, ShapeKind::Plane, GeneratorKind::CapsuleShape);
        d.register(ShapeKind::Plane, ShapeKind::Capsule, GeneratorKind::ShapeCapsule);
        assert(d@ =~= default_registrations());
        d
    }

    /// The generator registered for the ordered pair of kinds, if any.
    pub fn generator_for(&self, ka: ShapeKind, kb: ShapeKind) -> (r: Option<GeneratorKind>)
        ensures
            r == lookup(self@, ka, kb),
            self.wf() ==> (r matches Some(g) ==> fits(ka, kb, g)),
    {
        proof {
            if self.wf() {
                lemma_lookup_fits(self@, ka, kb);
            }
        }
        let mut i: usize = self.registrations.len();
        assert(self@.subrange(0, self@.len() as int) =~= self@);
        while i > 0
            invariant
                i <= self@.len(),
                lookup(self@, ka, kb) == lookup(self@.subrange(0, i as int), ka, kb),
            decreases i,
        {
            let r = self.registrations[i - 1];
            assert(self@.subrange(0, i as int).drop_last() =~= self@.subrange(0, i - 1));
            if r.first == ka && r.second == kb {
                return Some(r.generator);
            }
            i = i - 1;
        }
        None
    }

    /// A new algorithm for the ordered pair `(a, b)`, or `None` where the pair
    /// is not supported.
    pub fn get_contact_algorithm(&self, a: &Shape, b: &Shape) -> (r: Option<ContactAlgorithm>)
        ensures
            r == algorithm_for(self@, a.kind_of(), b.kind_of()),
            self.wf() ==> (lookup(self@, a.kind_of(), b.kind_of()) matches Some(g) ==> fits(
                a.kind_of(),
                b.kind_of(),
                g,
            )),
    {
        proof {
            if self.wf() {
                lemma_lookup_fits(self@, a.kind_of(), b.kind_of());
            }
        }
        match self.generator_for(a.kind(), b.kind()) {
            Some(g) => Some(
                match g {
                    GeneratorKind::BallBall => ContactAlgorithm::BallBall,
                    GeneratorKind::PlaneConvex => ContactAlgorithm::PlaneConvex { flip: false },
                    GeneratorKind::ConvexPlane => ContactAlgorithm::PlaneConvex { flip: true },
                    GeneratorKind::CapsuleShape => ContactAlgorithm::CapsuleShape(
                        CapsuleShapeManifoldGenerator::new(false),
                    ),
                    GeneratorKind::ShapeCapsule => ContactAlgorithm::CapsuleShape(
                        CapsuleShapeManifoldGenerator::new(true),
                    ),
                },
            ),
            None => None,
        }
    }
}

} // verus!
