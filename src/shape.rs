use vstd::prelude::*;
use crate::geometry::{
    move_along, neg, offset, vneg, within, Vec3, COORD_LIMIT, NORMAL_SCALE,
};
use crate::manifold::{Contact, FeatureId};

verus! {

/// Largest magnitude of a coordinate or a depth that a generator reports
/// before preprocessing.
pub const RAW_LIMIT: i64 = 0x2000_0000;

/// The type signature of a shape, by which algorithms are looked up.
#[derive(Clone, Copy, Debug, PartialEq, Eq, Structural)]
pub enum ShapeKind {
    Ball,
    Plane,
    Segment,
    Capsule,
    Polyhedron,
}

/// A shape in its local frame.
#[derive(Clone, Debug)]
pub enum Shape {
    /// A ball centred on the local origin.
    Ball { radius: i64 },
    /// The plane through the local origin with the given unit outward normal;
    /// the half-space behind it is solid.
    Plane { normal: Vec3 },
    /// The segment between two points.
    Segment { a: Vec3, b: Vec3 },
    /// The points within `radius` of the segment between `a` and `b`.
    Capsule { a: Vec3, b: Vec3, radius: i64 },
    /// The convex hull of the given vertices; vertex `i` is feature
    /// `Vertex(i)`.
    Polyhedron { vertices: Vec<Vec3> },
}

/// Largest number of vertices of a polyhedron.
pub const MAX_VERTICES: usize = 65536;

pub open spec fn radius_ok(r: int) -> bool {
    0 <= r <= COORD_LIMIT
}

/// A fixed-point unit normal, whose length may be off by the rounding of its
/// coordinates.
pub open spec fn is_unit(n: Vec3) -> bool {
    &&& n.bounded(NORMAL_SCALE as int)
    &&& (NORMAL_SCALE - 2) * (NORMAL_SCALE - 2) <= n.x * n.x + n.y * n.y + n.z * n.z
    &&& n.x * n.x + n.y * n.y + n.z * n.z <= (NORMAL_SCALE + 2) * (NORMAL_SCALE + 2)
}

impl Shape {
    pub open spec fn kind_of(self) -> ShapeKind {
        match self {
            Shape::Ball { .. } => ShapeKind::Ball,
            Shape::Plane { .. } => ShapeKind::Plane,
            Shape::Segment { .. } => ShapeKind::Segment,
            Shape::Capsule { .. } => ShapeKind::Capsule,
            Shape::Polyhedron { .. } => ShapeKind::Polyhedron,
        }
    }

    /// Radii are within range, points within `COORD_LIMIT`, and a plane's
    /// normal is a unit vector.
    pub open spec fn wf(self) -> bool {
        match self {
            Shape::Ball { radius } => radius_ok(radius as int),
            Shape::Plane { normal } => is_unit(normal),
            Shape::Segment { a, b } => a.bounded(COORD_LIMIT as int) && b.bounded(
                COORD_LIMIT as int,
            ),
            Shape::Capsule { a, b, radius } => a.bounded(COORD_LIMIT as int) && b.bounded(
                COORD_LIMIT as int,
            ) && radius_ok(radius as int),
            Shape::Polyhedron { vertices } => 1 <= vertices@.len() <= MAX_VERTICES && forall|i: int|
                0 <= i < vertices@.len() ==> #[trigger] vertices@[i].bounded(COORD_LIMIT as int),
        }
    }

    /// 1 for a capsule, 0 for any other shape.
    pub open spec fn capsule_count(self) -> nat {
        if self is Capsule {
            1
        } else {
            0
        }
    }

    pub fn kind(&self) -> (k: ShapeKind)
        ensures
            k == self.kind_of(),
    {
        match self {
            Shape::Ball { .. } => ShapeKind::Ball,
            Shape::Plane { .. } => ShapeKind::Plane,
            Shape::Segment { .. } => ShapeKind::Segment,
            Shape::Capsule { .. } => ShapeKind::Capsule,
            Shape::Polyhedron { .. } => ShapeKind::Polyhedron,
        }
    }
}

/// The segment at the core of a capsule.
pub open spec fn core_segment(a: Vec3, b: Vec3) -> Shape {
    Shape::Segment { a, b }
}

/// The rigid placement of a shape in the world: a translation of its local
/// frame.
#[derive(Clone, Copy, Debug, PartialEq, Eq, Structural)]
pub struct Placement {
    pub translation: Vec3,
}

impl Placement {
    pub open spec fn wf(self) -> bool {
        self.translation.bounded(COORD_LIMIT as int)
    }

    pub fn new(translation: Vec3) -> (r: Placement)
        ensures
            r.translation == translation,
    {
        Placement { translation }
    }
}

/// How far apart two surfaces may be and still give a speculative contact.
#[derive(Clone, Copy, Debug, PartialEq, Eq, Structural)]
pub struct ContactPrediction {
    pub linear: i64,
}

impl ContactPrediction {
    pub fn new(linear: i64) -> (r: ContactPrediction)
        ensures
            r.linear == linear,
    {
        ContactPrediction { linear }
    }

    pub fn linear(&self) -> (r: i64)
        ensures
            r == self.linear,
    {
        self.linear
    }

    pub fn set_linear(&mut self, linear: i64)
        ensures
            final(self).linear == linear,
    {
        self.linear = linear;
    }
}

/// Maps a contact found on a core shape onto the shape that is the core
/// inflated by `radius`: the point moves outward by `radius`, the depth grows
/// by `radius`, and the feature is relabelled as one of the inflated shape
/// (see `rounded_feature`).
#[derive(Clone, Copy, Debug, PartialEq, Eq, Structural)]
pub struct ContactPreprocessor {
    pub radius: i64,
}

/// Largest inflation that a preprocessor handed to a generator may carry.
pub const INFLATION_LIMIT: i64 = 33554432;

pub open spec fn proc_ok(p: Option<ContactPreprocessor>) -> bool {
    match p {
        Some(q) => 0 <= q.radius <= INFLATION_LIMIT,
        None => true,
    }
}

pub open spec fn proc_radius(p: Option<ContactPreprocessor>) -> int {
    match p {
        Some(q) => q.radius as int,
        None => 0,
    }
}

/// The contact seen with the roles of the two shapes exchanged.
pub open spec fn swapped(c: Contact) -> Contact {
    Contact {
        point_a: c.point_b,
        point_b: c.point_a,
        normal: vneg(c.normal),
        depth: c.depth,
        feature_a: c.feature_b,
        feature_b: c.feature_a,
    }
}

/// `c` with shape `a` inflated by `ra` and shape `b` by `rb`.
pub open spec fn inflated(c: Contact, ra: int, rb: int) -> Contact {
    Contact {
        point_a: offset(c.point_a, c.normal, ra),
        point_b: offset(c.point_b, vneg(c.normal), rb),
        depth: (c.depth + ra + rb) as i64,
        ..c
    }
}

/// The feature of an inflated shape that covers the feature `f` of its core:
/// vertex `i` of the core becomes the rounded face `Face(i)` around it (for a
/// capsule, the cap around endpoint `i`); other features keep their labels.
pub open spec fn rounded_feature(f: FeatureId) -> FeatureId {
    match f {
        FeatureId::Vertex(i) => FeatureId::Face(i),
        _ => f,
    }
}

/// The feature `f` after the preprocessor `p`, if there is one.
pub open spec fn feature_after(f: FeatureId, p: Option<ContactPreprocessor>) -> FeatureId {
    if p is Some {
        rounded_feature(f)
    } else {
        f
    }
}

/// `c` after the preprocessors of both sides.
pub open spec fn preprocessed(
    c: Contact,
    proc_a: Option<ContactPreprocessor>,
    proc_b: Option<ContactPreprocessor>,
) -> Contact {
    Contact {
        feature_a: feature_after(c.feature_a, proc_a),
        feature_b: feature_after(c.feature_b, proc_b),
        ..inflated(c, proc_radius(proc_a), proc_radius(proc_b))
    }
}

/// The feature `f` after the preprocessor `p`, if there is one.
fn relabel(f: FeatureId, p: Option<ContactPreprocessor>) -> (r: FeatureId)
    ensures
        r == feature_after(f, p),
{
    match p {
        Some(_) => match f {
            FeatureId::Vertex(i) => FeatureId::Face(i),
            _ => f,
        },
        None => f,
    }
}

/// Coordinates and depth of a contact as a generator reports it.
pub open spec fn raw_bounded(c: Contact) -> bool {
    &&& c.point_a.bounded(RAW_LIMIT as int)
    &&& c.point_b.bounded(RAW_LIMIT as int)
    &&& c.normal.bounded(NORMAL_SCALE as int)
    &&& within(c.depth as int, RAW_LIMIT as int)
}

/// Applies the preprocessors of both sides to a contact.
pub fn preprocess(
    c: Contact,
    proc_a: Option<ContactPreprocessor>,
    proc_b: Option<ContactPreprocessor>,
) -> (r: Contact)
    requires
        raw_bounded(c),
        proc_ok(proc_a),
        proc_ok(proc_b),
    ensures
        r == preprocessed(c, proc_a, proc_b),
{
    let ra: i64 = match proc_a {
        Some(p) => p.radius,
        None => 0,
    };
    let rb: i64 = match proc_b {
        Some(p) => p.radius,
        None => 0,
    };
    let n = neg(c.normal, NORMAL_SCALE);
    Contact {
        point_a: move_along(c.point_a, c.normal, ra, RAW_LIMIT),
        point_b: move_along(c.point_b, n, rb, RAW_LIMIT),
        depth: c.depth + ra + rb,
        normal: c.normal,
        feature_a: relabel(c.feature_a, proc_a),
        feature_b: relabel(c.feature_b, proc_b),
    }
}

/// The contact seen with the roles of the two shapes exchanged.
pub fn swap(c: Contact) -> (r: Contact)
    requires
        c.normal.bounded(NORMAL_SCALE as int),
    ensures
        r == swapped(c),
        r.normal.bounded(NORMAL_SCALE as int),
{
    Contact {
        point_a: c.point_b,
        point_b: c.point_a,
        normal: neg(c.normal, NORMAL_SCALE),
        depth: c.depth,
        feature_a: c.feature_b,
        feature_b: c.feature_a,
    }
}

} // verus!
