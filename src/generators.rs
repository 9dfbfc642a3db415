use vstd::prelude::*;
use crate::geometry::{
    plus, minus, div_toward_zero, dot, length, lemma_trunc_div_bound, move_along, neg,
    norm2, offset, trunc_div, unit, unit_of, vadd, vec_length, vneg, vsub, within, Vec3,
    COORD_LIMIT, NORMAL_SCALE,
};
use crate::manifold::{Contact, FeatureId};
use crate::shape::{is_unit, radius_ok, raw_bounded, Placement, Shape};

verus! {

/// The normal used between two balls whose centres coincide.
pub open spec fn default_normal() -> Vec3 {
    Vec3 { x: 0, y: NORMAL_SCALE, z: 0 }
}

/// The contact between a ball of radius `ra` centred at `ca` and one of radius
/// `rb` centred at `cb`: the normal runs from `ca` to `cb`, each point is on its
/// ball's surface, and the depth is the sum of the radii minus the distance of
/// the centres.
pub open spec fn ball_ball_contact(ca: Vec3, ra: int, cb: Vec3, rb: int) -> Contact {
    let d = vsub(cb, ca);
    let n = if d.is_zero() {
        default_normal()
    } else {
        unit_of(d)
    };
    Contact {
        point_a: offset(ca, n, ra),
        point_b: offset(cb, vneg(n), rb),
        normal: n,
        depth: (ra + rb - length(d)) as i64,
        feature_a: FeatureId::Face(0),
        feature_b: FeatureId::Face(0),
    }
}

/// Signed distance of `p`, relative to a point of the plane, from the plane
/// with unit normal `n`.
pub open spec fn signed_distance(n: Vec3, p: Vec3) -> int {
    trunc_div(dot(n, p), NORMAL_SCALE as int)
}

/// The contact between the plane with unit normal `n` placed at `pp` and the
/// convex shape `x` placed at `px`: the point of `x` farthest behind the plane
/// (the first endpoint of a segment on a tie), its projection onto the plane,
/// and the depth of that point behind the plane. `None` where `x` is not a
/// ball, a segment or a polyhedron.
pub open spec fn plane_convex_contact(pp: Placement, n: Vec3, px: Placement, x: Shape) -> Option<
    Contact,
> {
    let o = pp.translation;
    match x {
        Shape::Ball { radius } => {
            let c = px.translation;
            let depth = radius - signed_distance(n, vsub(c, o));
            let pb = offset(c, vneg(n), radius as int);
            Some(
                Contact {
                    point_a: offset(pb, n, depth),
                    point_b: pb,
                    normal: n,
                    depth: depth as i64,
                    feature_a: FeatureId::Face(0),
                    feature_b: FeatureId::Face(0),
                },
            )
        },
        Shape::Segment { a, b } => {
            let wa = vadd(a, px.translation);
            let wb = vadd(b, px.translation);
            let first = dot(n, vsub(wa, o)) <= dot(n, vsub(wb, o));
            let v = if first {
                wa
            } else {
                wb
            };
            let depth = -signed_distance(n, vsub(v, o));
            Some(
                Contact {
                    point_a: offset(v, n, depth),
                    point_b: v,
                    normal: n,
                    depth: depth as i64,
                    feature_a: FeatureId::Face(0),
                    feature_b: FeatureId::Vertex(
                        if first {
                            0
                        } else {
                            1
                        },
                    ),
                },
            )
        },
        Shape::Polyhedron { vertices } => {
            let k = extreme_vertex(vertices@, px.translation, n, o, vertices@.len());
            let v = vadd(vertices@[k], px.translation);
            let depth = -signed_distance(n, vsub(v, o));
            Some(
                Contact {
                    point_a: offset(v, n, depth),
                    point_b: v,
                    normal: n,
                    depth: depth as i64,
                    feature_a: FeatureId::Face(0),
                    feature_b: FeatureId::Vertex(k as u32),
                },
            )
        },
        _ => None,
    }
}

/// Height of vertex `v` of a shape translated by `t` above the plane through
/// `o` with normal `n`, before scaling.
pub open spec fn height(v: Vec3, t: Vec3, n: Vec3, o: Vec3) -> int {
    dot(n, vsub(vadd(v, t), o))
}

/// Among the first `k` vertices, the index of the lowest one along `n`; the
/// smallest index on a tie.
pub open spec fn extreme_vertex(vs: Seq<Vec3>, t: Vec3, n: Vec3, o: Vec3, k: nat) -> int
    decreases k,
{
    if k <= 1 {
        0
    } else {
        let j = extreme_vertex(vs, t, n, o, (k - 1) as nat);
        if height(vs[k - 1], t, n, o) < height(vs[j], t, n, o) {
            k - 1
        } else {
            j
        }
    }
}

proof fn lemma_extreme_vertex_range(vs: Seq<Vec3>, t: Vec3, n: Vec3, o: Vec3, k: nat)
    ensures
        0 <= extreme_vertex(vs, t, n, o, k) < if k == 0 { 1 } else { k as int },
    decreases k,
{
    if k > 1 {
        lemma_extreme_vertex_range(vs, t, n, o, (k - 1) as nat);
    }
}

/// Dot product of a unit normal and a vector of world differences.
fn normal_dot(n: Vec3, p: Vec3) -> (r: i64)
    requires
        n.bounded(NORMAL_SCALE as int),
        p.bounded(0x400_0000),
    ensures
        r == dot(n, p),
        within(r as int, 0xC00_0000_0000int),
{
    assert(-0x400_0000_0000 <= n.x * p.x <= 0x400_0000_0000) by (nonlinear_arith)
        requires
            -0x1_0000 <= n.x <= 0x1_0000,
            -0x400_0000 <= p.x <= 0x400_0000,
    ;
    assert(-0x400_0000_0000 <= n.y * p.y <= 0x400_0000_0000) by (nonlinear_arith)
        requires
            -0x1_0000 <= n.y <= 0x1_0000,
            -0x400_0000 <= p.y <= 0x400_0000,
    ;
    assert(-0x400_0000_0000 <= n.z * p.z <= 0x400_0000_0000) by (nonlinear_arith)
        requires
            -0x1_0000 <= n.z <= 0x1_0000,
            -0x400_0000 <= p.z <= 0x400_0000,
    ;
    n.x * p.x + n.y * p.y + n.z * p.z
}

/// Signed distance of a vector of world differences from the plane with unit
/// normal `n`.
fn distance_to_plane(n: Vec3, p: Vec3) -> (r: i64)
    requires
        n.bounded(NORMAL_SCALE as int),
        p.bounded(0x400_0000),
    ensures
        r == signed_distance(n, p),
        within(r as int, 0xC00_0000int),
{
    let d = normal_dot(n, p);
    proof {
        lemma_trunc_div_bound(d as int, NORMAL_SCALE as int, 0xC00_0000int);
    }
    div_toward_zero(d, NORMAL_SCALE)
}

/// The contact between two balls.
pub fn ball_ball(ca: Vec3, ra: i64, cb: Vec3, rb: i64) -> (c: Contact)
    requires
        ca.bounded(COORD_LIMIT as int),
        cb.bounded(COORD_LIMIT as int),
        radius_ok(ra as int),
        radius_ok(rb as int),
    ensures
        c == ball_ball_contact(ca, ra as int, cb, rb as int),
        raw_bounded(c),
{
    let d = minus(cb, ca, COORD_LIMIT);
    let len = vec_length(d);
    proof {
        let s = norm2(d);
        assert(s <= 3 * 0x4_0000_0000_0000) by (nonlinear_arith)
            requires
                -0x200_0000 <= d.x <= 0x200_0000,
                -0x200_0000 <= d.y <= 0x200_0000,
                -0x200_0000 <= d.z <= 0x200_0000,
                s == d.x * d.x + d.y * d.y + d.z * d.z,
        ;
        assert(len <= 0x400_0000) by (nonlinear_arith)
            requires
                len * len <= s,
                s <= 3 * 0x4_0000_0000_0000,
                0 <= len,
        ;
    }
    let n = if d.x == 0 && d.y == 0 && d.z == 0 {
        Vec3 { x: 0, y: NORMAL_SCALE, z: 0 }
    } else {
        unit(d)
    };
    let m = neg(n, NORMAL_SCALE);
    Contact {
        point_a: move_along(ca, n, ra, COORD_LIMIT),
        point_b: move_along(cb, m, rb, COORD_LIMIT),
        normal: n,
        depth: ra + rb - len,
        feature_a: FeatureId::Face(0),
        feature_b: FeatureId::Face(0),
    }
}

/// The contact between a plane and a ball, a segment or a polyhedron; `None`
/// for any other shape.
pub fn plane_convex(pp: Placement, n: Vec3, px: Placement, x: &Shape) -> (r: Option<Contact>)
    requires
        pp.wf(),
        px.wf(),
        is_unit(n),
        x.wf(),
    ensures
        r == plane_convex_contact(pp, n, px, *x),
        r matches Some(c) ==> raw_bounded(c),
{
    let o = pp.translation;
    match x {
        Shape::Ball { radius } => {
            let c = px.translation;
            let sd = distance_to_plane(n, minus(c, o, COORD_LIMIT));
            let depth = *radius - sd;
            let m = neg(n, NORMAL_SCALE);
            let pb = move_along(c, m, *radius, COORD_LIMIT);
            Some(
                Contact {
                    point_a: move_along(pb, n, depth, 2 * COORD_LIMIT),
                    point_b: pb,
                    normal: n,
                    depth,
                    feature_a: FeatureId::Face(0),
                    feature_b: FeatureId::Face(0),
                },
            )
        },
        Shape::Segment { a, b } => {
            let wa = plus(*a, px.translation, COORD_LIMIT);
            let wb = plus(*b, px.translation, COORD_LIMIT);
            let da = normal_dot(n, minus(wa, o, 2 * COORD_LIMIT));
            let db = normal_dot(n, minus(wb, o, 2 * COORD_LIMIT));
            let first = da <= db;
            let v = if first {
                wa
            } else {
                wb
            };
            let depth = -distance_to_plane(n, minus(v, o, 2 * COORD_LIMIT));
            let f: u32 = if first {
                0
            } else {
                1
            };
            Some(
                Contact {
                    point_a: move_along(v, n, depth, 2 * COORD_LIMIT),
                    point_b: v,
                    normal: n,
                    depth,
                    feature_a: FeatureId::Face(0),
                    feature_b: FeatureId::Vertex(f),
                },
            )
        },
        Shape::Polyhedron { vertices } => {
            let mut best: usize = 0;
            let wb0 = plus(vertices[0], px.translation, COORD_LIMIT);
            let mut best_height = normal_dot(n, minus(wb0, o, 2 * COORD_LIMIT));
            let mut i: usize = 1;
            while i < vertices.len()
                invariant
                    x.wf(),
                    *x == (Shape::Polyhedron { vertices: *vertices }),
                    pp.wf(),
                    px.wf(),
                    is_unit(n),
                    o == pp.translation,
                    1 <= i <= vertices@.len(),
                    best == extreme_vertex(vertices@, px.translation, n, o, i as nat),
                    best < vertices@.len(),
                    best_height == height(vertices@[best as int], px.translation, n, o),
                decreases vertices@.len() - i,
            {
                let w = plus(vertices[i], px.translation, COORD_LIMIT);
                let h = normal_dot(n, minus(w, o, 2 * COORD_LIMIT));
                if h < best_height {
                    best = i;
                    best_height = h;
                }
                proof {
                    lemma_extreme_vertex_range(vertices@, px.translation, n, o, (i + 1) as nat);
                }
                i = i + 1;
            }
            let v = plus(vertices[best], px.translation, COORD_LIMIT);
            let depth = -distance_to_plane(n, minus(v, o, 2 * COORD_LIMIT));
            Some(
                Contact {
                    point_a: move_along(v, n, depth, 2 * COORD_LIMIT),
                    point_b: v,
                    normal: n,
                    depth,
                    feature_a: FeatureId::Face(0),
                    feature_b: FeatureId::Vertex(best as u32),
                },
            )
        },
        _ => None,
    }
}

} // verus!
