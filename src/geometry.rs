use vstd::prelude::*;
use vstd::math::abs;

verus! {

/// Largest magnitude of a local coordinate, a translation component, a radius
/// or a margin.
pub const COORD_LIMIT: i64 = 16777216;

/// Largest magnitude of a world coordinate (a local one plus a translation).
pub const WORLD_LIMIT: i64 = 33554432;

/// Fixed-point length of a unit normal.
pub const NORMAL_SCALE: i64 = 65536;

/// A point or a vector with fixed-point integer coordinates.
#[derive(Clone, Copy, Debug, PartialEq, Eq, Structural)]
pub struct Vec3 {
    pub x: i64,
    pub y: i64,
    pub z: i64,
}

pub open spec fn within(v: int, bound: int) -> bool {
    -bound <= v <= bound
}

impl Vec3 {
    /// Every coordinate lies in `[-bound, bound]`.
    pub open spec fn bounded(self, bound: int) -> bool {
        within(self.x as int, bound) && within(self.y as int, bound) && within(self.z as int, bound)
    }

    pub open spec fn is_zero(self) -> bool {
        self.x == 0 && self.y == 0 && self.z == 0
    }

    pub fn new(x: i64, y: i64, z: i64) -> (r: Vec3)
        ensures
            r.x == x && r.y == y && r.z == z,
    {
        Vec3 { x, y, z }
    }
}

pub open spec fn vadd(a: Vec3, b: Vec3) -> Vec3 {
    Vec3 { x: (a.x + b.x) as i64, y: (a.y + b.y) as i64, z: (a.z + b.z) as i64 }
}

pub open spec fn vsub(a: Vec3, b: Vec3) -> Vec3 {
    Vec3 { x: (a.x - b.x) as i64, y: (a.y - b.y) as i64, z: (a.z - b.z) as i64 }
}

pub open spec fn vneg(a: Vec3) -> Vec3 {
    Vec3 { x: (-a.x) as i64, y: (-a.y) as i64, z: (-a.z) as i64 }
}

pub open spec fn dot(a: Vec3, b: Vec3) -> int {
    a.x * b.x + a.y * b.y + a.z * b.z
}

pub open spec fn norm2(a: Vec3) -> int {
    dot(a, a)
}

/// `r` is the integer square root of `n`, rounded down.
pub open spec fn is_floor_sqrt(n: int, r: int) -> bool {
    0 <= r && r * r <= n < (r + 1) * (r + 1)
}

/// The integer square root of `n`, rounded down.
pub open spec fn floor_sqrt(n: int) -> int {
    choose|r: int| is_floor_sqrt(n, r)
}

/// Division that rounds toward zero, as integer division of a machine does.
pub open spec fn trunc_div(a: int, b: int) -> int {
    if a >= 0 {
        a / b
    } else {
        -((-a) / b)
    }
}

/// `v` scaled by `num / den`, each coordinate rounded toward zero.
pub open spec fn scale_div(v: Vec3, num: int, den: int) -> Vec3 {
    Vec3 {
        x: trunc_div(v.x * num, den) as i64,
        y: trunc_div(v.y * num, den) as i64,
        z: trunc_div(v.z * num, den) as i64,
    }
}

/// Euclidean length of `d`, rounded down.
pub open spec fn length(d: Vec3) -> int {
    floor_sqrt(norm2(d))
}

/// The direction of `d` as a fixed-point unit vector.
pub open spec fn unit_of(d: Vec3) -> Vec3 {
    scale_div(d, NORMAL_SCALE as int, length(d))
}

/// `p` moved by the distance `r` along the unit normal `n`.
pub open spec fn offset(p: Vec3, n: Vec3, r: int) -> Vec3 {
    vadd(p, scale_div(n, r, NORMAL_SCALE as int))
}

pub proof fn lemma_floor_sqrt_unique(n: int, r: int)
    requires
        is_floor_sqrt(n, r),
    ensures
        floor_sqrt(n) == r,
{
    let s = floor_sqrt(n);
    assert(is_floor_sqrt(n, s));
    if s < r {
        assert((s + 1) * (s + 1) <= r * r) by (nonlinear_arith)
            requires
                0 <= s < r,
        ;
    } else if r < s {
        assert((r + 1) * (r + 1) <= s * s) by (nonlinear_arith)
            requires
                0 <= r < s,
        ;
    }
}

/// A coordinate is no longer than the rounded-down length of its vector.
pub proof fn lemma_coord_below_length(c: int, n: int, r: int)
    requires
        c * c <= n,
        is_floor_sqrt(n, r),
    ensures
        -r <= c <= r,
{
    if c > r {
        assert((r + 1) * (r + 1) <= c * c) by (nonlinear_arith)
            requires
                0 <= r,
                r + 1 <= c,
        ;
    }
    if c < -r {
        assert((r + 1) * (r + 1) <= c * c) by (nonlinear_arith)
            requires
                0 <= r,
                c <= -(r + 1),
        ;
    }
}

pub proof fn lemma_trunc_div_bound(a: int, b: int, m: int)
    requires
        b > 0,
        -(m * b) <= a <= m * b,
        m >= 0,
    ensures
        -m <= trunc_div(a, b) <= m,
{
    if a >= 0 {
        assert(a / b <= m) by (nonlinear_arith)
            requires
                b > 0,
                0 <= a <= m * b,
        ;
        assert(a / b >= 0) by (nonlinear_arith)
            requires
                b > 0,
                0 <= a,
        ;
    } else {
        assert((-a) / b <= m) by (nonlinear_arith)
            requires
                b > 0,
                0 <= -a <= m * b,
        ;
        assert((-a) / b >= 0) by (nonlinear_arith)
            requires
                b > 0,
                0 <= -a,
        ;
    }
}

pub proof fn lemma_trunc_div_neg(a: int, b: int)
    requires
        b > 0,
    ensures
        trunc_div(-a, b) == -trunc_div(a, b),
{
    if a == 0 {
        assert(0int / b == 0) by (nonlinear_arith)
            requires
                b > 0,
        ;
    }
}

/// Integer square root, rounded down.
pub fn isqrt(n: u64) -> (r: u64)
    requires
        n <= 0x1000_0000_0000_0000u64,
    ensures
        is_floor_sqrt(n as int, r as int),
        r as int == floor_sqrt(n as int),
        r <= 0x4000_0000u64,
{
    let mut lo: u64 = 0;
    let mut hi: u64 = 0x4000_0001;
    assert(0x4000_0001u64 * 0x4000_0001u64 > 0x1000_0000_0000_0000u64) by (nonlinear_arith);
    while hi - lo > 1
        invariant
            lo < hi <= 0x4000_0001,
            lo * lo <= n,
            n < hi * hi,
        decreases hi - lo,
    {
        let mid: u64 = lo + (hi - lo) / 2;
        assert(mid * mid <= 0x4000_0001u64 * 0x4000_0001u64) by (nonlinear_arith)
            requires
                mid <= 0x4000_0001u64,
        ;
        if mid * mid <= n {
            lo = mid;
        } else {
            hi = mid;
        }
    }
    assert(hi == lo + 1);
    proof {
        lemma_floor_sqrt_unique(n as int, lo as int);
    }
    lo
}

/// Division of `a` by a positive `b`, rounded toward zero.
pub fn div_toward_zero(a: i64, b: i64) -> (r: i64)
    requires
        b > 0,
        a > i64::MIN,
    ensures
        r == trunc_div(a as int, b as int),
{
    if a >= 0 {
        a / b
    } else {
        let q = (-a) / b;
        -q
    }
}

pub fn plus(a: Vec3, b: Vec3, bound: i64) -> (r: Vec3)
    requires
        a.bounded(bound as int),
        b.bounded(bound as int),
        0 <= bound <= 0x1000_0000_0000_0000i64,
    ensures
        r == vadd(a, b),
        r.bounded(2 * bound),
{
    Vec3 { x: a.x + b.x, y: a.y + b.y, z: a.z + b.z }
}

pub fn minus(a: Vec3, b: Vec3, bound: i64) -> (r: Vec3)
    requires
        a.bounded(bound as int),
        b.bounded(bound as int),
        0 <= bound <= 0x1000_0000_0000_0000i64,
    ensures
        r == vsub(a, b),
        r.bounded(2 * bound),
{
    Vec3 { x: a.x - b.x, y: a.y - b.y, z: a.z - b.z }
}

pub fn neg(a: Vec3, bound: i64) -> (r: Vec3)
    requires
        a.bounded(bound as int),
        0 <= bound <= 0x1000_0000_0000_0000i64,
    ensures
        r == vneg(a),
        r.bounded(bound as int),
{
    Vec3 { x: -a.x, y: -a.y, z: -a.z }
}

/// Dot product of two vectors whose coordinates are at most `2 * WORLD_LIMIT`.
pub fn dot_product(a: Vec3, b: Vec3) -> (r: i64)
    requires
        a.bounded(2 * WORLD_LIMIT),
        b.bounded(2 * WORLD_LIMIT),
    ensures
        r == dot(a, b),
        -0x30_0000_0000_0000 <= r <= 0x30_0000_0000_0000,
{
    let ghost w: int = 0x400_0000;
    assert(w * w == 0x10_0000_0000_0000int) by (nonlinear_arith)
        requires
            w == 0x400_0000,
    ;
    assert(-(w * w) <= a.x * b.x <= w * w) by (nonlinear_arith)
        requires
            -w <= a.x <= w,
            -w <= b.x <= w,
    ;
    assert(-(w * w) <= a.y * b.y <= w * w) by (nonlinear_arith)
        requires
            -w <= a.y <= w,
            -w <= b.y <= w,
    ;
    assert(-(w * w) <= a.z * b.z <= w * w) by (nonlinear_arith)
        requires
            -w <= a.z <= w,
            -w <= b.z <= w,
    ;
    a.x * b.x + a.y * b.y + a.z * b.z
}

/// Rounded-down Euclidean length of a vector of world differences.
pub fn vec_length(d: Vec3) -> (r: i64)
    requires
        d.bounded(2 * WORLD_LIMIT),
    ensures
        r == length(d),
        is_floor_sqrt(norm2(d), r as int),
        0 <= r <= 0x4000_0000,
        within(d.x as int, r as int),
        within(d.y as int, r as int),
        within(d.z as int, r as int),
{
    let s = dot_product(d, d);
    assert(d.x * d.x >= 0 && d.y * d.y >= 0 && d.z * d.z >= 0) by (nonlinear_arith);
    let r = isqrt(s as u64);
    proof {
        lemma_coord_below_length(d.x as int, s as int, r as int);
        lemma_coord_below_length(d.y as int, s as int, r as int);
        lemma_coord_below_length(d.z as int, s as int, r as int);
    }
    r as i64
}

/// The coordinate `c * num / den`, rounded toward zero, where `|c| <= den`.
fn scale_coord(c: i64, num: i64, den: i64) -> (r: i64)
    requires
        den > 0,
        within(num as int, 0x1000_0000),
        den <= 0x4000_0000,
        within(c as int, den as int),
    ensures
        r == trunc_div(c * num, den as int),
        within(r as int, abs(num as int) as int),
{
    let ghost m: int = abs(num as int) as int;
    assert(-(m * den) <= c * num <= m * den) by (nonlinear_arith)
        requires
            -den <= c <= den,
            m == abs(num as int) as int,
    ;
    assert(m * den <= 0x1000_0000int * 0x4000_0000int) by (nonlinear_arith)
        requires
            0 <= m <= 0x1000_0000int,
            0 < den <= 0x4000_0000int,
    ;
    proof {
        lemma_trunc_div_bound(c * num, den as int, m);
    }
    div_toward_zero(c * num, den)
}

/// The unit vector along a nonzero vector of world differences.
pub fn unit(d: Vec3) -> (n: Vec3)
    requires
        d.bounded(2 * WORLD_LIMIT),
        !d.is_zero(),
    ensures
        n == unit_of(d),
        n.bounded(NORMAL_SCALE as int),
{
    let len = vec_length(d);
    if len == 0 {
        assert(false);
    }
    Vec3 {
        x: scale_coord(d.x, NORMAL_SCALE, len),
        y: scale_coord(d.y, NORMAL_SCALE, len),
        z: scale_coord(d.z, NORMAL_SCALE, len),
    }
}

/// `p` moved by the signed distance `r` along the unit normal `n`.
pub fn move_along(p: Vec3, n: Vec3, r: i64, bound: i64) -> (q: Vec3)
    requires
        n.bounded(NORMAL_SCALE as int),
        within(r as int, 0x1000_0000),
        p.bounded(bound as int),
        0 <= bound <= 0x1000_0000_0000i64,
    ensures
        q == offset(p, n, r as int),
        q.bounded(bound + abs(r as int) as int),
{
    let s = Vec3 {
        x: scale_coord(n.x, r, NORMAL_SCALE),
        y: scale_coord(n.y, r, NORMAL_SCALE),
        z: scale_coord(n.z, r, NORMAL_SCALE),
    };
    Vec3 { x: p.x + s.x, y: p.y + s.y, z: p.z + s.z }
}

} // verus!
