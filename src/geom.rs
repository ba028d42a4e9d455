//! Fixed-point vectors, axis-aligned boxes, spheres and planes, and the
//! overlap and displacement tests between them.

use vstd::prelude::*;
use crate::collision::{least_axis, least_axis_of, keep_axis, only_axis};

verus! {

/// Number of fixed-point steps in one world unit.
pub const UNIT: i64 = 1000;

/// Largest magnitude of a coordinate that the geometry accepts.
pub const COORD_LIMIT: i64 = 1_000_000_000_000;

/// Largest halfwidth or radius that the geometry accepts.
pub const EXTENT_LIMIT: i64 = 1_000_000_000;

/// A vector or a point, in fixed-point steps.
#[derive(Clone, Copy, PartialEq, Eq, Debug, Structural)]
pub struct Vec3 {
    pub x: i64,
    pub y: i64,
    pub z: i64,
}

/// A point in world space.
pub type Pos3 = Vec3;

/// An axis-aligned cube.
#[derive(Clone, Copy, PartialEq, Eq, Debug, Structural)]
pub struct BBox {
    pub center: Pos3,
    pub halfwidth: i64,
}

pub open spec fn abs(v: int) -> int {
    if v < 0 {
        -v
    } else {
        v
    }
}

/// Component `a` (0 = x, 1 = y, 2 = z) of a vector.
pub open spec fn comp(v: Vec3, a: int) -> int {
    if a == 0 {
        v.x as int
    } else if a == 1 {
        v.y as int
    } else {
        v.z as int
    }
}

pub open spec fn coord_ok(c: int) -> bool {
    -COORD_LIMIT <= c <= COORD_LIMIT
}

impl Vec3 {
    /// Every coordinate lies within the accepted range.
    pub open spec fn wf(self) -> bool {
        coord_ok(self.x as int) && coord_ok(self.y as int) && coord_ok(self.z as int)
    }

    pub fn new(x: i64, y: i64, z: i64) -> (r: Vec3)
        ensures
            r.x == x && r.y == y && r.z == z,
    {
        Vec3 { x, y, z }
    }

    pub open spec fn zero_spec() -> Vec3 {
        Vec3 { x: 0, y: 0, z: 0 }
    }

    /// The vector of three zero components.
    pub fn zero() -> (r: Vec3)
        ensures
            r.x == 0 && r.y == 0 && r.z == 0,
    {
        Vec3 { x: 0, y: 0, z: 0 }
    }
}

impl BBox {
    /// A box with a positive halfwidth and a center in range.
    pub open spec fn wf(self) -> bool {
        &&& self.center.wf()
        &&& 0 < self.halfwidth <= EXTENT_LIMIT
    }
}

/// The two intervals `[c1 - reach, c1 + reach]`-style extents along one axis
/// meet: the centers are at most `reach` apart.
pub open spec fn axis_touch(c1: int, c2: int, reach: int) -> bool {
    abs(c1 - c2) <= reach
}

/// The extents along one axis overlap with positive depth.
pub open spec fn axis_overlap(c1: int, c2: int, reach: int) -> bool {
    abs(c1 - c2) < reach
}

/// Signed push along one axis that moves the first body out of the second:
/// the penetration depth, negative when the first center lies behind.
pub open spec fn axis_push(c1: int, c2: int, reach: int) -> int {
    if c1 < c2 {
        abs(c1 - c2) - reach
    } else {
        reach - abs(c1 - c2)
    }
}

pub open spec fn boxes_touch(b1: BBox, b2: BBox) -> bool {
    let reach = b1.halfwidth + b2.halfwidth;
    &&& axis_touch(b1.center.x as int, b2.center.x as int, reach)
    &&& axis_touch(b1.center.y as int, b2.center.y as int, reach)
    &&& axis_touch(b1.center.z as int, b2.center.z as int, reach)
}

/// The boxes overlap with positive depth on all three axes.
pub open spec fn boxes_overlap(b1: BBox, b2: BBox) -> bool {
    let reach = b1.halfwidth + b2.halfwidth;
    &&& axis_overlap(b1.center.x as int, b2.center.x as int, reach)
    &&& axis_overlap(b1.center.y as int, b2.center.y as int, reach)
    &&& axis_overlap(b1.center.z as int, b2.center.z as int, reach)
}

/// Component `a` of the minimum translation vector that pushes `b1` out of `b2`.
pub open spec fn box_push(b1: BBox, b2: BBox, a: int) -> int {
    axis_push(comp(b1.center, a), comp(b2.center, a), b1.halfwidth + b2.halfwidth)
}

/// `v` is the minimum translation vector that pushes `b1` out of `b2`.
pub open spec fn is_box_mtv(b1: BBox, b2: BBox, v: Vec3) -> bool {
    &&& v.x == box_push(b1, b2, 0)
    &&& v.y == box_push(b1, b2, 1)
    &&& v.z == box_push(b1, b2, 2)
}

fn abs_diff(a: i64, b: i64) -> (r: i64)
    requires
        coord_ok(a as int),
        coord_ok(b as int),
    ensures
        r == abs(a - b),
{
    if a < b {
        b - a
    } else {
        a - b
    }
}

/// Do the two boxes touch (overlap or share a face) on every axis?
pub fn touching_box_box(b1: &BBox, b2: &BBox) -> (r: bool)
    requires
        b1.wf(),
        b2.wf(),
    ensures
        r == boxes_touch(*b1, *b2),
{
    let reach = b1.halfwidth + b2.halfwidth;
    if reach < abs_diff(b1.center.x, b2.center.x) {
        return false;
    }
    if reach < abs_diff(b1.center.y, b2.center.y) {
        return false;
    }
    if reach < abs_diff(b1.center.z, b2.center.z) {
        return false;
    }
    true
}

fn push_along(c1: i64, c2: i64, reach: i64) -> (r: i64)
    requires
        coord_ok(c1 as int),
        coord_ok(c2 as int),
        0 < reach <= 2 * EXTENT_LIMIT,
        axis_overlap(c1 as int, c2 as int, reach as int),
    ensures
        r == axis_push(c1 as int, c2 as int, reach as int),
{
    let depth = reach - abs_diff(c1, c2);
    if c1 < c2 {
        -depth
    } else {
        depth
    }
}

/// The minimum translation vector that pushes `b1` out of `b2`, or `None`
/// when the boxes do not overlap with positive depth on all three axes.
/// Each component is the full penetration depth along its axis, signed so
/// that adding it to `b1`'s center moves `b1` away from `b2`.
pub fn disp_box_box(b1: &BBox, b2: &BBox) -> (r: Option<Vec3>)
    requires
        b1.wf(),
        b2.wf(),
    ensures
        r.is_some() == boxes_overlap(*b1, *b2),
        r matches Some(v) ==> is_box_mtv(*b1, *b2, v),
{
    let reach = b1.halfwidth + b2.halfwidth;
    if reach <= abs_diff(b1.center.x, b2.center.x) || reach <= abs_diff(b1.center.y, b2.center.y)
        || reach <= abs_diff(b1.center.z, b2.center.z) {
        return None;
    }
    Some(
        Vec3 {
            x: push_along(b1.center.x, b2.center.x, reach),
            y: push_along(b1.center.y, b2.center.y, reach),
            z: push_along(b1.center.z, b2.center.z, reach),
        },
    )
}

/// A sphere.
#[derive(Clone, Copy, PartialEq, Eq, Debug, Structural)]
pub struct Sphere {
    pub c: Pos3,
    pub r: i64,
}

/// A plane: points `p` with `dot(p, n) / UNIT == d`. The normal `n` has
/// length `UNIT`, so `d` is the signed distance of the plane from the
/// origin.
#[derive(Clone, Copy, PartialEq, Eq, Debug, Structural)]
pub struct Plane {
    pub n: Vec3,
    pub d: i64,
}

impl Sphere {
    /// A center in range and a radius between zero and the limit.
    pub open spec fn wf(self) -> bool {
        &&& self.c.wf()
        &&& 0 <= self.r <= EXTENT_LIMIT
    }
}

impl Plane {
    /// Normal components of at most one unit and an offset in range.
    pub open spec fn wf(self) -> bool {
        &&& -UNIT <= self.n.x <= UNIT
        &&& -UNIT <= self.n.y <= UNIT
        &&& -UNIT <= self.n.z <= UNIT
        &&& coord_ok(self.d as int)
    }
}

/// Squared distance between two points.
pub open spec fn dist2(p1: Pos3, p2: Pos3) -> int {
    (p1.x - p2.x) * (p1.x - p2.x) + (p1.y - p2.y) * (p1.y - p2.y) + (p1.z - p2.z) * (p1.z - p2.z)
}

/// `r` is the integer square root of `n`, rounded down.
pub open spec fn is_isqrt(n: int, r: int) -> bool {
    0 <= r && r * r <= n < (r + 1) * (r + 1)
}

/// `a / b` rounded toward zero, for a positive `b`.
pub open spec fn trunc_div(a: int, b: int) -> int {
    if a >= 0 {
        a / b
    } else {
        -((-a) / b)
    }
}

/// Signed distance of a point from a plane, positive on the normal's side.
pub open spec fn plane_dist(c: Pos3, p: Plane) -> int {
    trunc_div(c.x * p.n.x + c.y * p.n.y + c.z * p.n.z, UNIT as int) - p.d
}

/// The plane's normal scaled by `m`, in fixed point: each component is
/// `n * m / UNIT`, rounded toward zero.
pub open spec fn scaled_normal(p: Plane, m: int, a: int) -> int {
    trunc_div(comp(p.n, a) * m, UNIT as int)
}

pub(crate) fn isqrt(n: u128) -> (r: u64)
    requires
        n < 0x1_0000_0000_0000_0000_0000_0000,
    ensures
        is_isqrt(n as int, r as int),
{
    let mut lo: u128 = 0;
    let mut hi: u128 = 0x1_0000_0000_0000;
    assert(hi * hi > n) by (nonlinear_arith)
        requires
            hi == 0x1_0000_0000_0000,
            n < 0x1_0000_0000_0000_0000_0000_0000,
    ;
    while lo + 1 < hi
        invariant
            lo < hi <= 0x1_0000_0000_0000,
            lo * lo <= n,
            n < hi * hi,
        decreases hi - lo,
    {
        let mid = lo + (hi - lo) / 2;
        assert(mid * mid <= 0x1_0000_0000_0000_0000_0000_0000) by (nonlinear_arith)
            requires
                mid < 0x1_0000_0000_0000,
        ;
        if mid * mid <= n {
            lo = mid;
        } else {
            hi = mid;
        }
    }
    assert(hi == lo + 1);
    lo as u64
}

pub(crate) fn mul_small(a: i128, b: i128) -> (r: i128)
    requires
        -0x4000_0000_0000_0000 <= a <= 0x4000_0000_0000_0000,
        -0x4000_0000_0000_0000 <= b <= 0x4000_0000_0000_0000,
    ensures
        r == a * b,
{
    assert(-0x1000_0000_0000_0000_0000_0000_0000_0000 <= a * b <= 0x1000_0000_0000_0000_0000_0000_0000_0000)
        by (nonlinear_arith)
        requires
            -0x4000_0000_0000_0000 <= a <= 0x4000_0000_0000_0000,
            -0x4000_0000_0000_0000 <= b <= 0x4000_0000_0000_0000,
    ;
    a * b
}

fn abs_of(v: i128) -> (r: u128)
    requires
        v > -0x1_0000_0000_0000_0000_0000_0000,
    ensures
        r == abs(v as int),
{
    if v < 0 {
        (-v) as u128
    } else {
        v as u128
    }
}

pub(crate) fn dist2_of(p1: &Pos3, p2: &Pos3) -> (r: u128)
    requires
        p1.wf(),
        p2.wf(),
    ensures
        r == dist2(*p1, *p2),
        r < 0x1_0000_0000_0000_0000_0000_0000,
{
    let dx = (p1.x - p2.x) as i128;
    let dy = (p1.y - p2.y) as i128;
    let dz = (p1.z - p2.z) as i128;
    assert(dx * dx <= 4_000_000_000_000_000_000_000_000 && dy * dy <= 4_000_000_000_000_000_000_000_000
        && dz * dz <= 4_000_000_000_000_000_000_000_000) by (nonlinear_arith)
        requires
            -2_000_000_000_000 <= dx <= 2_000_000_000_000,
            -2_000_000_000_000 <= dy <= 2_000_000_000_000,
            -2_000_000_000_000 <= dz <= 2_000_000_000_000,
    ;
    assert(dx * dx >= 0 && dy * dy >= 0 && dz * dz >= 0) by (nonlinear_arith);
    (dx * dx + dy * dy + dz * dz) as u128
}

pub(crate) fn trunc_div_exec(a: i128, b: i128) -> (r: i128)
    requires
        b > 0,
        a > -0x1_0000_0000_0000_0000_0000_0000,
        a < 0x1_0000_0000_0000_0000_0000_0000,
    ensures
        r == trunc_div(a as int, b as int),
{
    if a >= 0 {
        a / b
    } else {
        -((-a) / b)
    }
}

/// Euclidean distance between two points, rounded down to a whole step.
pub fn dist_3d(p1: Pos3, p2: Pos3) -> (r: i64)
    requires
        p1.wf(),
        p2.wf(),
    ensures
        is_isqrt(dist2(p1, p2), r as int),
{
    let d2 = dist2_of(&p1, &p2);
    let r = isqrt(d2);
    assert(r < 0x1_0000_0000_0000) by (nonlinear_arith)
        requires
            r * r <= d2,
            d2 < 0x1_0000_0000_0000_0000_0000_0000,
    ;
    r as i64
}

/// Do the two spheres touch: is the distance between their centers at most
/// the sum of their radii?
pub fn touching_sphere_sphere(s1: &Sphere, s2: &Sphere) -> (r: bool)
    requires
        s1.wf(),
        s2.wf(),
    ensures
        r == (dist2(s2.c, s1.c) <= (s1.r + s2.r) * (s1.r + s2.r)),
{
    let reach = (s1.r + s2.r) as i128;
    dist2_of(&s2.c, &s1.c) <= mul_small(reach, reach) as u128
}

/// Does the sphere touch the box: is the distance between their centers at
/// most the sum of the radius and the halfwidth?
pub fn touching_box_sphere(b: &BBox, s: &Sphere) -> (r: bool)
    requires
        b.wf(),
        s.wf(),
    ensures
        r == (dist2(s.c, b.center) <= (s.r + b.halfwidth) * (s.r + b.halfwidth)),
{
    let reach = (s.r + b.halfwidth) as i128;
    dist2_of(&s.c, &b.center) <= mul_small(reach, reach) as u128
}

/// The push that moves `s2` out of `s1` when their centers are closer than
/// the sum of the radii: the offset from `s1` to `s2` scaled to the missing
/// distance. Coinciding centers give the zero vector. `None` when the
/// spheres do not overlap.
pub fn disp_sphere_sphere(s1: &Sphere, s2: &Sphere) -> (r: Option<Vec3>)
    requires
        s1.wf(),
        s2.wf(),
    ensures
        r.is_some() == (dist2(s2.c, s1.c) < (s1.r + s2.r) * (s1.r + s2.r)),
        r matches Some(v) ==> forall|dist: int|
            #![trigger is_isqrt(dist2(s2.c, s1.c), dist)]
            is_isqrt(dist2(s2.c, s1.c), dist) ==> {
                let d = if dist == 0 { UNIT as int } else { dist };
                let m = s1.r + s2.r - d;
                &&& v.x == trunc_div((s2.c.x - s1.c.x) * m, d)
                &&& v.y == trunc_div((s2.c.y - s1.c.y) * m, d)
                &&& v.z == trunc_div((s2.c.z - s1.c.z) * m, d)
            },
{
    let d2 = dist2_of(&s2.c, &s1.c);
    let reach = (s1.r + s2.r) as i128;
    if d2 >= mul_small(reach, reach) as u128 {
        return None;
    }
    let dist = isqrt(d2) as i128;
    proof {
        lemma_isqrt_unique(d2 as int);
        assert(dist < reach) by (nonlinear_arith)
            requires
                dist * dist <= d2,
                d2 < reach * reach,
                dist >= 0,
                reach >= 0,
        ;
    }
    let d: i128 = if dist == 0 {
        UNIT as i128
    } else {
        dist
    };
    let m = (s1.r + s2.r) as i128 - d;
    let ox = (s2.c.x - s1.c.x) as i128;
    let oy = (s2.c.y - s1.c.y) as i128;
    let oz = (s2.c.z - s1.c.z) as i128;
    proof {
        lemma_comp_within_dist(ox as int, oy as int, oz as int, d2 as int, dist as int);
        lemma_comp_within_dist(oy as int, ox as int, oz as int, d2 as int, dist as int);
        lemma_comp_within_dist(oz as int, oy as int, ox as int, d2 as int, dist as int);
        lemma_scaled_offset_bound(ox as int, m as int, d as int);
        lemma_scaled_offset_bound(oy as int, m as int, d as int);
        lemma_scaled_offset_bound(oz as int, m as int, d as int);
    }
    Some(Vec3 {
        x: trunc_div_exec(mul_small(ox, m), d) as i64,
        y: trunc_div_exec(mul_small(oy, m), d) as i64,
        z: trunc_div_exec(mul_small(oz, m), d) as i64,
    })
}

pub(crate) proof fn lemma_isqrt_unique(n: int)
    ensures
        forall|a: int, b: int| #![trigger is_isqrt(n, a), is_isqrt(n, b)]
            is_isqrt(n, a) && is_isqrt(n, b) ==> a == b,
{
    assert forall|a: int, b: int| #![trigger is_isqrt(n, a), is_isqrt(n, b)]
        is_isqrt(n, a) && is_isqrt(n, b) implies a == b by {
        if a < b {
            assert((a + 1) * (a + 1) <= b * b) by (nonlinear_arith)
                requires
                    0 <= a < b,
            ;
        } else if b < a {
            assert((b + 1) * (b + 1) <= a * a) by (nonlinear_arith)
                requires
                    0 <= b < a,
            ;
        }
    }
}

pub(crate) proof fn lemma_comp_within_dist(a: int, b: int, c: int, d2: int, dist: int)
    requires
        d2 == a * a + b * b + c * c,
        is_isqrt(d2, dist),
    ensures
        abs(a) <= dist,
        dist == 0 ==> a == 0,
{
    assert(b * b >= 0 && c * c >= 0) by (nonlinear_arith);
    assert(abs(a) * abs(a) == a * a) by (nonlinear_arith);
    assert(abs(a) <= dist) by (nonlinear_arith)
        requires
            abs(a) * abs(a) <= d2,
            d2 < (dist + 1) * (dist + 1),
            abs(a) >= 0,
            dist >= 0,
    ;
}

pub(crate) proof fn lemma_scaled_offset_bound(o: int, m: int, d: int)
    requires
        0 < d,
        abs(o) <= d,
        -2_000_000_000_000 <= o <= 2_000_000_000_000,
        -4_000_000_000 <= m <= 4_000_000_000,
    ensures
        -4_000_000_000 <= trunc_div(o * m, d) <= 4_000_000_000,
        -8_000_000_000_000_000_000_000 <= o * m <= 8_000_000_000_000_000_000_000,
{
    assert(-8_000_000_000_000_000_000_000 <= o * m <= 8_000_000_000_000_000_000_000) by (nonlinear_arith)
        requires
            -2_000_000_000_000 <= o <= 2_000_000_000_000,
            -4_000_000_000 <= m <= 4_000_000_000,
    ;
    let a = abs(o) * abs(m);
    assert(abs(o * m) == a) by (nonlinear_arith)
        requires
            a == abs(o) * abs(m),
    ;
    assert(a <= d * abs(m)) by (nonlinear_arith)
        requires
            a == abs(o) * abs(m),
            abs(o) <= d,
            abs(m) >= 0,
    ;
    assert(0 <= a / d <= abs(m)) by (nonlinear_arith)
        requires
            0 <= a <= d * abs(m),
            0 < d,
    ;
}

/// The push that moves the box out of the sphere along the axis of least
/// penetration, when they touch: the per-axis penetrations are those of the
/// box against a box of the sphere's radius, and only the smallest (with y
/// preferred, then x) is kept. `None` when they do not touch.
pub fn disp_box_sphere(b: &BBox, s: &Sphere) -> (r: Option<Vec3>)
    requires
        b.wf(),
        s.wf(),
    ensures
        r.is_some() == (dist2(s.c, b.center) <= (s.r + b.halfwidth) * (s.r + b.halfwidth)),
        r matches Some(v) ==> {
            let reach = s.r + b.halfwidth;
            let full = Vec3 {
                x: axis_push(b.center.x as int, s.c.x as int, reach) as i64,
                y: axis_push(b.center.y as int, s.c.y as int, reach) as i64,
                z: axis_push(b.center.z as int, s.c.z as int, reach) as i64,
            };
            v == only_axis(full, least_axis(full))
        },
{
    if !touching_box_sphere(b, s) {
        return None;
    }
    let reach = s.r + b.halfwidth;
    proof {
        lemma_comp_touch(s.c.x - b.center.x, s.c.y - b.center.y, s.c.z - b.center.z, reach as int);
        lemma_comp_touch(s.c.y - b.center.y, s.c.x - b.center.x, s.c.z - b.center.z, reach as int);
        lemma_comp_touch(s.c.z - b.center.z, s.c.y - b.center.y, s.c.x - b.center.x, reach as int);
    }
    let full = Vec3 {
        x: push_touching(b.center.x, s.c.x, reach),
        y: push_touching(b.center.y, s.c.y, reach),
        z: push_touching(b.center.z, s.c.z, reach),
    };
    let a = least_axis_of(&full);
    Some(keep_axis(&full, a))
}

proof fn lemma_comp_touch(a: int, b: int, c: int, reach: int)
    requires
        reach >= 0,
        (s_sq(a) + s_sq(b) + s_sq(c)) <= reach * reach,
    ensures
        abs(a) <= reach,
{
    assert(s_sq(b) >= 0 && s_sq(c) >= 0) by (nonlinear_arith);
    assert(abs(a) * abs(a) == s_sq(a)) by (nonlinear_arith);
    assert(abs(a) <= reach) by (nonlinear_arith)
        requires
            abs(a) * abs(a) <= reach * reach,
            reach >= 0,
            abs(a) >= 0,
    ;
}

spec fn s_sq(a: int) -> int {
    a * a
}

fn push_touching(c1: i64, c2: i64, reach: i64) -> (r: i64)
    requires
        coord_ok(c1 as int),
        coord_ok(c2 as int),
        0 <= reach <= 2 * EXTENT_LIMIT,
        axis_touch(c1 as int, c2 as int, reach as int),
    ensures
        r == axis_push(c1 as int, c2 as int, reach as int),
{
    let depth = reach - abs_diff(c1, c2);
    if c1 < c2 {
        -depth
    } else {
        depth
    }
}

/// Does the sphere reach the plane: is its center at most its radius away?
pub fn touching_sphere_plane(s: &Sphere, p: &Plane) -> (r: bool)
    requires
        s.wf(),
        p.wf(),
    ensures
        r == (abs(plane_dist(s.c, *p)) <= s.r),
{
    let dist = plane_dist_of(&s.c, p);
    abs_of(dist) <= s.r as u128
}

fn plane_dist_of(c: &Pos3, p: &Plane) -> (r: i128)
    requires
        c.wf(),
        p.wf(),
    ensures
        r == plane_dist(*c, *p),
        -4_000_000_000_000 <= r <= 4_000_000_000_000,
{
    let x = mul_small(c.x as i128, p.n.x as i128);
    let y = mul_small(c.y as i128, p.n.y as i128);
    let z = mul_small(c.z as i128, p.n.z as i128);
    assert(-1_000_000_000_000_000 <= x <= 1_000_000_000_000_000 && -1_000_000_000_000_000 <= y
        <= 1_000_000_000_000_000 && -1_000_000_000_000_000 <= z <= 1_000_000_000_000_000)
        by (nonlinear_arith)
        requires
            x == c.x * p.n.x,
            y == c.y * p.n.y,
            z == c.z * p.n.z,
            -1_000_000_000_000 <= c.x <= 1_000_000_000_000,
            -1_000_000_000_000 <= c.y <= 1_000_000_000_000,
            -1_000_000_000_000 <= c.z <= 1_000_000_000_000,
            -1000 <= p.n.x <= 1000,
            -1000 <= p.n.y <= 1000,
            -1000 <= p.n.z <= 1000,
    ;
    let dot = x + y + z;
    let q = trunc_div_exec(dot, UNIT as i128);
    assert(-3_000_000_000_000 <= q <= 3_000_000_000_000) by (nonlinear_arith)
        requires
            -3_000_000_000_000_000 <= dot <= 3_000_000_000_000_000,
            q == trunc_div(dot as int, 1000),
    {
        if dot >= 0 {
            assert(dot / 1000 <= 3_000_000_000_000);
        } else {
            assert((-dot) / 1000 <= 3_000_000_000_000);
        }
    }
    q - p.d as i128
}

fn scaled_normal_of(p: &Plane, m: i128, num: i128, den: i128) -> (r: Vec3)
    requires
        p.wf(),
        -8_000_000_000_000 <= m <= 8_000_000_000_000,
        1 <= num <= 1000,
        1 <= den,
    ensures
        r.x == trunc_div(p.n.x * m * num, den as int),
        r.y == trunc_div(p.n.y * m * num, den as int),
        r.z == trunc_div(p.n.z * m * num, den as int),
{
    let ghost bound: int = 8_000_000_000_000_000_000;
    assert(forall|c: int| -1000 <= c <= 1000 ==> -bound <= #[trigger] (c * m * num) <= bound)
        by (nonlinear_arith)
        requires
            -8_000_000_000_000 <= m <= 8_000_000_000_000,
            1 <= num <= 1000,
            bound == 8_000_000_000_000_000_000,
    ;
    proof {
        lemma_trunc_div_shrinks(p.n.x * m * num, den as int);
        lemma_trunc_div_shrinks(p.n.y * m * num, den as int);
        lemma_trunc_div_shrinks(p.n.z * m * num, den as int);
    }
    let xm = mul_small(p.n.x as i128, m);
    let ym = mul_small(p.n.y as i128, m);
    let zm = mul_small(p.n.z as i128, m);
    assert(forall|c: int| -1000 <= c <= 1000 ==> -8_000_000_000_000_000 <= #[trigger] (c * m) <= 8_000_000_000_000_000)
        by (nonlinear_arith)
        requires
            -8_000_000_000_000 <= m <= 8_000_000_000_000,
    ;
    let x = mul_small(xm, num);
    let y = mul_small(ym, num);
    let z = mul_small(zm, num);
    Vec3 {
        x: trunc_div_exec(x, den) as i64,
        y: trunc_div_exec(y, den) as i64,
        z: trunc_div_exec(z, den) as i64,
    }
}

proof fn lemma_trunc_div_shrinks(a: int, d: int)
    requires
        d >= 1,
    ensures
        abs(trunc_div(a, d)) <= abs(a),
{
    if a >= 0 {
        assert(a / d <= a) by (nonlinear_arith)
            requires
                a >= 0,
                d >= 1,
        ;
    } else {
        assert((-a) / d <= -a) by (nonlinear_arith)
            requires
                a < 0,
                d >= 1,
        ;
        assert((-a) / d >= 0) by (nonlinear_arith)
            requires
                a < 0,
                d >= 1,
        ;
    }
}

/// The push that moves the sphere off the plane along its normal, when the
/// sphere reaches the plane: the normal scaled by the radius minus the
/// signed distance. `None` when the sphere does not reach the plane.
pub fn disp_sphere_plane(s: &Sphere, p: &Plane) -> (r: Option<Vec3>)
    requires
        s.wf(),
        p.wf(),
    ensures
        r.is_some() == (abs(plane_dist(s.c, *p)) <= s.r),
        r matches Some(v) ==> {
            let m = s.r - plane_dist(s.c, *p);
            &&& v.x == trunc_div(p.n.x * m * 1, UNIT as int)
            &&& v.y == trunc_div(p.n.y * m * 1, UNIT as int)
            &&& v.z == trunc_div(p.n.z * m * 1, UNIT as int)
        },
{
    let dist = plane_dist_of(&s.c, p);
    if abs_of(dist) <= s.r as u128 {
        Some(scaled_normal_of(p, s.r as i128 - dist, 1, UNIT as i128))
    } else {
        None
    }
}

/// The push that moves the box off the plane along its normal, when the
/// box's center is at most its halfwidth from the plane: the normal scaled
/// by the halfwidth minus the signed distance, with a margin of three
/// percent. `None` otherwise.
pub fn disp_box_plane(b: &BBox, p: &Plane) -> (r: Option<Vec3>)
    requires
        b.wf(),
        p.wf(),
    ensures
        r.is_some() == (abs(plane_dist(b.center, *p)) <= b.halfwidth),
        r matches Some(v) ==> {
            let m = b.halfwidth - plane_dist(b.center, *p);
            &&& v.x == trunc_div(p.n.x * m * 103, 100 * UNIT)
            &&& v.y == trunc_div(p.n.y * m * 103, 100 * UNIT)
            &&& v.z == trunc_div(p.n.z * m * 103, 100 * UNIT)
        },
{
    let dist = plane_dist_of(&b.center, p);
    if abs_of(dist) <= b.halfwidth as u128 {
        Some(scaled_normal_of(p, b.halfwidth as i128 - dist, 103, 100 * UNIT as i128))
    } else {
        None
    }
}

/// Swapping the two boxes keeps whether they overlap, and where their
/// centers differ on every axis, the displacement of one is the negation of
/// the displacement of the other.
pub proof fn lemma_disp_box_box_symmetric(b1: BBox, b2: BBox, v1: Vec3, v2: Vec3)
    requires
        b1.center.x != b2.center.x,
        b1.center.y != b2.center.y,
        b1.center.z != b2.center.z,
        is_box_mtv(b1, b2, v1),
        is_box_mtv(b2, b1, v2),
    ensures
        boxes_overlap(b1, b2) == boxes_overlap(b2, b1),
        v1.x == -v2.x,
        v1.y == -v2.y,
        v1.z == -v2.z,
{
}

/// Whether two boxes overlap does not depend on their order.
pub proof fn lemma_boxes_overlap_symmetric(b1: BBox, b2: BBox)
    ensures
        boxes_overlap(b1, b2) == boxes_overlap(b2, b1),
{
}

/// Two boxes whose centers are farther apart than the sum of their
/// halfwidths along some axis do not overlap.
pub proof fn lemma_separated_boxes_do_not_overlap(b1: BBox, b2: BBox, a: int)
    requires
        0 <= a < 3,
        abs(comp(b1.center, a) - comp(b2.center, a)) > b1.halfwidth + b2.halfwidth,
    ensures
        !boxes_overlap(b1, b2),
{
}

} // verus!
