//! The camera the player looks through: the horizontal walking steps it
//! gives, the points along its line of sight, and how it follows the player.

use vstd::prelude::*;
use crate::geom::{
    dist2, dist2_of, is_isqrt, isqrt, lemma_comp_within_dist, lemma_isqrt_unique,
    lemma_scaled_offset_bound, mul_small, trunc_div, trunc_div_exec, Pos3, Vec3, COORD_LIMIT,
    EXTENT_LIMIT, UNIT,
};
use crate::coordinates::{VOXEL_DIAMETER, VOXEL_HALFWIDTH};
use crate::particle::saturated;
use crate::player::{saturate, step_ok};

verus! {

/// A camera at `eye` looking at `target`, with `up` (of length `UNIT`)
/// pointing up.
#[derive(Clone, Copy, PartialEq, Eq, Debug, Structural)]
pub struct Camera {
    pub eye: Pos3,
    pub target: Pos3,
    pub up: Vec3,
}

impl Camera {
    /// Eye and target in range, up components of at most one unit.
    pub open spec fn wf(&self) -> bool {
        &&& self.eye.wf()
        &&& self.target.wf()
        &&& -UNIT <= self.up.x <= UNIT
        &&& -UNIT <= self.up.y <= UNIT
        &&& -UNIT <= self.up.z <= UNIT
    }
}

/// `p` projected onto the horizontal plane.
pub open spec fn flat(p: Pos3) -> Pos3 {
    Vec3 { x: p.x, y: 0, z: p.z }
}

/// Squared length of the camera's view projected onto the horizontal plane.
pub open spec fn flat_view2(c: Camera) -> int {
    dist2(flat(c.target), flat(c.eye))
}

/// The forward walking step: the horizontal view scaled to length `speed`
/// (each component rounded toward zero), where `n` is the horizontal view's
/// length. A vertical view (`n == 0`) gives no step.
pub open spec fn forward_step(c: Camera, speed: int, n: int) -> Vec3 {
    if n == 0 {
        Vec3 { x: 0, y: 0, z: 0 }
    } else {
        Vec3 {
            x: trunc_div((c.target.x - c.eye.x) * speed, n) as i64,
            y: 0,
            z: trunc_div((c.target.z - c.eye.z) * speed, n) as i64,
        }
    }
}

/// The rightward walking step: the forward step crossed with `up`, in fixed
/// point.
pub open spec fn right_step(f: Vec3, up: Vec3) -> Vec3 {
    Vec3 {
        x: trunc_div(f.y * up.z - f.z * up.y, UNIT as int) as i64,
        y: trunc_div(f.z * up.x - f.x * up.z, UNIT as int) as i64,
        z: trunc_div(f.x * up.y - f.y * up.x, UNIT as int) as i64,
    }
}

/// The camera moved rigidly so that its eye is at `pos`: the target moves
/// by the same amount (saturated into the accepted range), `up` stays.
pub open spec fn followed(c: Camera, pos: Pos3) -> Camera {
    Camera {
        eye: pos,
        target: Vec3 {
            x: saturate(c.target.x + (pos.x - c.eye.x)) as i64,
            y: saturate(c.target.y + (pos.y - c.eye.y)) as i64,
            z: saturate(c.target.z + (pos.z - c.eye.z)) as i64,
        },
        up: c.up,
    }
}

/// The point `reach` steps from the eye along the view, where `n` is the
/// view's length (each component rounded toward zero, saturated into range).
/// A camera looking at its own eye gives the eye.
pub open spec fn sight_point(c: Camera, n: int, reach: int) -> Pos3 {
    if n == 0 {
        c.eye
    } else {
        Vec3 {
            x: saturate(c.eye.x + trunc_div((c.target.x - c.eye.x) * reach, n)) as i64,
            y: saturate(c.eye.y + trunc_div((c.target.y - c.eye.y) * reach, n)) as i64,
            z: saturate(c.eye.z + trunc_div((c.target.z - c.eye.z) * reach, n)) as i64,
        }
    }
}

/// Distance from the eye of line-of-sight probe `k`: the far face of the
/// `k`-th voxel ahead, plus a twentieth of a voxel.
pub open spec fn probe_reach(k: int) -> int {
    VOXEL_DIAMETER * k + VOXEL_HALFWIDTH / 10
}

fn cross_term(a: i64, b: i64, c: i64, d: i64) -> (r: i64)
    requires
        -4_000_000_000 <= a <= 4_000_000_000,
        -4_000_000_000 <= c <= 4_000_000_000,
        -UNIT <= b <= UNIT,
        -UNIT <= d <= UNIT,
    ensures
        r == trunc_div(a * b - c * d, UNIT as int),
        -COORD_LIMIT <= r <= COORD_LIMIT,
{
    let ab = mul_small(a as i128, b as i128);
    let cd = mul_small(c as i128, d as i128);
    assert(-4_000_000_000_000 <= ab <= 4_000_000_000_000 && -4_000_000_000_000 <= cd
        <= 4_000_000_000_000) by (nonlinear_arith)
        requires
            ab == a * b,
            cd == c * d,
            -4_000_000_000 <= a <= 4_000_000_000,
            -4_000_000_000 <= c <= 4_000_000_000,
            -1000 <= b <= 1000,
            -1000 <= d <= 1000,
    ;
    let q = trunc_div_exec(ab - cd, UNIT as i128);
    assert(-8_000_000_000_000 <= q <= 8_000_000_000_000) by (nonlinear_arith)
        requires
            q == trunc_div(ab - cd, 1000),
            -8_000_000_000_000 <= ab - cd <= 8_000_000_000_000,
    {
        if ab - cd >= 0 {
            assert((ab - cd) / 1000 <= 8_000_000_000_000);
        } else {
            assert((-(ab - cd)) / 1000 <= 8_000_000_000_000);
        }
    }
    q as i64
}

/// The forward and rightward walking steps of length `speed` for this
/// camera's view. Looking straight up or down gives two zero steps.
pub fn movement_steps(camera: &Camera, speed: i64) -> (r: (Vec3, Vec3))
    requires
        camera.wf(),
        0 <= speed <= EXTENT_LIMIT,
    ensures
        forall|n: int|
            #![trigger is_isqrt(flat_view2(*camera), n)]
            is_isqrt(flat_view2(*camera), n) ==> r.0 == forward_step(*camera, speed as int, n),
        r.1 == right_step(r.0, camera.up),
        flat_view2(*camera) == 0 ==> r.0 == Vec3::zero_spec() && r.1 == Vec3::zero_spec(),
        step_ok(r.0),
        step_ok(r.1),
{
    let t = Vec3 { x: camera.target.x, y: 0, z: camera.target.z };
    let e = Vec3 { x: camera.eye.x, y: 0, z: camera.eye.z };
    let d2 = dist2_of(&t, &e);
    let n = isqrt(d2) as i128;
    proof {
        lemma_isqrt_unique(flat_view2(*camera));
    }
    let f = if n == 0 {
        Vec3 { x: 0, y: 0, z: 0 }
    } else {
        let fx = (camera.target.x - camera.eye.x) as i128;
        let fz = (camera.target.z - camera.eye.z) as i128;
        proof {
            lemma_comp_within_dist(fx as int, 0, fz as int, d2 as int, n as int);
            lemma_comp_within_dist(fz as int, 0, fx as int, d2 as int, n as int);
            lemma_scaled_offset_bound(fx as int, speed as int, n as int);
            lemma_scaled_offset_bound(fz as int, speed as int, n as int);
        }
        Vec3 {
            x: trunc_div_exec(mul_small(fx, speed as i128), n) as i64,
            y: 0,
            z: trunc_div_exec(mul_small(fz, speed as i128), n) as i64,
        }
    };
    let r = Vec3 {
        x: cross_term(f.y, camera.up.z, f.z, camera.up.y),
        y: cross_term(f.z, camera.up.x, f.x, camera.up.z),
        z: cross_term(f.x, camera.up.y, f.y, camera.up.x),
    };
    proof {
        if flat_view2(*camera) == 0 {
            assert(n * n <= 0);
            assert(n == 0) by (nonlinear_arith)
                requires
                    n * n <= 0,
            ;
        }
    }
    (f, r)
}

/// Moves the camera rigidly so that its eye is at `pos`.
pub fn track(camera: &mut Camera, pos: Pos3)
    requires
        old(camera).wf(),
        pos.wf(),
    ensures
        *final(camera) == followed(*old(camera), pos),
        final(camera).wf(),
{
    let tx = saturated(camera.target.x as i128 + (pos.x as i128 - camera.eye.x as i128));
    let ty = saturated(camera.target.y as i128 + (pos.y as i128 - camera.eye.y as i128));
    let tz = saturated(camera.target.z as i128 + (pos.z as i128 - camera.eye.z as i128));
    camera.eye = pos;
    camera.target = Vec3 { x: tx, y: ty, z: tz };
}

/// `count` points along the line of sight, the `k`-th at
/// `probe_reach(first + k)` from the eye: the cells that a click reaches,
/// nearest first.
pub fn sight_probes(camera: &Camera, first: usize, count: usize) -> (r: Vec<Pos3>)
    requires
        camera.wf(),
        first + count <= 1000,
    ensures
        r@.len() == count,
        forall|n: int, k: int|
            #![trigger is_isqrt(dist2(camera.target, camera.eye), n), r@[k]]
            is_isqrt(dist2(camera.target, camera.eye), n) && 0 <= k < count ==> r@[k] == sight_point(
                *camera,
                n,
                probe_reach(first + k),
            ),
{
    let d2 = dist2_of(&camera.target, &camera.eye);
    let n = isqrt(d2) as i128;
    proof {
        lemma_isqrt_unique(dist2(camera.target, camera.eye));
    }
    let fx = (camera.target.x - camera.eye.x) as i128;
    let fy = (camera.target.y - camera.eye.y) as i128;
    let fz = (camera.target.z - camera.eye.z) as i128;
    proof {
        lemma_comp_within_dist(fx as int, fy as int, fz as int, d2 as int, n as int);
        lemma_comp_within_dist(fy as int, fx as int, fz as int, d2 as int, n as int);
        lemma_comp_within_dist(fz as int, fy as int, fx as int, d2 as int, n as int);
    }
    let mut out: Vec<Pos3> = Vec::new();
    let mut k: usize = 0;
    while k < count
        invariant
            camera.wf(),
            first + count <= 1000,
            k <= count,
            d2 == dist2(camera.target, camera.eye),
            is_isqrt(d2 as int, n as int),
            fx == camera.target.x - camera.eye.x,
            fy == camera.target.y - camera.eye.y,
            fz == camera.target.z - camera.eye.z,
            n > 0 ==> -n <= fx <= n && -n <= fy <= n && -n <= fz <= n,
            -2_000_000_000_000 <= fx <= 2_000_000_000_000,
            -2_000_000_000_000 <= fy <= 2_000_000_000_000,
            -2_000_000_000_000 <= fz <= 2_000_000_000_000,
            out@.len() == k,
            forall|j: int| 0 <= j < k ==> #[trigger] out@[j] == sight_point(*camera, n as int, probe_reach(first + j)),
        decreases count - k,
    {
        let idx = (first + k) as i128;
        assert(0 <= idx < 1000);
        let reach: i128 = 2000 * idx + 100;
        assert(reach == probe_reach(first + k));
        let p = if n == 0 {
            camera.eye
        } else {
            proof {
                lemma_scaled_offset_bound(fx as int, reach as int, n as int);
                lemma_scaled_offset_bound(fy as int, reach as int, n as int);
                lemma_scaled_offset_bound(fz as int, reach as int, n as int);
            }
            Vec3 {
                x: saturated(camera.eye.x as i128 + trunc_div_exec(mul_small(fx, reach), n)),
                y: saturated(camera.eye.y as i128 + trunc_div_exec(mul_small(fy, reach), n)),
                z: saturated(camera.eye.z as i128 + trunc_div_exec(mul_small(fz, reach), n)),
            }
        };
        out.push(p);
        k = k + 1;
    }
    out
}

} // verus!
