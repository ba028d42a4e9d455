//! Particles: small spheres thrown into the air that fall under gravity
//! for a limited number of ticks.

use vstd::prelude::*;
use crate::geom::{Sphere, Vec3, COORD_LIMIT, UNIT};
use crate::player::saturate;

verus! {

/// Ticks a freshly reset particle stays visible.
pub const PARTICLE_LIFETIME: i64 = 300;

/// Largest speed component of a particle, in steps per tick.
pub const SPEED_LIMIT: i64 = 1_000_000;

/// A particle. Velocity is in steps per tick and lifetime in ticks.
#[derive(Clone, Copy, PartialEq, Eq, Debug, Structural)]
pub struct Particle {
    pub body: Sphere,
    pub velocity: Vec3,
    pub lifetime: i64,
    pub visible: bool,
}

/// `v` kept within the accepted speed range.
pub open spec fn clamp_speed(v: int) -> int {
    if v < -SPEED_LIMIT {
        -SPEED_LIMIT as int
    } else if v > SPEED_LIMIT {
        SPEED_LIMIT as int
    } else {
        v
    }
}

/// The particle after one tick under gravity `g`: a visible particle
/// speeds downward by `g`, moves by its velocity and ages one tick; a
/// hidden one is parked at the origin. A particle whose lifetime has run
/// out is hidden; lifetimes stop counting at -1.
pub open spec fn after_tick(p: Particle, g: int) -> Particle {
    let q = if p.visible {
        let v = Vec3 { y: clamp_speed(p.velocity.y - g) as i64, ..p.velocity };
        Particle {
            body: Sphere {
                c: Vec3 {
                    x: saturate(p.body.c.x + v.x) as i64,
                    y: saturate(p.body.c.y + v.y) as i64,
                    z: saturate(p.body.c.z + v.z) as i64,
                },
                r: p.body.r,
            },
            velocity: v,
            lifetime: if p.lifetime > -1 { (p.lifetime - 1) as i64 } else { -1i64 },
            visible: p.visible,
        }
    } else {
        Particle { body: Sphere { c: Vec3 { x: 0, y: 0, z: 0 }, r: p.body.r }, ..p }
    };
    Particle { visible: q.visible && q.lifetime > 0, ..q }
}

impl Particle {
    /// Position, speed and lifetime are in range.
    pub open spec fn wf(&self) -> bool {
        &&& self.body.wf()
        &&& -SPEED_LIMIT <= self.velocity.x <= SPEED_LIMIT
        &&& -SPEED_LIMIT <= self.velocity.y <= SPEED_LIMIT
        &&& -SPEED_LIMIT <= self.velocity.z <= SPEED_LIMIT
        &&& -1 <= self.lifetime <= PARTICLE_LIFETIME
    }

    /// One tick of motion under gravity `g`.
    pub fn update(&mut self, g: i64)
        requires
            old(self).wf(),
            0 <= g <= SPEED_LIMIT,
        ensures
            final(self).wf(),
            *final(self) == after_tick(*old(self), g as int),
    {
        if self.visible {
            let vy = self.velocity.y - g;
            self.velocity.y = if vy < -SPEED_LIMIT {
                -SPEED_LIMIT
            } else {
                vy
            };
            self.body.c.x = saturated(self.body.c.x as i128 + self.velocity.x as i128);
            self.body.c.y = saturated(self.body.c.y as i128 + self.velocity.y as i128);
            self.body.c.z = saturated(self.body.c.z as i128 + self.velocity.z as i128);
            if self.lifetime > -1 {
                self.lifetime = self.lifetime - 1;
            }
        } else {
            self.body.c = Vec3 { x: 0, y: 0, z: 0 };
        }
        if self.lifetime <= 0 {
            self.visible = false;
        }
    }

    /// Throws the particle again: half a unit wide, at (10, 10, 10), visible
    /// for a full lifetime.
    pub fn reset(&mut self)
        ensures
            *final(self) == (Particle {
                body: Sphere { c: Vec3 { x: 10_000, y: 10_000, z: 10_000 }, r: 500 },
                lifetime: PARTICLE_LIFETIME,
                visible: true,
                ..*old(self)
            }),
    {
        self.body.c = Vec3 { x: 10 * UNIT, y: 10 * UNIT, z: 10 * UNIT };
        self.body.r = UNIT / 2;
        self.lifetime = PARTICLE_LIFETIME;
        self.visible = true;
    }
}

pub(crate) fn saturated(v: i128) -> (r: i64)
    ensures
        r == saturate(v as int),
{
    if v < -(COORD_LIMIT as i128) {
        -COORD_LIMIT
    } else if v > COORD_LIMIT as i128 {
        COORD_LIMIT
    } else {
        v as i64
    }
}

} // verus!
