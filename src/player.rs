//! The player controller: a hitbox with velocity, movement intents and six
//! directional blocked flags, integrated once per tick by a flag-gated
//! Euler step.

use vstd::prelude::*;
use crate::geom::{comp, is_isqrt, BBox, Pos3, Vec3, COORD_LIMIT, EXTENT_LIMIT, UNIT};
use crate::camera::{flat_view2, followed, forward_step, movement_steps, right_step, track, Camera};
use crate::collision::Contact;

verus! {

/// Speed lost to gravity each tick.
pub const GRAVITY: i64 = 5;

/// Fastest downward speed.
pub const TERMINAL_VELOCITY: i64 = 100;

/// Upward speed given by a jump.
pub const JUMP_VELOCITY: i64 = 150;

/// The keys held (or, for the gravity toggle, pressed) during one tick.
#[derive(Clone, Copy, Debug)]
pub struct KeyState {
    pub forward: bool,
    pub backward: bool,
    pub left: bool,
    pub right: bool,
    pub up: bool,
    pub down: bool,
    pub gravity_toggle: bool,
    pub jump: bool,
}

pub struct Player {
    pub hitbox: BBox,
    pub vx: i64,
    pub vy: i64,
    pub vz: i64,
    pub facing_direction: Vec3,
    pub speed: i64,
    pub is_forward_pressed: bool,
    pub is_backward_pressed: bool,
    pub is_left_pressed: bool,
    pub is_right_pressed: bool,
    pub is_up_pressed: bool,
    pub is_down_pressed: bool,
    pub is_gravity_pressed: bool,
    pub do_gravity: bool,
    pub jump_pressed: bool,
    pub can_jump: bool,
    pub x_pos_blocked: bool,
    pub x_neg_blocked: bool,
    pub y_pos_blocked: bool,
    pub y_neg_blocked: bool,
    pub z_pos_blocked: bool,
    pub z_neg_blocked: bool,
}

/// `v` saturated into the accepted coordinate range.
pub open spec fn saturate(v: int) -> int {
    if v < -COORD_LIMIT {
        -COORD_LIMIT as int
    } else if v > COORD_LIMIT {
        COORD_LIMIT as int
    } else {
        v
    }
}

/// A coordinate after a step of `d`, unless the flag for that direction
/// forbids it.
pub open spec fn step_axis(c: int, d: int, pos_blocked: bool, neg_blocked: bool) -> int {
    if (d > 0 && !pos_blocked) || (d < 0 && !neg_blocked) {
        saturate(c + d)
    } else {
        c
    }
}

/// The player after `change_pos(dx, dy, dz)`.
#[verifier::opaque]
pub open spec fn moved(p: Player, dx: int, dy: int, dz: int) -> Player {
    Player {
        hitbox: BBox {
            center: Vec3 {
                x: step_axis(p.hitbox.center.x as int, dx, p.x_pos_blocked, p.x_neg_blocked) as i64,
                y: step_axis(p.hitbox.center.y as int, dy, p.y_pos_blocked, p.y_neg_blocked) as i64,
                z: step_axis(p.hitbox.center.z as int, dz, p.z_pos_blocked, p.z_neg_blocked) as i64,
            },
            halfwidth: p.hitbox.halfwidth,
        },
        ..p
    }
}

/// `v` points along axis `a`, in the positive direction when `positive`
/// and in the negative one otherwise.
pub open spec fn points_along(v: Vec3, a: int, positive: bool) -> bool {
    if positive {
        comp(v, a) > 0
    } else {
        comp(v, a) < 0
    }
}

/// Some contact among the first `n` of `cs` has a translation pointing along
/// axis `a` in the given direction.
pub open spec fn pushes(cs: Seq<Contact<usize>>, n: int, a: int, positive: bool) -> bool {
    exists|j: int| 0 <= j < n && points_along(#[trigger] cs[j].mtv, a, positive)
}

/// The player after `process_contacts(cs)`: each flag says whether some
/// contact pushed the player against that direction; a push upward (a floor
/// beneath) also allows a jump.
pub open spec fn after_contacts(p: Player, cs: Seq<Contact<usize>>) -> Player {
    let n = cs.len() as int;
    Player {
        x_neg_blocked: pushes(cs, n, 0, true),
        x_pos_blocked: pushes(cs, n, 0, false),
        y_neg_blocked: pushes(cs, n, 1, true),
        y_pos_blocked: pushes(cs, n, 1, false),
        z_neg_blocked: pushes(cs, n, 2, true),
        z_pos_blocked: pushes(cs, n, 2, false),
        can_jump: p.can_jump || pushes(cs, n, 1, true),
        ..p
    }
}

/// Vertical speed after one tick of gravity in free fall.
pub open spec fn fall_velocity(vy: int) -> int {
    if vy - GRAVITY <= -TERMINAL_VELOCITY {
        -TERMINAL_VELOCITY as int
    } else {
        vy - GRAVITY
    }
}

/// Vertical speed after the velocity part of a tick: gravity (or rest on
/// the ground), then a jump when one is held and allowed.
pub open spec fn next_vy(p: Player) -> int {
    if p.jump_pressed && p.can_jump {
        JUMP_VELOCITY as int
    } else if !p.y_neg_blocked {
        fall_velocity(p.vy as int)
    } else {
        0
    }
}

/// The player after the velocity part of a tick; taking a jump uses it up.
pub open spec fn after_velocity(p: Player) -> Player {
    Player { vy: next_vy(p) as i64, can_jump: p.can_jump && !p.jump_pressed, ..p }
}

/// Moving changes nothing but the hitbox's center.
pub proof fn lemma_moved_keeps(p: Player, dx: int, dy: int, dz: int)
    ensures
        moved(p, dx, dy, dz) == (Player { hitbox: moved(p, dx, dy, dz).hitbox, ..p }),
        moved(p, dx, dy, dz).hitbox.halfwidth == p.hitbox.halfwidth,
{
    reveal(moved);
}

/// `p` moved by `(dx, dy, dz)` when `held`.
pub open spec fn moved_if(p: Player, held: bool, dx: int, dy: int, dz: int) -> Player {
    moved(p, if held { dx } else { 0 }, if held { dy } else { 0 }, if held { dz } else { 0 })
}

/// The player after the motion part of a tick: the vertical speed when
/// gravity is on, then the step of each held direction.
pub open spec fn after_moves(p1: Player, forward: Vec3, right: Vec3) -> Player {
    let p2 = moved_if(p1, p1.do_gravity, 0, p1.vy as int, 0);
    let p3 = moved_if(p2, p2.is_forward_pressed, forward.x as int, 0, forward.z as int);
    let p4 = moved_if(p3, p3.is_backward_pressed, -forward.x, 0, -forward.z);
    let p5 = moved_if(p4, p4.is_right_pressed, right.x as int, 0, right.z as int);
    let p6 = moved_if(p5, p5.is_left_pressed, -right.x, 0, -right.z);
    let p7 = moved_if(p6, p6.is_up_pressed, 0, p6.speed as int, 0);
    moved_if(p7, p7.is_down_pressed, 0, -p7.speed, 0)
}

/// The player after one tick of `step(forward, right)`; a press of the
/// gravity toggle switches gravity last.
pub open spec fn after_update(p: Player, forward: Vec3, right: Vec3) -> Player {
    let p8 = after_moves(after_velocity(p), forward, right);
    if p8.is_gravity_pressed {
        Player { do_gravity: !p8.do_gravity, ..p8 }
    } else {
        p8
    }
}

/// A step vector whose components can be negated and added safely.
pub open spec fn step_ok(v: Vec3) -> bool {
    &&& -COORD_LIMIT <= v.x <= COORD_LIMIT
    &&& -COORD_LIMIT <= v.y <= COORD_LIMIT
    &&& -COORD_LIMIT <= v.z <= COORD_LIMIT
}

fn step_coord(c: i64, d: i64, pos_blocked: bool, neg_blocked: bool) -> (r: i64)
    requires
        -COORD_LIMIT <= c <= COORD_LIMIT,
    ensures
        r == step_axis(c as int, d as int, pos_blocked, neg_blocked),
        -COORD_LIMIT <= r <= COORD_LIMIT,
{
    if (d > 0 && !pos_blocked) || (d < 0 && !neg_blocked) {
        let v = c as i128 + d as i128;
        if v < -(COORD_LIMIT as i128) {
            -COORD_LIMIT
        } else if v > COORD_LIMIT as i128 {
            COORD_LIMIT
        } else {
            v as i64
        }
    } else {
        c
    }
}

impl Player {
    /// The hitbox is valid, the vertical speed lies between terminal
    /// velocity and a jump, and the walking speed is in range.
    pub open spec fn wf(&self) -> bool {
        &&& self.hitbox.wf()
        &&& -TERMINAL_VELOCITY <= self.vy <= JUMP_VELOCITY
        &&& 0 <= self.speed <= EXTENT_LIMIT
    }

    /// A player at rest in `hitbox`, with gravity on, walking one unit per
    /// tick, no key held and no direction blocked.
    pub fn new(hitbox: BBox) -> (r: Self)
        requires
            hitbox.wf(),
        ensures
            r.wf(),
            r.hitbox == hitbox,
            r.vx == 0 && r.vy == 0 && r.vz == 0,
            r.facing_direction == (Vec3 { x: 0, y: 0, z: 0 }),
            r.speed == UNIT,
            !r.is_forward_pressed && !r.is_backward_pressed && !r.is_left_pressed,
            !r.is_right_pressed && !r.is_up_pressed && !r.is_down_pressed,
            !r.is_gravity_pressed && r.do_gravity && !r.jump_pressed && !r.can_jump,
            !r.x_pos_blocked && !r.x_neg_blocked && !r.y_pos_blocked,
            !r.y_neg_blocked && !r.z_pos_blocked && !r.z_neg_blocked,
    {
        Self {
            hitbox,
            vx: 0,
            vy: 0,
            vz: 0,
            facing_direction: Vec3 { x: 0, y: 0, z: 0 },
            speed: UNIT,
            is_forward_pressed: false,
            is_backward_pressed: false,
            is_left_pressed: false,
            is_right_pressed: false,
            is_up_pressed: false,
            is_down_pressed: false,
            is_gravity_pressed: false,
            do_gravity: true,
            jump_pressed: false,
            can_jump: false,
            x_pos_blocked: false,
            x_neg_blocked: false,
            y_pos_blocked: false,
            y_neg_blocked: false,
            z_pos_blocked: false,
            z_neg_blocked: false,
        }
    }

    /// Center of the hitbox.
    pub fn get_pos(&self) -> (r: Pos3)
        ensures
            r == self.hitbox.center,
    {
        self.hitbox.center
    }

    /// Moves the hitbox by `(x, y, z)`, one axis at a time, skipping each
    /// axis whose direction of motion is blocked. Coordinates saturate at
    /// the edge of the accepted range.
    pub fn change_pos(&mut self, x: i64, y: i64, z: i64)
        requires
            old(self).wf(),
        ensures
            final(self).wf(),
            *final(self) == moved(*old(self), x as int, y as int, z as int),
    {
        reveal(moved);
        self.hitbox.center.x = step_coord(
            self.hitbox.center.x,
            x,
            self.x_pos_blocked,
            self.x_neg_blocked,
        );
        self.hitbox.center.y = step_coord(
            self.hitbox.center.y,
            y,
            self.y_pos_blocked,
            self.y_neg_blocked,
        );
        self.hitbox.center.z = step_coord(
            self.hitbox.center.z,
            z,
            self.z_pos_blocked,
            self.z_neg_blocked,
        );
    }

    /// Clears the six blocked flags, then sets each flag whose direction
    /// some contact pushed the player against. A contact pushing upward (a
    /// floor beneath) also allows a jump.
    pub fn process_contacts(&mut self, contacts: &Vec<Contact<usize>>)
        ensures
            *final(self) == after_contacts(*old(self), contacts@),
    {
        let ghost cs = contacts@;
        let n = contacts.len();
        let mut xn = false;
        let mut xp = false;
        let mut yn = false;
        let mut yp = false;
        let mut zn = false;
        let mut zp = false;
        let mut k: usize = 0;
        while k < n
            invariant
                k <= n,
                n == cs.len(),
                cs == contacts@,
                xn == pushes(cs, k as int, 0, true),
                xp == pushes(cs, k as int, 0, false),
                yn == pushes(cs, k as int, 1, true),
                yp == pushes(cs, k as int, 1, false),
                zn == pushes(cs, k as int, 2, true),
                zp == pushes(cs, k as int, 2, false),
            decreases n - k,
        {
            let disp = contacts[k].mtv;
            proof {
                assert(points_along(cs[k as int].mtv, 0, true) == (disp.x > 0));
            }
            xn = xn || disp.x > 0;
            xp = xp || disp.x < 0;
            yn = yn || disp.y > 0;
            yp = yp || disp.y < 0;
            zn = zn || disp.z > 0;
            zp = zp || disp.z < 0;
            k = k + 1;
        }
        self.reset_blocked();
        self.x_neg_blocked = xn;
        self.x_pos_blocked = xp;
        self.y_neg_blocked = yn;
        self.y_pos_blocked = yp;
        self.z_neg_blocked = zn;
        self.z_pos_blocked = zp;
        if yn {
            self.can_jump = true;
        }
    }

    /// Clears the six blocked flags.
    pub fn reset_blocked(&mut self)
        ensures
            *final(self) == (Player {
                x_pos_blocked: false,
                x_neg_blocked: false,
                y_pos_blocked: false,
                y_neg_blocked: false,
                z_pos_blocked: false,
                z_neg_blocked: false,
                ..*old(self)
            }),
    {
        self.x_pos_blocked = false;
        self.x_neg_blocked = false;
        self.y_pos_blocked = false;
        self.y_neg_blocked = false;
        self.z_pos_blocked = false;
        self.z_neg_blocked = false;
    }

    /// One tick of motion. Gravity lowers the vertical speed down to
    /// terminal velocity unless the ground blocks downward motion, in which
    /// case the speed is reset; a held jump, when allowed, sets the jump
    /// speed and uses the jump up. With gravity on, the vertical speed is
    /// applied; then each held direction applies its step: `forward` (and
    /// its negation for backward), `right` (and its negation for left), and
    /// the walking speed up or down. All steps go through `change_pos`, so
    /// blocked directions are respected. A press of the gravity toggle
    /// switches gravity last. `forward` and `right` are the horizontal steps
    /// for this tick, already scaled to the walking speed; a zero step moves
    /// nothing.
    pub fn step(&mut self, forward: Vec3, right: Vec3)
        requires
            old(self).wf(),
            step_ok(forward),
            step_ok(right),
        ensures
            final(self).wf(),
            *final(self) == after_update(*old(self), forward, right),
    {
        self.apply_velocity();
        self.apply_moves(forward, right);
        if self.is_gravity_pressed {
            self.do_gravity = !self.do_gravity;
        }
    }

    /// Gravity, or rest on the ground, then a jump when held and allowed.
    fn apply_velocity(&mut self)
        requires
            old(self).wf(),
        ensures
            final(self).wf(),
            *final(self) == after_velocity(*old(self)),
    {
        let mut vy = self.vy;
        if !self.y_neg_blocked {
            vy = vy - GRAVITY;
            if vy <= -TERMINAL_VELOCITY {
                vy = -TERMINAL_VELOCITY;
            }
        } else {
            vy = 0;
        }
        let mut can_jump = self.can_jump;
        if self.jump_pressed && self.can_jump {
            vy = JUMP_VELOCITY;
            can_jump = false;
        }
        self.vy = vy;
        self.can_jump = can_jump;
    }

    /// The vertical speed when gravity is on, then the step of each held
    /// direction.
    fn apply_moves(&mut self, forward: Vec3, right: Vec3)
        requires
            old(self).wf(),
            step_ok(forward),
            step_ok(right),
        ensures
            final(self).wf(),
            *final(self) == after_moves(*old(self), forward, right),
    {
        let vy = self.vy;
        self.change_pos_if(self.do_gravity, 0, vy, 0);
        self.change_pos_if(self.is_forward_pressed, forward.x, 0, forward.z);
        self.change_pos_if(self.is_backward_pressed, -forward.x, 0, -forward.z);
        self.change_pos_if(self.is_right_pressed, right.x, 0, right.z);
        self.change_pos_if(self.is_left_pressed, -right.x, 0, -right.z);
        let speed = self.speed;
        self.change_pos_if(self.is_up_pressed, 0, speed, 0);
        let speed = self.speed;
        self.change_pos_if(self.is_down_pressed, 0, -speed, 0);
    }

    /// `change_pos(dx, dy, dz)` when `held`; nothing otherwise.
    fn change_pos_if(&mut self, held: bool, dx: i64, dy: i64, dz: i64)
        requires
            old(self).wf(),
        ensures
            final(self).wf(),
            *final(self) == moved_if(*old(self), held, dx as int, dy as int, dz as int),
    {
        let (x, y, z) = if held {
            (dx, dy, dz)
        } else {
            (0, 0, 0)
        };
        self.change_pos(x, y, z);
    }

    /// One tick of motion seen through `camera`: the walking steps come from
    /// the camera's horizontal view scaled to the walking speed (none when it
    /// looks straight up or down), the tick runs as `step`, and the camera
    /// then moves rigidly so that its eye is at the player's new position.
    pub fn update(&mut self, camera: &mut Camera)
        requires
            old(self).wf(),
            old(camera).wf(),
        ensures
            final(self).wf(),
            final(camera).wf(),
            forall|n: int|
                #![trigger is_isqrt(flat_view2(*old(camera)), n)]
                is_isqrt(flat_view2(*old(camera)), n) ==> {
                    let f = forward_step(*old(camera), old(self).speed as int, n);
                    *final(self) == after_update(*old(self), f, right_step(f, old(camera).up))
                },
            *final(camera) == followed(*old(camera), final(self).hitbox.center),
    {
        let (forward, right) = movement_steps(camera, self.speed);
        self.step(forward, right);
        track(camera, self.hitbox.center);
    }

    /// Records the keys of this tick as movement intents. Always returns
    /// `true`.
    pub fn process_events(&mut self, events: &KeyState) -> (r: bool)
        ensures
            r,
            *final(self) == (Player {
                is_forward_pressed: events.forward,
                is_left_pressed: events.left,
                is_backward_pressed: events.backward,
                is_right_pressed: events.right,
                is_up_pressed: events.up,
                is_down_pressed: events.down,
                is_gravity_pressed: events.gravity_toggle,
                jump_pressed: events.jump,
                ..*old(self)
            }),
    {
        self.is_forward_pressed = events.forward;
        self.is_left_pressed = events.left;
        self.is_backward_pressed = events.backward;
        self.is_right_pressed = events.right;
        self.is_up_pressed = events.up;
        self.is_down_pressed = events.down;
        self.is_gravity_pressed = events.gravity_toggle;
        self.jump_pressed = events.jump;
        true
    }
}

/// The player after `n` ticks of `step(forward, right)`.
pub open spec fn after_ticks(p: Player, forward: Vec3, right: Vec3, n: nat) -> Player
    decreases n,
{
    if n == 0 {
        p
    } else {
        after_update(after_ticks(p, forward, right, (n - 1) as nat), forward, right)
    }
}

proof fn lemma_moved_if_keeps(p: Player, held: bool, dx: int, dy: int, dz: int)
    ensures
        moved_if(p, held, dx, dy, dz) == (Player {
            hitbox: moved_if(p, held, dx, dy, dz).hitbox,
            ..p
        }),
{
    reveal(moved);
}

/// A tick changes the vertical speed, the jump allowance and the gravity
/// switch as the velocity part says, and no flag but those.
proof fn lemma_update_velocity(p: Player, forward: Vec3, right: Vec3)
    ensures
        after_update(p, forward, right).vy == next_vy(p),
        after_update(p, forward, right).can_jump == (p.can_jump && !p.jump_pressed),
        after_update(p, forward, right).y_neg_blocked == p.y_neg_blocked,
        after_update(p, forward, right).jump_pressed == p.jump_pressed,
{
    let p1 = after_velocity(p);
    let p2 = moved_if(p1, p1.do_gravity, 0, p1.vy as int, 0);
    lemma_moved_if_keeps(p1, p1.do_gravity, 0, p1.vy as int, 0);
    let p3 = moved_if(p2, p2.is_forward_pressed, forward.x as int, 0, forward.z as int);
    lemma_moved_if_keeps(p2, p2.is_forward_pressed, forward.x as int, 0, forward.z as int);
    let p4 = moved_if(p3, p3.is_backward_pressed, -forward.x, 0, -forward.z);
    lemma_moved_if_keeps(p3, p3.is_backward_pressed, -forward.x, 0, -forward.z);
    let p5 = moved_if(p4, p4.is_right_pressed, right.x as int, 0, right.z as int);
    lemma_moved_if_keeps(p4, p4.is_right_pressed, right.x as int, 0, right.z as int);
    let p6 = moved_if(p5, p5.is_left_pressed, -right.x, 0, -right.z);
    lemma_moved_if_keeps(p5, p5.is_left_pressed, -right.x, 0, -right.z);
    let p7 = moved_if(p6, p6.is_up_pressed, 0, p6.speed as int, 0);
    lemma_moved_if_keeps(p6, p6.is_up_pressed, 0, p6.speed as int, 0);
    lemma_moved_if_keeps(p7, p7.is_down_pressed, 0, -p7.speed, 0);
}

/// In free fall, with no ground beneath and no jump to take, every tick
/// lowers the vertical speed by gravity until it reaches terminal velocity;
/// it never falls below terminal velocity, and after fifty ticks it is
/// exactly terminal velocity.
pub proof fn lemma_gravity_terminal_velocity(p: Player, forward: Vec3, right: Vec3, n: nat)
    requires
        p.wf(),
        !p.y_neg_blocked,
        !(p.jump_pressed && p.can_jump),
    ensures
        after_ticks(p, forward, right, n).vy == (if p.vy - GRAVITY * n <= -TERMINAL_VELOCITY {
            -TERMINAL_VELOCITY as int
        } else {
            p.vy - GRAVITY * n
        }),
        after_ticks(p, forward, right, n).vy >= -TERMINAL_VELOCITY,
        after_ticks(p, forward, right, n).vy <= p.vy,
        n >= 50 ==> after_ticks(p, forward, right, n).vy == -TERMINAL_VELOCITY,
        !after_ticks(p, forward, right, n).y_neg_blocked,
        after_ticks(p, forward, right, n).jump_pressed == p.jump_pressed,
        after_ticks(p, forward, right, n).can_jump == p.can_jump,
    decreases n,
{
    if n > 0 {
        lemma_gravity_terminal_velocity(p, forward, right, (n - 1) as nat);
        lemma_update_velocity(after_ticks(p, forward, right, (n - 1) as nat), forward, right);
    }
}

proof fn lemma_vertical_move_keeps_xz(p: Player, held: bool, dy: int)
    ensures
        moved_if(p, held, 0, dy, 0).hitbox.center.x == p.hitbox.center.x,
        moved_if(p, held, 0, dy, 0).hitbox.center.z == p.hitbox.center.z,
        moved_if(p, held, 0, dy, 0) == (Player { hitbox: moved_if(p, held, 0, dy, 0).hitbox, ..p }),
{
    reveal(moved);
}

/// Looking straight up or down, a tick moves the player neither along x
/// nor along z, whatever keys are held: both walking steps are zero.
pub proof fn lemma_vertical_view_no_walk(p: Player, c: Camera, n: int)
    requires
        c.target.x == c.eye.x,
        c.target.z == c.eye.z,
        is_isqrt(flat_view2(c), n),
    ensures
        ({
            let f = forward_step(c, p.speed as int, n);
            let q = after_update(p, f, right_step(f, c.up));
            q.hitbox.center.x == p.hitbox.center.x && q.hitbox.center.z == p.hitbox.center.z
        }),
{
    assert(n * n <= 0);
    assert(n == 0) by (nonlinear_arith)
        requires
            n * n <= 0,
    ;
    let f = forward_step(c, p.speed as int, n);
    let r = right_step(f, c.up);
    assert(f == Vec3 { x: 0, y: 0, z: 0 });
    assert(r == Vec3 { x: 0, y: 0, z: 0 });
    let p1 = after_velocity(p);
    lemma_vertical_move_keeps_xz(p1, p1.do_gravity, p1.vy as int);
    let p2 = moved_if(p1, p1.do_gravity, 0, p1.vy as int, 0);
    lemma_vertical_move_keeps_xz(p2, p2.is_forward_pressed, 0);
    let p3 = moved_if(p2, p2.is_forward_pressed, 0, 0, 0);
    lemma_vertical_move_keeps_xz(p3, p3.is_backward_pressed, 0);
    let p4 = moved_if(p3, p3.is_backward_pressed, 0, 0, 0);
    lemma_vertical_move_keeps_xz(p4, p4.is_right_pressed, 0);
    let p5 = moved_if(p4, p4.is_right_pressed, 0, 0, 0);
    lemma_vertical_move_keeps_xz(p5, p5.is_left_pressed, 0);
    let p6 = moved_if(p5, p5.is_left_pressed, 0, 0, 0);
    lemma_vertical_move_keeps_xz(p6, p6.is_up_pressed, p6.speed as int);
    let p7 = moved_if(p6, p6.is_up_pressed, 0, p6.speed as int, 0);
    lemma_vertical_move_keeps_xz(p7, p7.is_down_pressed, -p7.speed);
}

/// A contact that pushes the player upward blocks downward motion and
/// allows a jump; after that, a downward step leaves the height unchanged.
pub proof fn lemma_floor_blocks_falling(p: Player, cs: Seq<Contact<usize>>, k: int, dy: int)
    requires
        0 <= k < cs.len(),
        cs[k].mtv.y > 0,
        dy < 0,
    ensures
        after_contacts(p, cs).y_neg_blocked,
        after_contacts(p, cs).can_jump,
        moved(after_contacts(p, cs), 0, dy, 0).hitbox.center == after_contacts(p, cs).hitbox.center,
{
    assert(points_along(cs[k].mtv, 1, true));
    reveal(moved);
}

} // verus!
