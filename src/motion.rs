//! Per-entity kinematic state and the passes that change it each frame:
//! gravity, the held-jump thrust, integration, input and facing.
use vstd::prelude::*;
use crate::fixed::{
    Vec3, UNIT, direction, normalize, vadd, sum_fits, lemma_direction_bounded, lemma_direction_is_unit,
};

verus! {

/// Vertical gravity of a falling body, in thousandths of a unit.
pub const GRAVITY_Y: i64 = -1500;

/// Thrust added to the force accumulator on each frame the jump key is held.
pub const JUMP_FORCE: i64 = 6000;

/// Ceiling of the vertical force accumulator.
pub const MAX_FORCE: i64 = 20000;

/// Half-width of the band of horizontal velocity in which facing is kept.
pub const FACING_BAND: i64 = 100;

/// Largest speed scale the integrator accepts, in units per second.
pub const SPEED_LIMIT: u32 = 1_000_000;

/// Microseconds in a second: elapsed time is given in microseconds.
pub const MICROS: i64 = 1_000_000;

/// Kinematic state of one entity.
#[derive(Clone, Copy, Debug, PartialEq, Eq, Structural)]
pub struct Motion {
    /// World position, in grid steps.
    pub position: Vec3,
    /// Direction of travel; normalized to length `UNIT` by the integrator.
    pub velocity: Vec3,
    /// Accumulated for one frame, cleared by the integrator.
    pub acceleration: Vec3,
    pub gravity: Vec3,
    /// Impulses gathered before they are folded into `acceleration`.
    pub applied_forces: Vec3,
    pub facing_left: bool,
    /// Units per second that a unit of velocity moves the entity.
    pub speed_scale: u32,
}

/// Movement keys held in a frame: up, left, down and right.
#[derive(Clone, Copy, Debug, PartialEq, Eq, Structural)]
pub struct HeldKeys {
    pub up: bool,
    pub left: bool,
    pub down: bool,
    pub right: bool,
}

/// Which of the two animations applies to an entity.
#[derive(Clone, Copy, Debug, PartialEq, Eq, Structural)]
pub enum AnimState {
    Idle,
    Moving,
}

pub open spec fn key_axis(plus: bool, minus: bool) -> i64 {
    if plus && !minus {
        UNIT
    } else if minus && !plus {
        (-UNIT) as i64
    } else {
        0
    }
}

/// The direction that the held movement keys ask for: each key adds a unit
/// along its axis, so opposite keys cancel.
pub open spec fn intent(keys: HeldKeys) -> Vec3 {
    Vec3 { x: key_axis(keys.right, keys.left), y: key_axis(keys.up, keys.down), z: 0 }
}

/// `n` divided by `d`, rounded toward zero.
pub open spec fn div_toward_zero(n: int, d: int) -> int {
    if n >= 0 {
        n / d
    } else {
        -((-n) / d)
    }
}

/// Position along one axis after `dt` microseconds at direction component
/// `d`, acceleration `a` and speed scale `speed`.
pub open spec fn advance(p: int, d: int, a: int, speed: int, dt: int) -> int {
    p + div_toward_zero((d + a) * speed * dt, MICROS as int)
}

pub open spec fn fits_i64(v: int) -> bool {
    i64::MIN <= v <= i64::MAX
}

pub open spec fn zero_vec() -> Vec3 {
    Vec3 { x: 0, y: 0, z: 0 }
}

impl Motion {
    /// A body at rest at `position` under the standard gravity.
    pub fn new(position: Vec3, speed_scale: u32) -> (r: Motion)
        ensures
            r == (Motion {
                position,
                velocity: zero_vec(),
                acceleration: zero_vec(),
                gravity: Vec3 { x: 0, y: GRAVITY_Y, z: 0 },
                applied_forces: zero_vec(),
                facing_left: false,
                speed_scale,
            }),
    {
        Motion {
            position,
            velocity: Vec3::zero(),
            acceleration: Vec3::zero(),
            gravity: Vec3::new(0, GRAVITY_Y, 0),
            applied_forces: Vec3::zero(),
            facing_left: false,
            speed_scale,
        }
    }

    /// Caps the vertical force accumulator at `MAX_FORCE`.
    pub fn max_force(&mut self)
        ensures
            *final(self) == (Motion {
                applied_forces: Vec3 {
                    y: if old(self).applied_forces.y > MAX_FORCE {
                        MAX_FORCE
                    } else {
                        old(self).applied_forces.y
                    },
                    ..old(self).applied_forces
                },
                ..*old(self)
            }),
            final(self).applied_forces.y <= MAX_FORCE,
    {
        if self.applied_forces.y > MAX_FORCE {
            self.applied_forces.y = MAX_FORCE;
        }
    }

    /// Adds `force` to the vertical force accumulator.
    pub fn apply_force(&mut self, force: i64)
        requires
            fits_i64(old(self).applied_forces.y + force),
        ensures
            *final(self) == (Motion {
                applied_forces: Vec3 {
                    y: (old(self).applied_forces.y + force) as i64,
                    ..old(self).applied_forces
                },
                ..*old(self)
            }),
    {
        self.applied_forces.y = self.applied_forces.y + force;
    }

    pub open spec fn after_gravity(self) -> Motion {
        Motion { acceleration: vadd(self.acceleration, self.gravity), ..self }
    }

    /// Adds gravity to the acceleration.
    pub fn apply_gravity(&mut self)
        requires
            sum_fits(old(self).acceleration, old(self).gravity),
        ensures
            *final(self) == old(self).after_gravity(),
    {
        self.acceleration = self.acceleration.plus(&self.gravity);
    }

    /// The vertical force folded into acceleration by the jump pass.
    pub open spec fn jump_thrust(self, jump_held: bool) -> int {
        let f = self.applied_forces.y + if jump_held {
            JUMP_FORCE as int
        } else {
            0
        };
        if f > MAX_FORCE {
            MAX_FORCE as int
        } else {
            f
        }
    }

    pub open spec fn jump_fits(self, jump_held: bool) -> bool {
        &&& fits_i64(self.applied_forces.y + JUMP_FORCE)
        &&& fits_i64(self.acceleration.x + self.applied_forces.x)
        &&& fits_i64(self.acceleration.y + self.jump_thrust(jump_held))
        &&& fits_i64(self.acceleration.z + self.applied_forces.z)
    }

    pub open spec fn after_jump(self, jump_held: bool) -> Motion {
        Motion {
            acceleration: Vec3 {
                x: (self.acceleration.x + self.applied_forces.x) as i64,
                y: (self.acceleration.y + self.jump_thrust(jump_held)) as i64,
                z: (self.acceleration.z + self.applied_forces.z) as i64,
            },
            applied_forces: zero_vec(),
            ..self
        }
    }

    /// The jump pass: while the jump key is held the vertical force grows by
    /// `JUMP_FORCE`; the force, capped at `MAX_FORCE`, is folded into the
    /// acceleration and the accumulator is cleared.
    pub fn apply_jump(&mut self, jump_held: bool)
        requires
            old(self).jump_fits(jump_held),
        ensures
            *final(self) == old(self).after_jump(jump_held),
            old(self).jump_thrust(jump_held) <= MAX_FORCE,
            final(self).applied_forces.y <= MAX_FORCE,
    {
        if jump_held {
            self.apply_force(JUMP_FORCE);
        }
        self.max_force();
        let forces = self.applied_forces;
        self.acceleration = self.acceleration.plus(&forces);
        self.applied_forces = Vec3::zero();
    }

    /// The entity can be integrated over `dt` microseconds without leaving
    /// the range of an `i64`.
    pub open spec fn integrate_fits(self, dt: u32) -> bool {
        let (dx, dy, dz) = direction(self.velocity);
        &&& self.velocity.within_velocity_limit()
        &&& self.speed_scale <= SPEED_LIMIT
        &&& fits_i64(advance(self.position.x as int, dx, self.acceleration.x as int, self.speed_scale as int, dt as int))
        &&& fits_i64(advance(self.position.y as int, dy, self.acceleration.y as int, self.speed_scale as int, dt as int))
        &&& fits_i64(advance(self.position.z as int, dz, self.acceleration.z as int, self.speed_scale as int, dt as int))
    }

    pub open spec fn after_integrate(self, dt: u32) -> Motion {
        let (dx, dy, dz) = direction(self.velocity);
        let s = self.speed_scale as int;
        Motion {
            position: Vec3 {
                x: advance(self.position.x as int, dx, self.acceleration.x as int, s, dt as int) as i64,
                y: advance(self.position.y as int, dy, self.acceleration.y as int, s, dt as int) as i64,
                z: advance(self.position.z as int, dz, self.acceleration.z as int, s, dt as int) as i64,
            },
            velocity: Vec3 { x: dx as i64, y: dy as i64, z: dz as i64 },
            acceleration: zero_vec(),
            ..self
        }
    }

    /// Advances the position by `dt` microseconds: the velocity is
    /// normalized to its direction, the raw acceleration is added, and the
    /// sum, times the speed scale and the elapsed time, moves the entity.
    /// The acceleration is then cleared for the next frame.
    pub fn integrate(&mut self, dt: u32)
        requires
            old(self).integrate_fits(dt),
        ensures
            *final(self) == old(self).after_integrate(dt),
    {
        let dir = normalize(self.velocity);
        let s = self.speed_scale;
        let x = advance_exec(self.position.x, dir.x, self.acceleration.x, s, dt);
        let y = advance_exec(self.position.y, dir.y, self.acceleration.y, s, dt);
        let z = advance_exec(self.position.z, dir.z, self.acceleration.z, s, dt);
        self.velocity = dir;
        self.position = Vec3 { x, y, z };
        self.acceleration = Vec3::zero();
    }

    /// Replaces the velocity with the direction asked for by the held keys;
    /// nothing of the previous velocity is kept.
    pub fn apply_input(&mut self, keys: &HeldKeys)
        ensures
            *final(self) == (Motion { velocity: intent(*keys), ..*old(self) }),
    {
        self.velocity = input_velocity(keys);
    }

    pub open spec fn after_facing(self) -> Motion {
        Motion {
            facing_left: if self.velocity.x < -FACING_BAND {
                true
            } else if self.velocity.x > FACING_BAND {
                false
            } else {
                self.facing_left
            },
            ..self
        }
    }

    /// Turns the entity to face its horizontal direction of travel; within
    /// `FACING_BAND` of zero the facing is kept.
    pub fn update_facing(&mut self)
        ensures
            *final(self) == old(self).after_facing(),
    {
        if self.velocity.x < -FACING_BAND {
            self.facing_left = true;
        } else if self.velocity.x > FACING_BAND {
            self.facing_left = false;
        }
    }

    /// Idle when the entity has no velocity, moving otherwise.
    pub fn animation(&self) -> (r: AnimState)
        ensures
            r == (if self.velocity.is_zero_spec() {
                AnimState::Idle
            } else {
                AnimState::Moving
            }),
    {
        if self.velocity.is_zero() {
            AnimState::Idle
        } else {
            AnimState::Moving
        }
    }
}

/// The motion after one jump pass per frame, the jump key held on the
/// frames where `presses` says so.
pub open spec fn jump_frames(m: Motion, presses: Seq<bool>) -> Motion
    decreases presses.len(),
{
    if presses.len() == 0 {
        m
    } else {
        jump_frames(m, presses.drop_last()).after_jump(presses.last())
    }
}

/// However the jump key is pressed over many frames, no jump pass folds a
/// vertical force above `MAX_FORCE` into the acceleration, and the force
/// accumulator never holds more than `MAX_FORCE` after a pass.
pub proof fn lemma_jump_force_capped(m: Motion, presses: Seq<bool>)
    ensures
        forall|k: int|
            0 <= k < presses.len() ==> #[trigger] jump_frames(m, presses.take(k)).jump_thrust(presses[k])
                <= MAX_FORCE,
        presses.len() > 0 ==> jump_frames(m, presses).applied_forces.y <= MAX_FORCE,
{
}

/// The integrator moves an entity with a non-zero velocity along a
/// direction of length `UNIT`, up to the rounding of each component onto
/// the grid, before the speed scale and the elapsed time multiply it.
pub proof fn lemma_integrated_direction_is_unit(m: Motion, dt: u32)
    requires
        !m.velocity.is_zero_spec(),
    ensures
        UNIT * UNIT - 6 * UNIT - 2 <= m.after_integrate(dt).velocity.len_sq() <= UNIT * UNIT,
{
    lemma_direction_bounded(m.velocity);
    lemma_direction_is_unit(m.velocity);
}

/// The velocity that the held movement keys ask for.
pub fn input_velocity(keys: &HeldKeys) -> (r: Vec3)
    ensures
        r == intent(*keys),
{
    let mut v = Vec3::zero();
    if keys.up {
        v.y = v.y + UNIT;
    }
    if keys.left {
        v.x = v.x - UNIT;
    }
    if keys.down {
        v.y = v.y - UNIT;
    }
    if keys.right {
        v.x = v.x + UNIT;
    }
    v
}

fn advance_exec(p: i64, d: i64, a: i64, speed: u32, dt: u32) -> (r: i64)
    requires
        -UNIT <= d <= UNIT,
        speed <= SPEED_LIMIT,
        fits_i64(advance(p as int, d as int, a as int, speed as int, dt as int)),
    ensures
        r == advance(p as int, d as int, a as int, speed as int, dt as int),
{
    let c: i128 = d as i128 + a as i128;
    let sp: i128 = speed as i128;
    let t: i128 = dt as i128;
    assert(-0x10_0000_0000_0000_0000_0000 <= c * sp <= 0x10_0000_0000_0000_0000_0000)
        by (nonlinear_arith)
        requires
            -0x1_0000_0000_0000_0000 <= c <= 0x1_0000_0000_0000_0000,
            0 <= sp <= 0x10_0000,
    ;
    assert(-0x1000_0000_0000_0000_0000_0000_0000_0000 <= (c * sp) * t <= 0x1000_0000_0000_0000_0000_0000_0000_0000)
        by (nonlinear_arith)
        requires
            -0x10_0000_0000_0000_0000_0000 <= c * sp <= 0x10_0000_0000_0000_0000_0000,
            0 <= t <= 0xffff_ffff,
    ;
    let num: i128 = c * sp * t;
    let q: i128 = if num >= 0 {
        num / (MICROS as i128)
    } else {
        -((-num) / (MICROS as i128))
    };
    (p as i128 + q) as i64
}

} // verus!
