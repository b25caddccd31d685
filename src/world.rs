//! One scene and the fixed order in which a frame runs over it: forces,
//! collision response, integration, input.
use vstd::prelude::*;
use vstd::arithmetic::div_mod::{lemma_fundamental_div_mod, lemma_mod_bound};
use crate::fixed::{Vec3, VELOCITY_LIMIT, UNIT, direction, lemma_direction_bounded};
use crate::aabb::Size2;
use crate::motion::{Motion, HeldKeys, intent, SPEED_LIMIT, MICROS, advance, fits_i64};
use crate::resolve::{
    Body, Obstacle, player_extent, player_size_or_default, after_jump_trigger, after_ground,
    pushing_player, pushed_bodies, blocked_player, blocked_bodies, jump_trigger, resolve_ground,
    resolve_push, resolve_body_bricks, lemma_brick_tops_bounds, last_speed,
};

verus! {

/// Bound on the magnitude of positions, accelerations, gravity and forces
/// at the start of a frame.
pub const LIMIT: i64 = 1_000_000_000_000;

/// Largest number of static obstacles in a scene.
pub const OBSTACLE_LIMIT: usize = 1_000_000;

/// Which jump the scene runs: the thrust that grows while the key is held,
/// the impulse on the frame the key goes down on top of a short brick, or
/// both.
#[derive(Clone, Copy, Debug, PartialEq, Eq, Structural)]
pub enum JumpModel {
    Held,
    Pressed,
    Both,
}

/// What the player does in one frame.
#[derive(Clone, Copy, Debug, PartialEq, Eq, Structural)]
pub struct FrameInput {
    pub keys: HeldKeys,
    /// The jump key is down.
    pub jump_held: bool,
    /// The jump key went down in this frame.
    pub jump_pressed: bool,
}

/// A scene: the player, the moving bodies and the static obstacles.
#[derive(Clone, Debug)]
pub struct World {
    pub player: Motion,
    pub player_size: Option<Size2>,
    pub bodies: Vec<Body>,
    pub obstacles: Vec<Obstacle>,
    pub jump_model: JumpModel,
}

pub open spec fn within(v: Vec3, l: int) -> bool {
    -l <= v.x <= l && -l <= v.y <= l && -l <= v.z <= l
}

/// The magnitudes of a motion at the start of a frame.
pub open spec fn motion_bounded(m: Motion) -> bool {
    &&& within(m.position, LIMIT as int)
    &&& within(m.acceleration, LIMIT as int)
    &&& within(m.gravity, LIMIT as int)
    &&& within(m.applied_forces, LIMIT as int)
    &&& within(m.velocity, VELOCITY_LIMIT as int)
    &&& m.speed_scale <= SPEED_LIMIT
}

/// The magnitudes of a motion just before integration.
pub open spec fn ready_to_integrate(m: Motion) -> bool {
    &&& within(m.position, LIMIT as int)
    &&& within(m.acceleration, 4 * LIMIT)
    &&& within(m.velocity, VELOCITY_LIMIT as int)
    &&& m.speed_scale <= SPEED_LIMIT
}

pub open spec fn ramp_on(model: JumpModel) -> bool {
    model != JumpModel::Pressed
}

pub open spec fn trigger_on(model: JumpModel) -> bool {
    model != JumpModel::Held
}

/// A motion after the force passes: gravity, then the held-jump thrust
/// where the scene runs it.
pub open spec fn forced(m: Motion, ramp: bool, held: bool) -> Motion {
    if ramp {
        m.after_gravity().after_jump(held)
    } else {
        m.after_gravity()
    }
}

pub open spec fn forced_bodies(bodies: Seq<Body>, ramp: bool, held: bool) -> Seq<Body> {
    Seq::new(bodies.len(), |i: int| Body { motion: forced(bodies[i].motion, ramp, held), ..bodies[i] })
}

pub open spec fn integrated_bodies(bodies: Seq<Body>, dt: u32) -> Seq<Body> {
    Seq::new(bodies.len(), |i: int| Body { motion: bodies[i].motion.after_integrate(dt), ..bodies[i] })
}

/// The player and the bodies after one frame of `dt` microseconds.
pub open spec fn frame(w: World, input: FrameInput, dt: u32) -> (Motion, Seq<Body>) {
    let ps = player_extent(w.player_size);
    let obs = w.obstacles@;
    let ramp = ramp_on(w.jump_model);
    let p1 = forced(w.player, ramp, input.jump_held);
    let b1 = forced_bodies(w.bodies@, ramp, input.jump_held);
    let p2 = if trigger_on(w.jump_model) {
        after_jump_trigger(p1, ps, obs, input.jump_pressed)
    } else {
        p1
    };
    let p3 = after_ground(p2, ps, obs);
    let b2 = pushed_bodies(p3, ps, b1);
    let p4 = blocked_player(pushing_player(p3, ps, b1), b2, obs);
    let p5 = p4.after_integrate(dt);
    let b3 = integrated_bodies(blocked_bodies(b2, obs), dt);
    (Motion { velocity: intent(input.keys), ..p5 }.after_facing(), b3)
}

impl World {
    /// The bounds under which a frame stays within the range of an `i64`.
    pub open spec fn wf(&self) -> bool {
        &&& motion_bounded(self.player)
        &&& forall|i: int| 0 <= i < self.bodies@.len() ==> motion_bounded(#[trigger] self.bodies@[i].motion)
        &&& self.obstacles@.len() <= OBSTACLE_LIMIT
    }

    /// Whether the scene is within the bounds that `step_frame` asks for.
    pub fn within_limits(&self) -> (r: bool)
        ensures
            r == self.wf(),
    {
        if !motion_in_bounds(&self.player) || self.obstacles.len() > OBSTACLE_LIMIT {
            return false;
        }
        let n = self.bodies.len();
        let mut i: usize = 0;
        while i < n
            invariant
                n == self.bodies@.len(),
                0 <= i <= n,
                forall|j: int| 0 <= j < i ==> motion_bounded(#[trigger] self.bodies@[j].motion),
            decreases n - i,
        {
            if !motion_in_bounds(&self.bodies[i].motion) {
                return false;
            }
            i = i + 1;
        }
        true
    }

    /// Runs one frame of `dt` microseconds: gravity and jump forces,
    /// the jump trigger, landing, ledges and blocking bricks, pushing,
    /// bodies against bricks, integration of every moving entity, and last
    /// the player's input and facing.
    pub fn step_frame(&mut self, input: &FrameInput, dt: u32)
        requires
            old(self).wf(),
            dt <= MICROS,
        ensures
            (final(self).player, final(self).bodies@) == frame(*old(self), *input, dt),
            final(self).player_size == old(self).player_size,
            final(self).obstacles@ == old(self).obstacles@,
            final(self).jump_model == old(self).jump_model,
    {
        let ps = player_size_or_default(self.player_size);
        let ramp = match self.jump_model {
            JumpModel::Pressed => false,
            _ => true,
        };
        let trig = match self.jump_model {
            JumpModel::Held => false,
            _ => true,
        };
        self.player.apply_gravity();
        if ramp {
            self.player.apply_jump(input.jump_held);
        }
        apply_body_forces(&mut self.bodies, ramp, input.jump_held);
        let ghost p1 = self.player;
        let ghost b1 = self.bodies@;
        if trig {
            proof {
                lemma_brick_tops_bounds(p1.position, ps, self.obstacles@, self.obstacles@.len() as int);
            }
            jump_trigger(&mut self.player, ps, &self.obstacles, input.jump_pressed);
        }
        resolve_ground(&mut self.player, ps, &self.obstacles);
        let ghost p3 = self.player;
        resolve_push(&mut self.player, ps, &mut self.bodies);
        resolve_body_bricks(&mut self.player, &mut self.bodies, &self.obstacles);
        proof {
            lemma_last_speed_bounded(p3.speed_scale, p3, ps, b1, b1.len() as int);
            assert forall|i: int| 0 <= i < self.bodies@.len() implies ready_to_integrate(
                #[trigger] self.bodies@[i].motion,
            ) by {
                assert(motion_bounded(old(self).bodies@[i].motion));
            }
            lemma_ready_fits(self.player, dt);
        }
        self.player.integrate(dt);
        integrate_bodies(&mut self.bodies, dt);
        self.player.apply_input(&input.keys);
        self.player.update_facing();
        proof {
            assert(b1 =~= forced_bodies(old(self).bodies@, ramp, input.jump_held));
        }
    }
}

fn vec_within(v: &Vec3, l: i64) -> (r: bool)
    requires
        l >= 0,
    ensures
        r == within(*v, l as int),
{
    -l <= v.x && v.x <= l && -l <= v.y && v.y <= l && -l <= v.z && v.z <= l
}

fn motion_in_bounds(m: &Motion) -> (r: bool)
    ensures
        r == motion_bounded(*m),
{
    vec_within(&m.position, LIMIT) && vec_within(&m.acceleration, LIMIT) && vec_within(
        &m.gravity,
        LIMIT,
    ) && vec_within(&m.applied_forces, LIMIT) && vec_within(&m.velocity, VELOCITY_LIMIT)
        && m.speed_scale <= SPEED_LIMIT
}

proof fn lemma_last_speed_bounded(base: u32, p: Motion, ps: Size2, s: Seq<Body>, n: int)
    requires
        base <= SPEED_LIMIT,
    ensures
        last_speed(base, p, ps, s, n) <= SPEED_LIMIT,
    decreases n,
{
    if n > 0 {
        lemma_last_speed_bounded(base, p, ps, s, n - 1);
    }
}

proof fn lemma_advance_fits(p: int, d: int, a: int, s: int, dt: int)
    requires
        -LIMIT <= p <= LIMIT,
        -UNIT <= d <= UNIT,
        -4 * LIMIT <= a <= 4 * LIMIT,
        0 <= s <= SPEED_LIMIT,
        0 <= dt <= MICROS,
    ensures
        fits_i64(advance(p, d, a, s, dt)),
{
    let c = d + a;
    let bound = 5 * LIMIT;
    assert(c * s * dt <= bound * (MICROS * MICROS) && -(c * s * dt) <= bound * (MICROS * MICROS))
        by (nonlinear_arith)
        requires
            -bound <= c <= bound,
            0 <= s <= MICROS,
            0 <= dt <= MICROS,
            bound >= 0,
    ;
    let x = c * s * dt;
    let m = MICROS as int;
    let y = if x >= 0 {
        x
    } else {
        -x
    };
    lemma_fundamental_div_mod(y, m);
    lemma_mod_bound(y, m);
    let q = y / m;
    assert(0 <= q <= bound * MICROS) by (nonlinear_arith)
        requires
            y == m * q + y % m,
            0 <= y % m < m,
            0 <= y <= bound * (MICROS * MICROS),
            m == MICROS,
    ;
}

proof fn lemma_ready_fits(m: Motion, dt: u32)
    requires
        ready_to_integrate(m),
        dt <= MICROS,
    ensures
        m.integrate_fits(dt),
{
    lemma_direction_bounded(m.velocity);
    let (dx, dy, dz) = direction(m.velocity);
    lemma_advance_fits(m.position.x as int, dx, m.acceleration.x as int, m.speed_scale as int, dt as int);
    lemma_advance_fits(m.position.y as int, dy, m.acceleration.y as int, m.speed_scale as int, dt as int);
    lemma_advance_fits(m.position.z as int, dz, m.acceleration.z as int, m.speed_scale as int, dt as int);
}

fn apply_body_forces(bodies: &mut Vec<Body>, ramp: bool, held: bool)
    requires
        forall|i: int| 0 <= i < old(bodies)@.len() ==> motion_bounded(#[trigger] old(bodies)@[i].motion),
    ensures
        final(bodies)@ == forced_bodies(old(bodies)@, ramp, held),
{
    let ghost orig = bodies@;
    let n = bodies.len();
    let mut i: usize = 0;
    while i < n
        invariant
            n == bodies@.len(),
            n == orig.len(),
            0 <= i <= n,
            forall|j: int| 0 <= j < n ==> motion_bounded(#[trigger] orig[j].motion),
            forall|j: int| 0 <= j < i ==> bodies@[j] == (Body { motion: forced(orig[j].motion, ramp, held), ..#[trigger] orig[j] }),
            forall|j: int| i <= j < n ==> bodies@[j] == orig[j],
        decreases n - i,
    {
        let mut b = bodies[i];
        assert(motion_bounded(orig[i as int].motion));
        b.motion.apply_gravity();
        if ramp {
            b.motion.apply_jump(held);
        }
        bodies.set(i, b);
        i = i + 1;
    }
    proof {
        assert(bodies@ =~= forced_bodies(orig, ramp, held));
    }
}

fn integrate_bodies(bodies: &mut Vec<Body>, dt: u32)
    requires
        forall|i: int| 0 <= i < old(bodies)@.len() ==> ready_to_integrate(#[trigger] old(bodies)@[i].motion),
        dt <= MICROS,
    ensures
        final(bodies)@ == integrated_bodies(old(bodies)@, dt),
{
    let ghost orig = bodies@;
    let n = bodies.len();
    let mut i: usize = 0;
    while i < n
        invariant
            n == bodies@.len(),
            n == orig.len(),
            0 <= i <= n,
            dt <= MICROS,
            forall|j: int| 0 <= j < n ==> ready_to_integrate(#[trigger] orig[j].motion),
            forall|j: int| 0 <= j < i ==> bodies@[j] == (Body { motion: orig[j].motion.after_integrate(dt), ..#[trigger] orig[j] }),
            forall|j: int| i <= j < n ==> bodies@[j] == orig[j],
        decreases n - i,
    {
        let mut b = bodies[i];
        proof {
            lemma_ready_fits(orig[i as int].motion, dt);
        }
        b.motion.integrate(dt);
        bodies.set(i, b);
        i = i + 1;
    }
    proof {
        assert(bodies@ =~= integrated_bodies(orig, dt));
    }
}

} // verus!
