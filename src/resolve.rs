//! Collision response of the player against static obstacles (landing,
//! falling off a ledge, the brick-top jump) and against pushable bodies.
use vstd::prelude::*;
use crate::fixed::{Vec3, UNIT};
use crate::aabb::{Size2, Collision, probe, collide};
use crate::motion::{Motion, GRAVITY_Y, fits_i64, zero_vec};

verus! {

/// Vertical impulse of a jump started from the top of a short brick.
pub const JUMP_IMPULSE: i64 = 20000;

/// A pushed body's velocity along the negative direction of an axis.
pub const NUDGE_BACK: i64 = -1000;

/// Speed scale of the player while it pushes a body.
pub const PUSH_SPEED: u32 = 70;

/// Speed scale of the player while it pushes nothing.
pub const FREE_SPEED: u32 = 155;

/// Size of the player where none is given: 41.6 by 51.2 units.
pub const PLAYER_W: i64 = 41600;
pub const PLAYER_H: i64 = 51200;

/// Size of a body where none is given: 38 by 38 units.
pub const BODY_SIDE: i64 = 38000;

/// Side of a masonry block where none is given: 65 units.
pub const BRICK_SIDE: i64 = 65000;

/// The kind of a static obstacle.
#[derive(Clone, Copy, Debug, PartialEq, Eq, Structural)]
pub enum ObstacleKind {
    /// The ground: falling off it restores the whole gravity vector.
    Floor,
    /// A short brick: falling off it restores vertical gravity, and a jump
    /// can be started from its top.
    BrickShort,
    /// A masonry block that blocks on every side: it also stops the
    /// player's horizontal velocity on a side contact, its vertical velocity
    /// on a contact from below, and a pushed body likewise.
    Brick,
}

/// A static obstacle; it never moves.
#[derive(Clone, Copy, Debug, PartialEq, Eq, Structural)]
pub struct Obstacle {
    pub position: Vec3,
    pub size: Option<Size2>,
    pub kind: ObstacleKind,
}

/// How a moving entity with a collider answers a collision.
#[derive(Clone, Copy, Debug, PartialEq, Eq, Structural)]
pub enum Collider {
    /// Never moves in response to a collision.
    Solid,
    /// Is pushed by the player.
    Push,
}

/// A moving entity with a collider, such as a crate.
#[derive(Clone, Copy, Debug, PartialEq, Eq, Structural)]
pub struct Body {
    pub motion: Motion,
    pub size: Option<Size2>,
    pub collider: Collider,
}

pub open spec fn player_extent(size: Option<Size2>) -> Size2 {
    match size {
        Some(s) => s,
        None => Size2 { w: PLAYER_W, h: PLAYER_H },
    }
}

pub open spec fn obstacle_extent(o: Obstacle) -> Size2 {
    match o.size {
        Some(s) => s,
        None => if o.kind == ObstacleKind::Brick {
            Size2 { w: BRICK_SIDE, h: BRICK_SIDE }
        } else {
            Size2 { w: 0, h: 0 }
        },
    }
}

pub open spec fn body_extent(b: Body) -> Size2 {
    match b.size {
        Some(s) => s,
        None => Size2 { w: BODY_SIDE, h: BODY_SIDE },
    }
}

/// The player's size, or the default one.
pub fn player_size_or_default(size: Option<Size2>) -> (r: Size2)
    ensures
        r == player_extent(size),
{
    match size {
        Some(s) => s,
        None => Size2 { w: PLAYER_W, h: PLAYER_H },
    }
}

fn obstacle_size(o: &Obstacle) -> (r: Size2)
    ensures
        r == obstacle_extent(*o),
{
    match o.size {
        Some(s) => s,
        None => match o.kind {
            ObstacleKind::Brick => Size2 { w: BRICK_SIDE, h: BRICK_SIDE },
            _ => Size2 { w: 0, h: 0 },
        },
    }
}

fn body_size(b: &Body) -> (r: Size2)
    ensures
        r == body_extent(*b),
{
    match b.size {
        Some(s) => s,
        None => Size2 { w: BODY_SIDE, h: BODY_SIDE },
    }
}

/// The player at `pos` with size `ps` rests on top of `o`.
pub open spec fn lands(pos: Vec3, ps: Size2, o: Obstacle) -> bool {
    probe(pos, ps, o.position, obstacle_extent(o)) == Some(Collision::Top)
}

/// The center of the player lies beyond the horizontal extent of `o`.
pub open spec fn past_edge(pos: Vec3, o: Obstacle) -> bool {
    let w = obstacle_extent(o).w;
    2 * o.position.x - w > 2 * pos.x || 2 * o.position.x + w < 2 * pos.x
}

/// The player does not rest on `o` and has walked off its edge.
pub open spec fn falls_off(pos: Vec3, ps: Size2, o: Obstacle) -> bool {
    !lands(pos, ps, o) && past_edge(pos, o)
}

pub open spec fn any_lands(pos: Vec3, ps: Size2, obs: Seq<Obstacle>, n: int) -> bool {
    exists|i: int| 0 <= i < n && #[trigger] lands(pos, ps, obs[i])
}

pub open spec fn any_falls_off(pos: Vec3, ps: Size2, obs: Seq<Obstacle>, n: int) -> bool {
    exists|i: int| 0 <= i < n && #[trigger] falls_off(pos, ps, obs[i])
}

pub open spec fn falls_off_floor(pos: Vec3, ps: Size2, o: Obstacle) -> bool {
    o.kind == ObstacleKind::Floor && falls_off(pos, ps, o)
}

pub open spec fn any_falls_off_floor(pos: Vec3, ps: Size2, obs: Seq<Obstacle>, n: int) -> bool {
    exists|i: int| 0 <= i < n && #[trigger] falls_off_floor(pos, ps, obs[i])
}

/// A full brick stops the player's horizontal velocity.
pub open spec fn blocks_x(pos: Vec3, ps: Size2, o: Obstacle) -> bool {
    o.kind == ObstacleKind::Brick && (probe(pos, ps, o.position, obstacle_extent(o)) == Some(
        Collision::Left,
    ) || probe(pos, ps, o.position, obstacle_extent(o)) == Some(Collision::Right))
}

/// A full brick stops the player's vertical velocity when met from below.
pub open spec fn blocks_y(pos: Vec3, ps: Size2, o: Obstacle) -> bool {
    o.kind == ObstacleKind::Brick && probe(pos, ps, o.position, obstacle_extent(o)) == Some(
        Collision::Bottom,
    )
}

pub open spec fn any_blocks_x(pos: Vec3, ps: Size2, obs: Seq<Obstacle>, n: int) -> bool {
    exists|i: int| 0 <= i < n && #[trigger] blocks_x(pos, ps, obs[i])
}

pub open spec fn any_blocks_y(pos: Vec3, ps: Size2, obs: Seq<Obstacle>, n: int) -> bool {
    exists|i: int| 0 <= i < n && #[trigger] blocks_y(pos, ps, obs[i])
}

/// The player after the ground pass over the first `n` obstacles: resting
/// on any of them stops its vertical acceleration; walking off any of them
/// restores gravity (the whole vector for a floor, its vertical part for a
/// brick); full bricks block the player's velocity on their sides and
/// underside.
pub open spec fn ground_prefix(m: Motion, ps: Size2, obs: Seq<Obstacle>, n: int) -> Motion {
    let pos = m.position;
    let floor_off = any_falls_off_floor(pos, ps, obs, n);
    Motion {
        velocity: Vec3 {
            x: if any_blocks_x(pos, ps, obs, n) {
                0
            } else {
                m.velocity.x
            },
            y: if any_blocks_y(pos, ps, obs, n) {
                0
            } else {
                m.velocity.y
            },
            ..m.velocity
        },
        acceleration: Vec3 {
            y: if any_lands(pos, ps, obs, n) {
                0
            } else {
                m.acceleration.y
            },
            ..m.acceleration
        },
        gravity: Vec3 {
            x: if floor_off {
                0
            } else {
                m.gravity.x
            },
            y: if any_falls_off(pos, ps, obs, n) {
                GRAVITY_Y
            } else {
                m.gravity.y
            },
            z: if floor_off {
                0
            } else {
                m.gravity.z
            },
        },
        ..m
    }
}

pub open spec fn after_ground(m: Motion, ps: Size2, obs: Seq<Obstacle>) -> Motion {
    ground_prefix(m, ps, obs, obs.len() as int)
}

/// The ground pass of the player, of size `ps`, over the static obstacles.
pub fn resolve_ground(player: &mut Motion, ps: Size2, obstacles: &Vec<Obstacle>)
    ensures
        *final(player) == after_ground(*old(player), ps, obstacles@),
{
    let ghost start = *player;
    let n = obstacles.len();
    let mut i: usize = 0;
    while i < n
        invariant
            n == obstacles@.len(),
            0 <= i <= n,
            *player == ground_prefix(start, ps, obstacles@, i as int),
        decreases n - i,
    {
        let o = obstacles[i];
        let contact = collide(player.position, ps, o.position, obstacle_size(&o));
        let w = obstacle_size(&o).w as i128;
        let ox = o.position.x as i128;
        let px = player.position.x as i128;
        let is_top = match contact {
            Some(Collision::Top) => true,
            _ => false,
        };
        let is_brick = match o.kind {
            ObstacleKind::Brick => true,
            _ => false,
        };
        if is_brick {
            match contact {
                Some(Collision::Left) | Some(Collision::Right) => {
                    player.velocity.x = 0;
                },
                Some(Collision::Bottom) => {
                    player.velocity.y = 0;
                },
                _ => {},
            }
        }
        if is_top {
            player.acceleration.y = 0;
        } else if 2 * ox - w > 2 * px || 2 * ox + w < 2 * px {
            match o.kind {
                ObstacleKind::Floor => {
                    player.gravity = Vec3::new(0, GRAVITY_Y, 0);
                },
                _ => {
                    player.gravity.y = GRAVITY_Y;
                },
            }
        }
        proof {
            let pos = start.position;
            let s = obstacles@;
            assert(lands(pos, ps, s[i as int]) == is_top);
            assert(any_lands(pos, ps, s, i + 1) == (any_lands(pos, ps, s, i as int) || is_top));
            assert(any_falls_off(pos, ps, s, i + 1) == (any_falls_off(pos, ps, s, i as int)
                || falls_off(pos, ps, s[i as int])));
            assert(any_falls_off_floor(pos, ps, s, i + 1) == (any_falls_off_floor(pos, ps, s, i as int)
                || falls_off_floor(pos, ps, s[i as int])));
            assert(any_blocks_x(pos, ps, s, i + 1) == (any_blocks_x(pos, ps, s, i as int) || blocks_x(
                pos,
                ps,
                s[i as int],
            )));
            assert(any_blocks_y(pos, ps, s, i + 1) == (any_blocks_y(pos, ps, s, i as int) || blocks_y(
                pos,
                ps,
                s[i as int],
            )));
        }
        i = i + 1;
    }
}

pub open spec fn lands_on_brick(pos: Vec3, ps: Size2, o: Obstacle) -> bool {
    o.kind == ObstacleKind::BrickShort && lands(pos, ps, o)
}

pub open spec fn falls_off_brick(pos: Vec3, ps: Size2, o: Obstacle) -> bool {
    o.kind == ObstacleKind::BrickShort && falls_off(pos, ps, o)
}

/// How many of the first `n` obstacles are short bricks that the player
/// rests on.
pub open spec fn brick_tops(pos: Vec3, ps: Size2, obs: Seq<Obstacle>, n: int) -> int
    decreases n,
{
    if n <= 0 {
        0
    } else {
        brick_tops(pos, ps, obs, n - 1) + if lands_on_brick(pos, ps, obs[n - 1]) {
            1int
        } else {
            0int
        }
    }
}

pub open spec fn any_falls_off_brick(pos: Vec3, ps: Size2, obs: Seq<Obstacle>, n: int) -> bool {
    exists|i: int| 0 <= i < n && #[trigger] falls_off_brick(pos, ps, obs[i])
}

/// The player after the jump trigger over the first `n` obstacles.
pub open spec fn jump_trigger_prefix(
    m: Motion,
    ps: Size2,
    obs: Seq<Obstacle>,
    just_pressed: bool,
    n: int,
) -> Motion {
    let pos = m.position;
    Motion {
        acceleration: Vec3 {
            y: (m.acceleration.y + if just_pressed {
                JUMP_IMPULSE * brick_tops(pos, ps, obs, n)
            } else {
                0
            }) as i64,
            ..m.acceleration
        },
        gravity: Vec3 {
            y: if any_falls_off_brick(pos, ps, obs, n) {
                GRAVITY_Y
            } else {
                m.gravity.y
            },
            ..m.gravity
        },
        ..m
    }
}

/// The player after the jump trigger: on the frame the jump key goes down,
/// each short brick that the player rests on adds `JUMP_IMPULSE` to its
/// vertical acceleration; walking off a short brick restores vertical
/// gravity.
pub open spec fn after_jump_trigger(m: Motion, ps: Size2, obs: Seq<Obstacle>, just_pressed: bool) -> Motion {
    jump_trigger_prefix(m, ps, obs, just_pressed, obs.len() as int)
}

/// At most one jump impulse per obstacle.
pub proof fn lemma_brick_tops_bounds(pos: Vec3, ps: Size2, obs: Seq<Obstacle>, n: int)
    requires
        n >= 0,
    ensures
        0 <= brick_tops(pos, ps, obs, n) <= n,
    decreases n,
{
    if n > 0 {
        lemma_brick_tops_bounds(pos, ps, obs, n - 1);
    }
}

/// The jump trigger of the player, of size `ps`, over the static obstacles.
pub fn jump_trigger(player: &mut Motion, ps: Size2, obstacles: &Vec<Obstacle>, just_pressed: bool)
    requires
        fits_i64(old(player).acceleration.y + JUMP_IMPULSE * obstacles@.len()),
    ensures
        *final(player) == after_jump_trigger(*old(player), ps, obstacles@, just_pressed),
{
    let ghost start = *player;
    let n = obstacles.len();
    let mut i: usize = 0;
    while i < n
        invariant
            n == obstacles@.len(),
            0 <= i <= n,
            fits_i64(start.acceleration.y + JUMP_IMPULSE * n),
            *player == jump_trigger_prefix(start, ps, obstacles@, just_pressed, i as int),
        decreases n - i,
    {
        let o = obstacles[i];
        let contact = collide(player.position, ps, o.position, obstacle_size(&o));
        let w = obstacle_size(&o).w as i128;
        let ox = o.position.x as i128;
        let px = player.position.x as i128;
        let is_brick = match o.kind {
            ObstacleKind::BrickShort => true,
            _ => false,
        };
        let is_top = match contact {
            Some(Collision::Top) => true,
            _ => false,
        };
        proof {
            lemma_brick_tops_bounds(start.position, ps, obstacles@, i as int);
            lemma_brick_tops_bounds(start.position, ps, obstacles@, i + 1);
        }
        if is_brick {
            if is_top {
                if just_pressed {
                    player.acceleration.y = player.acceleration.y + JUMP_IMPULSE;
                }
            } else if 2 * ox - w > 2 * px || 2 * ox + w < 2 * px {
                player.gravity.y = GRAVITY_Y;
            }
        }
        proof {
            let pos = start.position;
            let s = obstacles@;
            assert(any_falls_off_brick(pos, ps, s, i + 1) == (any_falls_off_brick(pos, ps, s, i as int)
                || falls_off_brick(pos, ps, s[i as int])));
        }
        i = i + 1;
    }
}

/// A pushable body's answer to its contact with the player, whose velocity
/// is `pv`: the body's new velocity and the player's new speed scale, if
/// the contact sets one. On each side a player moving into the body nudges
/// it along at `PUSH_SPEED`; otherwise the body stops on that axis and the
/// player goes at `FREE_SPEED`. Without contact the body stops.
pub open spec fn push_response(pv: Vec3, contact: Option<Collision>, bv: Vec3) -> (Vec3, Option<u32>) {
    match contact {
        None => (zero_vec(), Some(FREE_SPEED)),
        Some(Collision::Left) => if pv.x > 0 {
            (Vec3 { x: UNIT, ..bv }, Some(PUSH_SPEED))
        } else {
            (Vec3 { x: 0, ..bv }, Some(FREE_SPEED))
        },
        Some(Collision::Right) => if pv.x < 0 {
            (Vec3 { x: NUDGE_BACK, ..bv }, Some(PUSH_SPEED))
        } else {
            (Vec3 { x: 0, ..bv }, Some(FREE_SPEED))
        },
        Some(Collision::Top) => if pv.y < 0 {
            (Vec3 { y: NUDGE_BACK, ..bv }, Some(PUSH_SPEED))
        } else {
            (Vec3 { y: 0, ..bv }, Some(FREE_SPEED))
        },
        Some(Collision::Bottom) => if pv.y > 0 {
            (Vec3 { y: UNIT, ..bv }, Some(PUSH_SPEED))
        } else {
            (Vec3 { y: 0, ..bv }, Some(FREE_SPEED))
        },
        Some(Collision::Inside) => (bv, None),
    }
}

pub open spec fn body_contact(player: Motion, ps: Size2, b: Body) -> Option<Collision> {
    probe(player.position, ps, b.motion.position, body_extent(b))
}

/// The body after the push pass; a solid body is left as it is.
pub open spec fn pushed_body(player: Motion, ps: Size2, b: Body) -> Body {
    match b.collider {
        Collider::Push => Body {
            motion: Motion {
                velocity: push_response(player.velocity, body_contact(player, ps, b), b.motion.velocity).0,
                ..b.motion
            },
            ..b
        },
        Collider::Solid => b,
    }
}

/// The speed scale that the push pass gives the player on meeting `b`.
pub open spec fn speed_effect(player: Motion, ps: Size2, b: Body) -> Option<u32> {
    match b.collider {
        Collider::Push => push_response(player.velocity, body_contact(player, ps, b), b.motion.velocity).1,
        Collider::Solid => None,
    }
}

/// The player's speed scale after the push pass over the first `n`
/// bodies, from `base`: the last body that sets one decides.
pub open spec fn last_speed(base: u32, player: Motion, ps: Size2, bodies: Seq<Body>, n: int) -> u32
    decreases n,
{
    if n <= 0 {
        base
    } else {
        match speed_effect(player, ps, bodies[n - 1]) {
            Some(s) => s,
            None => last_speed(base, player, ps, bodies, n - 1),
        }
    }
}

/// The player after the push pass over `bodies`.
pub open spec fn pushing_player(player: Motion, ps: Size2, bodies: Seq<Body>) -> Motion {
    Motion {
        speed_scale: last_speed(player.speed_scale, player, ps, bodies, bodies.len() as int),
        ..player
    }
}

/// The bodies after the push pass of `player`.
pub open spec fn pushed_bodies(player: Motion, ps: Size2, bodies: Seq<Body>) -> Seq<Body> {
    Seq::new(bodies.len(), |i: int| pushed_body(player, ps, bodies[i]))
}

fn push_response_exec(pv: Vec3, contact: Option<Collision>, bv: Vec3) -> (r: (Vec3, Option<u32>))
    ensures
        r == push_response(pv, contact, bv),
{
    match contact {
        None => (Vec3::zero(), Some(FREE_SPEED)),
        Some(Collision::Left) => if pv.x > 0 {
            (Vec3 { x: UNIT, ..bv }, Some(PUSH_SPEED))
        } else {
            (Vec3 { x: 0, ..bv }, Some(FREE_SPEED))
        },
        Some(Collision::Right) => if pv.x < 0 {
            (Vec3 { x: NUDGE_BACK, ..bv }, Some(PUSH_SPEED))
        } else {
            (Vec3 { x: 0, ..bv }, Some(FREE_SPEED))
        },
        Some(Collision::Top) => if pv.y < 0 {
            (Vec3 { y: NUDGE_BACK, ..bv }, Some(PUSH_SPEED))
        } else {
            (Vec3 { y: 0, ..bv }, Some(FREE_SPEED))
        },
        Some(Collision::Bottom) => if pv.y > 0 {
            (Vec3 { y: UNIT, ..bv }, Some(PUSH_SPEED))
        } else {
            (Vec3 { y: 0, ..bv }, Some(FREE_SPEED))
        },
        Some(Collision::Inside) => (bv, None),
    }
}

/// The push pass of the player, of size `ps`, over the moving bodies.
pub fn resolve_push(player: &mut Motion, ps: Size2, bodies: &mut Vec<Body>)
    ensures
        *final(player) == pushing_player(*old(player), ps, old(bodies)@),
        final(bodies)@ == pushed_bodies(*old(player), ps, old(bodies)@),
{
    let ghost start = *player;
    let ghost orig = bodies@;
    let n = bodies.len();
    let mut i: usize = 0;
    while i < n
        invariant
            n == bodies@.len(),
            n == orig.len(),
            0 <= i <= n,
            *player == (Motion {
                speed_scale: last_speed(start.speed_scale, start, ps, orig, i as int),
                ..start
            }),
            forall|j: int| 0 <= j < i ==> bodies@[j] == pushed_body(start, ps, #[trigger] orig[j]),
            forall|j: int| i <= j < n ==> bodies@[j] == orig[j],
        decreases n - i,
    {
        let b = bodies[i];
        match b.collider {
            Collider::Push => {
                let contact = collide(player.position, ps, b.motion.position, body_size(&b));
                let (v, speed) = push_response_exec(player.velocity, contact, b.motion.velocity);
                match speed {
                    Some(sp) => {
                        player.speed_scale = sp;
                    },
                    None => {},
                }
                let nb = Body { motion: Motion { velocity: v, ..b.motion }, ..b };
                bodies.set(i, nb);
            },
            Collider::Solid => {},
        }
        i = i + 1;
    }
    proof {
        assert(bodies@ =~= pushed_bodies(start, ps, orig));
    }
}

/// Contact of a body with a full brick; other obstacles do not block
/// bodies.
pub open spec fn brick_contact(b: Body, o: Obstacle) -> Option<Collision> {
    if o.kind == ObstacleKind::Brick {
        probe(b.motion.position, body_extent(b), o.position, obstacle_extent(o))
    } else {
        None
    }
}

pub open spec fn side_hit(b: Body, o: Obstacle) -> bool {
    brick_contact(b, o) == Some(Collision::Left) || brick_contact(b, o) == Some(Collision::Right)
}

pub open spec fn end_hit(b: Body, o: Obstacle) -> bool {
    brick_contact(b, o) == Some(Collision::Top) || brick_contact(b, o) == Some(Collision::Bottom)
}

/// The body rests against a brick on its left.
pub open spec fn pinned_hit(b: Body, o: Obstacle) -> bool {
    brick_contact(b, o) == Some(Collision::Right)
}

pub open spec fn any_side_hit(b: Body, obs: Seq<Obstacle>, n: int) -> bool {
    exists|j: int| 0 <= j < n && #[trigger] side_hit(b, obs[j])
}

pub open spec fn any_end_hit(b: Body, obs: Seq<Obstacle>, n: int) -> bool {
    exists|j: int| 0 <= j < n && #[trigger] end_hit(b, obs[j])
}

pub open spec fn any_pinned_hit(b: Body, obs: Seq<Obstacle>, n: int) -> bool {
    exists|j: int| 0 <= j < n && #[trigger] pinned_hit(b, obs[j])
}

/// A pushable body after the brick pass: a side contact stops it
/// horizontally, a contact above or below stops it vertically.
pub open spec fn blocked_body(b: Body, obs: Seq<Obstacle>) -> Body {
    if b.collider == Collider::Push {
        Body {
            motion: Motion {
                velocity: Vec3 {
                    x: if any_side_hit(b, obs, obs.len() as int) {
                        0
                    } else {
                        b.motion.velocity.x
                    },
                    y: if any_end_hit(b, obs, obs.len() as int) {
                        0
                    } else {
                        b.motion.velocity.y
                    },
                    ..b.motion.velocity
                },
                ..b.motion
            },
            ..b
        }
    } else {
        b
    }
}

pub open spec fn pinned_body(b: Body, obs: Seq<Obstacle>) -> bool {
    b.collider == Collider::Push && any_pinned_hit(b, obs, obs.len() as int)
}

pub open spec fn any_pinned_body(bodies: Seq<Body>, obs: Seq<Obstacle>, n: int) -> bool {
    exists|i: int| 0 <= i < n && #[trigger] pinned_body(bodies[i], obs)
}

/// The player after the brick pass: a player moving left stops when a
/// pushable body rests against a brick on its left, for that body cannot
/// give way.
pub open spec fn blocked_player(player: Motion, bodies: Seq<Body>, obs: Seq<Obstacle>) -> Motion {
    if player.velocity.x < 0 && any_pinned_body(bodies, obs, bodies.len() as int) {
        Motion { velocity: Vec3 { x: 0, ..player.velocity }, ..player }
    } else {
        player
    }
}

pub open spec fn blocked_bodies(bodies: Seq<Body>, obs: Seq<Obstacle>) -> Seq<Body> {
    Seq::new(bodies.len(), |i: int| blocked_body(bodies[i], obs))
}

/// Which ways a body meets full bricks: at its sides, at its ends, and
/// against a brick on its left.
fn body_brick_hits(b: &Body, obstacles: &Vec<Obstacle>) -> (r: (bool, bool, bool))
    ensures
        r.0 == any_side_hit(*b, obstacles@, obstacles@.len() as int),
        r.1 == any_end_hit(*b, obstacles@, obstacles@.len() as int),
        r.2 == any_pinned_hit(*b, obstacles@, obstacles@.len() as int),
{
    let bs = body_size(b);
    let n = obstacles.len();
    let mut side = false;
    let mut end = false;
    let mut pinned = false;
    let mut j: usize = 0;
    while j < n
        invariant
            n == obstacles@.len(),
            0 <= j <= n,
            bs == body_extent(*b),
            side == any_side_hit(*b, obstacles@, j as int),
            end == any_end_hit(*b, obstacles@, j as int),
            pinned == any_pinned_hit(*b, obstacles@, j as int),
        decreases n - j,
    {
        let o = obstacles[j];
        let contact = match o.kind {
            ObstacleKind::Brick => collide(b.motion.position, bs, o.position, obstacle_size(&o)),
            _ => None,
        };
        match contact {
            Some(Collision::Left) => {
                side = true;
            },
            Some(Collision::Right) => {
                side = true;
                pinned = true;
            },
            Some(Collision::Top) | Some(Collision::Bottom) => {
                end = true;
            },
            _ => {},
        }
        proof {
            let s = obstacles@;
            assert(brick_contact(*b, s[j as int]) == contact);
            assert(any_side_hit(*b, s, j + 1) == (any_side_hit(*b, s, j as int) || side_hit(*b, s[j as int])));
            assert(any_end_hit(*b, s, j + 1) == (any_end_hit(*b, s, j as int) || end_hit(*b, s[j as int])));
            assert(any_pinned_hit(*b, s, j + 1) == (any_pinned_hit(*b, s, j as int) || pinned_hit(
                *b,
                s[j as int],
            )));
        }
        j = j + 1;
    }
    (side, end, pinned)
}

/// The brick pass of the pushable bodies, and of the player pushing them.
pub fn resolve_body_bricks(player: &mut Motion, bodies: &mut Vec<Body>, obstacles: &Vec<Obstacle>)
    ensures
        *final(player) == blocked_player(*old(player), old(bodies)@, obstacles@),
        final(bodies)@ == blocked_bodies(old(bodies)@, obstacles@),
{
    let ghost orig = bodies@;
    let n = bodies.len();
    let mut any_pinned = false;
    let mut i: usize = 0;
    while i < n
        invariant
            n == bodies@.len(),
            n == orig.len(),
            0 <= i <= n,
            *player == *old(player),
            any_pinned == any_pinned_body(orig, obstacles@, i as int),
            forall|j: int| 0 <= j < i ==> bodies@[j] == blocked_body(#[trigger] orig[j], obstacles@),
            forall|j: int| i <= j < n ==> bodies@[j] == orig[j],
        decreases n - i,
    {
        let b = bodies[i];
        let is_push = match b.collider {
            Collider::Push => true,
            Collider::Solid => false,
        };
        if is_push {
            let (side, end, pinned) = body_brick_hits(&b, obstacles);
            let mut v = b.motion.velocity;
            if side {
                v.x = 0;
            }
            if end {
                v.y = 0;
            }
            if pinned {
                any_pinned = true;
            }
            let nb = Body { motion: Motion { velocity: v, ..b.motion }, ..b };
            bodies.set(i, nb);
        }
        proof {
            assert(any_pinned_body(orig, obstacles@, i + 1) == (any_pinned_body(orig, obstacles@, i as int)
                || pinned_body(orig[i as int], obstacles@)));
        }
        i = i + 1;
    }
    if any_pinned && player.velocity.x < 0 {
        player.velocity.x = 0;
    }
    proof {
        assert(bodies@ =~= blocked_bodies(orig, obstacles@));
    }
}

proof fn lemma_last_speed_same_effects(
    base: u32,
    p1: Motion,
    s1: Seq<Body>,
    p2: Motion,
    s2: Seq<Body>,
    ps: Size2,
    n: int,
)
    requires
        forall|i: int| 0 <= i < n ==> speed_effect(p1, ps, #[trigger] s1[i]) == speed_effect(p2, ps, s2[i]),
    ensures
        last_speed(base, p1, ps, s1, n) == last_speed(base, p2, ps, s2, n),
    decreases n,
{
    if n > 0 {
        lemma_last_speed_same_effects(base, p1, s1, p2, s2, ps, n - 1);
    }
}

proof fn lemma_last_speed_settles(base: u32, p: Motion, ps: Size2, s: Seq<Body>, n: int)
    ensures
        last_speed(last_speed(base, p, ps, s, n), p, ps, s, n) == last_speed(base, p, ps, s, n),
    decreases n,
{
    if n > 0 {
        lemma_last_speed_settles(base, p, ps, s, n - 1);
    }
}

/// Resolving the pushes twice in one frame, with positions unchanged,
/// gives the same player and bodies as resolving them once: the response
/// depends on the current positions and the player's velocity only.
pub proof fn lemma_push_idempotent(player: Motion, ps: Size2, bodies: Seq<Body>)
    ensures
        pushing_player(pushing_player(player, ps, bodies), ps, pushed_bodies(player, ps, bodies))
            == pushing_player(player, ps, bodies),
        pushed_bodies(pushing_player(player, ps, bodies), ps, pushed_bodies(player, ps, bodies))
            == pushed_bodies(player, ps, bodies),
{
    let p1 = pushing_player(player, ps, bodies);
    let b1 = pushed_bodies(player, ps, bodies);
    let n = bodies.len() as int;
    assert forall|i: int| 0 <= i < n implies speed_effect(p1, ps, #[trigger] b1[i]) == speed_effect(
        player,
        ps,
        bodies[i],
    ) && pushed_body(p1, ps, b1[i]) == b1[i] by {}
    lemma_last_speed_same_effects(p1.speed_scale, p1, b1, player, bodies, ps, n);
    lemma_last_speed_settles(player.speed_scale, player, ps, bodies, n);
    assert(pushed_bodies(p1, ps, b1) =~= b1);
}

/// Resolving the bodies against the bricks twice in one frame, with
/// positions unchanged, gives the same player and bodies as doing it once.
pub proof fn lemma_body_bricks_idempotent(player: Motion, bodies: Seq<Body>, obs: Seq<Obstacle>)
    ensures
        blocked_bodies(blocked_bodies(bodies, obs), obs) == blocked_bodies(bodies, obs),
        blocked_player(blocked_player(player, bodies, obs), blocked_bodies(bodies, obs), obs)
            == blocked_player(player, bodies, obs),
{
    let b1 = blocked_bodies(bodies, obs);
    let n = obs.len() as int;
    assert forall|i: int|
        #![trigger blocked_body(b1[i], obs)]
        #![trigger pinned_body(b1[i], obs)]
        #![trigger pinned_body(bodies[i], obs)]
        0 <= i < bodies.len() implies blocked_body(b1[i], obs) == b1[i] && pinned_body(b1[i], obs)
        == pinned_body(bodies[i], obs) by {
        assert forall|j: int| 0 <= j < n implies #[trigger] brick_contact(b1[i], obs[j]) == brick_contact(
            bodies[i],
            obs[j],
        ) by {}
        assert forall|j: int|
            #![trigger side_hit(b1[i], obs[j])]
            #![trigger side_hit(bodies[i], obs[j])]
            #![trigger end_hit(b1[i], obs[j])]
            #![trigger end_hit(bodies[i], obs[j])]
            #![trigger pinned_hit(b1[i], obs[j])]
            #![trigger pinned_hit(bodies[i], obs[j])]
            0 <= j < n implies side_hit(b1[i], obs[j]) == side_hit(bodies[i], obs[j]) && end_hit(
                b1[i],
                obs[j],
            ) == end_hit(bodies[i], obs[j]) && pinned_hit(b1[i], obs[j]) == pinned_hit(
                bodies[i],
                obs[j],
            ) by {
            assert(brick_contact(b1[i], obs[j]) == brick_contact(bodies[i], obs[j]));
        }
        assert(any_side_hit(b1[i], obs, n) == any_side_hit(bodies[i], obs, n));
        assert(any_end_hit(b1[i], obs, n) == any_end_hit(bodies[i], obs, n));
        assert(any_pinned_hit(b1[i], obs, n) == any_pinned_hit(bodies[i], obs, n));
    }
    assert(any_pinned_body(b1, obs, bodies.len() as int) == any_pinned_body(bodies, obs, bodies.len() as int));
    assert(blocked_bodies(b1, obs) =~= b1);
}

/// Resolving the ground twice in one frame changes nothing more than
/// resolving it once.
pub proof fn lemma_ground_idempotent(m: Motion, ps: Size2, obs: Seq<Obstacle>)
    ensures
        after_ground(after_ground(m, ps, obs), ps, obs) == after_ground(m, ps, obs),
{
}

} // verus!
