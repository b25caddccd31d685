use platformer::aabb::{collide, Collision, Size2};
use platformer::fixed::{isqrt, normalize, Vec3};
use platformer::motion::{input_velocity, AnimState, HeldKeys, Motion};
use platformer::resolve::{
    jump_trigger, player_size_or_default, resolve_body_bricks, resolve_ground, resolve_push, Body,
    Collider, Obstacle, ObstacleKind,
};
use platformer::world::{FrameInput, JumpModel, World};

fn no_keys() -> HeldKeys {
    HeldKeys { up: false, left: false, down: false, right: false }
}

fn player_at(x: i64, y: i64) -> Motion {
    Motion::new(Vec3::new(x, y, 0), 125)
}

fn floor() -> Obstacle {
    Obstacle {
        position: Vec3::new(0, -300_000, 0),
        size: Some(Size2::new(1_280_000, 42_000)),
        kind: ObstacleKind::Floor,
    }
}

fn short_brick(x: i64, y: i64) -> Obstacle {
    Obstacle {
        position: Vec3::new(x, y, 0),
        size: Some(Size2::new(100_000, 42_000)),
        kind: ObstacleKind::BrickShort,
    }
}

fn crate_at(x: i64, y: i64) -> Body {
    Body { motion: Motion::new(Vec3::new(x, y, 0), 70), size: None, collider: Collider::Push }
}

fn idle_input() -> FrameInput {
    FrameInput { keys: no_keys(), jump_held: false, jump_pressed: false }
}

fn lone_player_world(player: Motion, obstacles: Vec<Obstacle>) -> World {
    World { player, player_size: None, bodies: vec![], obstacles, jump_model: JumpModel::Both }
}

const FRAME_MICROS: u32 = 16_667;

#[test]
fn gravity_accelerates_player_with_no_ground() {
    let mut m = player_at(100_000, 100_000);
    m.apply_gravity();
    assert_eq!(m.acceleration.y, -1500);

    let mut w = lone_player_world(player_at(100_000, 100_000), vec![]);
    w.step_frame(&idle_input(), FRAME_MICROS);
    // -1500 * 125 * 16667 / 1e6 = -3125.06, rounded toward zero
    assert_eq!(w.player.position.y, 100_000 - 3125);
    assert!(w.player.position.y < 100_000);
    assert_eq!(w.player.position.x, 100_000);
    assert_eq!(w.player.acceleration, Vec3::zero());
}

#[test]
fn player_resting_on_floor_does_not_fall() {
    // floor top at -279000; player bottom 100 below it
    let p = player_at(0, -253_500);
    let ps = player_size_or_default(None);
    assert_eq!(collide(p.position, ps, floor().position, floor().size.unwrap()), Some(Collision::Top));

    let mut m = p;
    m.apply_gravity();
    resolve_ground(&mut m, ps, &vec![floor()]);
    assert_eq!(m.acceleration.y, 0);

    let mut w = lone_player_world(p, vec![floor()]);
    w.step_frame(&idle_input(), FRAME_MICROS);
    assert_eq!(w.player.position.y, -253_500);
}

#[test]
fn pushing_crate_from_left_moves_it_right() {
    // crate left edge at 81000; player right edge at 81100
    let mut p = player_at(60_300, 0);
    p.velocity = Vec3::new(1000, 0, 0);
    let mut bodies = vec![crate_at(100_000, 0)];
    let ps = player_size_or_default(None);
    resolve_push(&mut p, ps, &mut bodies);
    assert_eq!(bodies[0].motion.velocity.x, 1000);
    assert_eq!(p.speed_scale, 70);
}

#[test]
fn releasing_keys_stops_player() {
    let mut m = player_at(0, 0);
    m.velocity = Vec3::new(707, -707, 0);
    m.apply_input(&no_keys());
    assert_eq!(m.velocity, Vec3::zero());

    let mut w = lone_player_world(player_at(0, 0), vec![]);
    w.player.velocity = Vec3::new(1000, 1000, 0);
    w.step_frame(&idle_input(), FRAME_MICROS);
    assert_eq!(w.player.velocity, Vec3::zero());
}

#[test]
fn walking_off_brick_edge_restores_gravity() {
    // brick right edge at 50000, player half-width 20800
    let mut m = player_at(80_000, -153_500);
    m.gravity = Vec3::zero();
    let ps = player_size_or_default(None);
    resolve_ground(&mut m, ps, &vec![short_brick(0, -200_000)]);
    assert_eq!(m.gravity, Vec3::new(0, -1500, 0));
}

#[test]
fn walking_off_floor_edge_restores_whole_gravity() {
    let mut m = player_at(700_000, 0);
    m.gravity = Vec3::new(5, 0, 7);
    resolve_ground(&mut m, player_size_or_default(None), &vec![floor()]);
    assert_eq!(m.gravity, Vec3::new(0, -1500, 0));
}

#[test]
fn brick_keeps_sideways_gravity() {
    let mut m = player_at(60_000, 0);
    m.gravity = Vec3::new(5, 0, 7);
    resolve_ground(&mut m, player_size_or_default(None), &vec![short_brick(0, -200_000)]);
    assert_eq!(m.gravity, Vec3::new(5, -1500, 7));
}

#[test]
fn standing_within_brick_extent_keeps_gravity() {
    let mut m = player_at(10_000, 0);
    m.gravity = Vec3::zero();
    resolve_ground(&mut m, player_size_or_default(None), &vec![short_brick(0, -200_000)]);
    assert_eq!(m.gravity, Vec3::zero());
}

#[test]
fn collide_reports_each_side() {
    let s = Size2::new(10, 10);
    let o = Vec3::zero();
    assert_eq!(collide(Vec3::new(-8, 0, 0), s, o, s), Some(Collision::Left));
    assert_eq!(collide(Vec3::new(8, 0, 0), s, o, s), Some(Collision::Right));
    assert_eq!(collide(Vec3::new(0, 8, 0), s, o, s), Some(Collision::Top));
    assert_eq!(collide(Vec3::new(0, -8, 0), s, o, s), Some(Collision::Bottom));
    assert_eq!(collide(Vec3::new(0, 0, 0), s, o, s), Some(Collision::Inside));
    assert_eq!(collide(Vec3::new(20, 0, 0), s, o, s), None);
    // touching edges do not overlap
    assert_eq!(collide(Vec3::new(10, 0, 0), s, o, s), None);
}

#[test]
fn collide_picks_shallower_axis() {
    let s = Size2::new(10, 10);
    let o = Vec3::zero();
    // x depth 2, y depth 8: the contact is on the side
    assert_eq!(collide(Vec3::new(-8, 2, 0), s, o, s), Some(Collision::Left));
    // x depth 8, y depth 2: the contact is on top
    assert_eq!(collide(Vec3::new(2, 8, 0), s, o, s), Some(Collision::Top));
    // equal depths favour the horizontal side
    assert_eq!(collide(Vec3::new(5, 5, 0), s, o, s), Some(Collision::Right));
}

#[test]
fn collide_inside_when_contained() {
    assert_eq!(
        collide(Vec3::zero(), Size2::new(2, 2), Vec3::zero(), Size2::new(100, 100)),
        Some(Collision::Inside)
    );
    // contained horizontally, top face vertically
    assert_eq!(
        collide(Vec3::new(0, 50, 0), Size2::new(2, 10), Vec3::zero(), Size2::new(100, 100)),
        Some(Collision::Top)
    );
}

#[test]
fn collide_swapped_mirrors_side() {
    let cases = [
        (Vec3::new(-8, 2, 0), Size2::new(10, 10), Vec3::zero(), Size2::new(10, 10)),
        (Vec3::new(2, 8, 0), Size2::new(10, 12), Vec3::new(1, 1, 0), Size2::new(10, 10)),
        (Vec3::new(0, 50, 0), Size2::new(2, 10), Vec3::zero(), Size2::new(100, 100)),
        (Vec3::new(30, 0, 0), Size2::new(2, 10), Vec3::zero(), Size2::new(10, 10)),
    ];
    for (a, sa, b, sb) in cases {
        let ab = collide(a, sa, b, sb);
        let ba = collide(b, sb, a, sa);
        assert_eq!(ba, ab.map(|c| c.mirror()));
    }
    assert_eq!(Collision::Left.mirror(), Collision::Right);
    assert_eq!(Collision::Top.mirror(), Collision::Bottom);
    assert_eq!(Collision::Inside.mirror(), Collision::Inside);
}

#[test]
fn isqrt_rounds_down() {
    assert_eq!(isqrt(0), 0);
    assert_eq!(isqrt(1), 1);
    assert_eq!(isqrt(15), 3);
    assert_eq!(isqrt(16), 4);
    assert_eq!(isqrt(500_000), 707);
    assert_eq!(isqrt(1_000_000_000_000), 1_000_000);
}

#[test]
fn normalize_gives_unit_direction() {
    assert_eq!(normalize(Vec3::new(1000, 1000, 0)), Vec3::new(707, 707, 0));
    assert_eq!(normalize(Vec3::new(0, -3000, 0)), Vec3::new(0, -1000, 0));
    assert_eq!(normalize(Vec3::new(-1, 0, 0)), Vec3::new(-1000, 0, 0));
    assert_eq!(normalize(Vec3::zero()), Vec3::zero());
    for v in [Vec3::new(1000, 1000, 0), Vec3::new(3, -4, 12), Vec3::new(-1000, 1000, 1000)] {
        let d = normalize(v);
        let len_sq = d.x * d.x + d.y * d.y + d.z * d.z;
        assert!(len_sq <= 1_000_000);
        assert!(len_sq >= 1_000_000 - 6 * 1000 - 2);
    }
}

#[test]
fn diagonal_move_is_not_faster() {
    let mut m = Motion::new(Vec3::zero(), 100);
    m.gravity = Vec3::zero();
    m.velocity = Vec3::new(1000, 1000, 0);
    m.integrate(1_000_000);
    assert_eq!(m.position, Vec3::new(70_700, 70_700, 0));
    assert_eq!(m.velocity, Vec3::new(707, 707, 0));

    let mut s = Motion::new(Vec3::zero(), 100);
    s.velocity = Vec3::new(1000, 0, 0);
    s.integrate(1_000_000);
    assert_eq!(s.position, Vec3::new(100_000, 0, 0));
}

#[test]
fn integrate_adds_raw_acceleration_and_clears_it() {
    let mut m = Motion::new(Vec3::new(5, 5, 5), 10);
    m.velocity = Vec3::new(2000, 0, 0);
    m.acceleration = Vec3::new(500, -3000, 0);
    m.integrate(500_000);
    // x: (1000 + 500) * 10 * 0.5 = 7500; y: -3000 * 10 * 0.5 = -15000
    assert_eq!(m.position, Vec3::new(7505, -14_995, 5));
    assert_eq!(m.acceleration, Vec3::zero());
}

#[test]
fn integrate_rounds_toward_zero() {
    let mut m = Motion::new(Vec3::zero(), 1);
    m.acceleration = Vec3::new(3, -3, 0);
    m.integrate(1);
    assert_eq!(m.position, Vec3::zero());
}

#[test]
fn max_force_caps_vertical_force() {
    let mut m = player_at(0, 0);
    m.applied_forces.y = 25_000;
    m.max_force();
    assert_eq!(m.applied_forces.y, 20_000);
    m.applied_forces.y = 15_000;
    m.max_force();
    assert_eq!(m.applied_forces.y, 15_000);
    m.apply_force(6000);
    assert_eq!(m.applied_forces.y, 21_000);
}

#[test]
fn jump_pass_folds_capped_force() {
    let mut m = player_at(0, 0);
    m.apply_jump(true);
    assert_eq!(m.acceleration.y, 6000);
    assert_eq!(m.applied_forces, Vec3::zero());

    let mut n = player_at(0, 0);
    n.applied_forces = Vec3::new(1, 18_000, 2);
    n.apply_jump(true);
    assert_eq!(n.acceleration, Vec3::new(1, 20_000, 2));
    assert_eq!(n.applied_forces, Vec3::zero());

    let mut q = player_at(0, 0);
    q.apply_jump(false);
    assert_eq!(q.acceleration, Vec3::zero());
}

#[test]
fn jump_force_stays_capped_over_many_frames() {
    let mut m = player_at(0, 0);
    for _ in 0..50 {
        m.applied_forces.y += 7000;
        m.apply_jump(true);
        assert!(m.applied_forces.y <= 20_000);
        assert!(m.acceleration.y <= 20_000);
        m.acceleration = Vec3::zero();
    }
}

#[test]
fn jump_trigger_fires_on_brick_top_press() {
    let ps = player_size_or_default(None);
    // brick top at -179000; player bottom 100 below it
    let bricks = vec![short_brick(0, -200_000)];
    let mut m = player_at(0, -153_500);
    jump_trigger(&mut m, ps, &bricks, true);
    assert_eq!(m.acceleration.y, 20_000);

    let mut held = player_at(0, -153_500);
    jump_trigger(&mut held, ps, &bricks, false);
    assert_eq!(held.acceleration.y, 0);

    let mut floor_only = player_at(0, -253_500);
    jump_trigger(&mut floor_only, ps, &vec![floor()], true);
    assert_eq!(floor_only.acceleration.y, 0);
}

#[test]
fn jump_trigger_restores_gravity_off_brick() {
    let mut m = player_at(60_000, 0);
    m.gravity = Vec3::zero();
    jump_trigger(&mut m, player_size_or_default(None), &vec![short_brick(0, -200_000)], true);
    assert_eq!(m.gravity.y, -1500);
    assert_eq!(m.acceleration.y, 0);
}

#[test]
fn push_from_each_side() {
    let ps = player_size_or_default(None);
    // right of the crate, moving left
    let mut p = player_at(139_700, 0);
    p.velocity = Vec3::new(-1000, 0, 0);
    let mut b = vec![crate_at(100_000, 0)];
    resolve_push(&mut p, ps, &mut b);
    assert_eq!(b[0].motion.velocity.x, -1000);
    assert_eq!(p.speed_scale, 70);

    // above the crate, moving down
    let mut p = player_at(100_000, 44_500);
    p.velocity = Vec3::new(0, -1000, 0);
    let mut b = vec![crate_at(100_000, 0)];
    resolve_push(&mut p, ps, &mut b);
    assert_eq!(b[0].motion.velocity.y, -1000);
    assert_eq!(p.speed_scale, 70);

    // below the crate, moving up
    let mut p = player_at(100_000, -44_500);
    p.velocity = Vec3::new(0, 1000, 0);
    let mut b = vec![crate_at(100_000, 0)];
    resolve_push(&mut p, ps, &mut b);
    assert_eq!(b[0].motion.velocity.y, 1000);
    assert_eq!(p.speed_scale, 70);
}

#[test]
fn touching_without_pushing_stops_crate() {
    let ps = player_size_or_default(None);
    let mut p = player_at(60_300, 0);
    p.velocity = Vec3::new(-1000, 0, 0);
    let mut b = vec![crate_at(100_000, 0)];
    b[0].motion.velocity = Vec3::new(1000, 5, 0);
    resolve_push(&mut p, ps, &mut b);
    assert_eq!(b[0].motion.velocity, Vec3::new(0, 5, 0));
    assert_eq!(p.speed_scale, 155);
}

#[test]
fn no_contact_stops_crate_and_frees_player() {
    let ps = player_size_or_default(None);
    let mut p = player_at(-500_000, 0);
    let mut b = vec![crate_at(100_000, 0)];
    b[0].motion.velocity = Vec3::new(0, -1000, 0);
    resolve_push(&mut p, ps, &mut b);
    assert_eq!(b[0].motion.velocity, Vec3::zero());
    assert_eq!(p.speed_scale, 155);
}

#[test]
fn solid_body_and_inside_contact_are_left_alone() {
    let ps = player_size_or_default(None);
    let mut p = player_at(100_000, 0);
    p.velocity = Vec3::new(1000, 0, 0);
    let mut solid = crate_at(500_000, 0);
    solid.collider = Collider::Solid;
    solid.motion.velocity = Vec3::new(3, 4, 0);
    let mut inside = crate_at(100_000, 0);
    inside.size = Some(Size2::new(10, 10));
    inside.motion.velocity = Vec3::new(7, 8, 0);
    let mut b = vec![solid, inside];
    resolve_push(&mut p, ps, &mut b);
    assert_eq!(b[0], solid);
    assert_eq!(b[1], inside);
    assert_eq!(p.speed_scale, 125);
}

#[test]
fn resolving_twice_matches_resolving_once() {
    let ps = player_size_or_default(None);
    let mut p = player_at(60_300, 0);
    p.velocity = Vec3::new(1000, 0, 0);
    let mut b = vec![crate_at(100_000, 0), crate_at(-400_000, 0)];
    b[1].motion.velocity = Vec3::new(1000, 0, 0);
    resolve_push(&mut p, ps, &mut b);
    let (p1, b1) = (p, b.clone());
    resolve_push(&mut p, ps, &mut b);
    assert_eq!(p, p1);
    assert_eq!(b, b1);

    let mut m = player_at(60_000, -153_500);
    m.gravity = Vec3::zero();
    m.acceleration = Vec3::new(0, -1500, 0);
    let obs = vec![short_brick(0, -200_000), floor(), short_brick(60_000, -200_000)];
    resolve_ground(&mut m, ps, &obs);
    let once = m;
    resolve_ground(&mut m, ps, &obs);
    assert_eq!(m, once);
}

#[test]
fn input_keys_combine_and_cancel() {
    let k = HeldKeys { up: true, left: false, down: false, right: true };
    assert_eq!(input_velocity(&k), Vec3::new(1000, 1000, 0));
    let k = HeldKeys { up: true, left: true, down: true, right: false };
    assert_eq!(input_velocity(&k), Vec3::new(-1000, 0, 0));
    let k = HeldKeys { up: false, left: false, down: true, right: false };
    assert_eq!(input_velocity(&k), Vec3::new(0, -1000, 0));
}

#[test]
fn facing_follows_velocity_with_band() {
    let mut m = player_at(0, 0);
    m.velocity = Vec3::new(-101, 0, 0);
    m.update_facing();
    assert!(m.facing_left);
    m.velocity = Vec3::new(50, 0, 0);
    m.update_facing();
    assert!(m.facing_left);
    m.velocity = Vec3::new(101, 0, 0);
    m.update_facing();
    assert!(!m.facing_left);
    m.velocity = Vec3::new(-100, 0, 0);
    m.update_facing();
    assert!(!m.facing_left);
}

#[test]
fn animation_idle_only_at_rest() {
    let mut m = player_at(0, 0);
    assert_eq!(m.animation(), AnimState::Idle);
    m.velocity = Vec3::new(0, 0, 1);
    assert_eq!(m.animation(), AnimState::Moving);
}

#[test]
fn frame_with_held_jump_only() {
    let mut w = lone_player_world(player_at(0, 0), vec![]);
    w.jump_model = JumpModel::Held;
    let input = FrameInput { keys: no_keys(), jump_held: true, jump_pressed: true };
    w.step_frame(&input, 1_000_000);
    // (-1500 + 6000) * 125 = 562500
    assert_eq!(w.player.position.y, 562_500);
}

#[test]
fn frame_with_pressed_jump_only_ignores_held_thrust() {
    let mut w = lone_player_world(player_at(0, 0), vec![]);
    w.jump_model = JumpModel::Pressed;
    let input = FrameInput { keys: no_keys(), jump_held: true, jump_pressed: true };
    w.step_frame(&input, 1_000_000);
    assert_eq!(w.player.position.y, -187_500);
}

#[test]
fn frame_moves_pushed_crate_and_player() {
    let mut p = player_at(60_300, 0);
    p.velocity = Vec3::new(1000, 0, 0);
    p.gravity = Vec3::zero();
    let mut c = crate_at(100_000, 0);
    c.motion.gravity = Vec3::zero();
    let mut w = World {
        player: p,
        player_size: None,
        bodies: vec![c],
        obstacles: vec![],
        jump_model: JumpModel::Both,
    };
    let input = FrameInput {
        keys: HeldKeys { up: false, left: false, down: false, right: true },
        jump_held: false,
        jump_pressed: false,
    };
    w.step_frame(&input, 100_000);
    // both move at the pushing gait: 1000 * 70 * 0.1 = 7000
    assert_eq!(w.player.position.x, 60_300 + 7000);
    assert_eq!(w.bodies[0].motion.position.x, 107_000);
    assert_eq!(w.player.speed_scale, 70);
    assert_eq!(w.player.velocity, Vec3::new(1000, 0, 0));
    assert!(!w.player.facing_left);
}

fn block_at(x: i64, y: i64) -> Obstacle {
    Obstacle { position: Vec3::new(x, y, 0), size: None, kind: ObstacleKind::Brick }
}

#[test]
fn full_brick_blocks_player_side() {
    // block spans 67500..132500; player right edge at 67550
    let mut m = player_at(46_750, 0);
    m.velocity = Vec3::new(1000, 0, 0);
    let ps = player_size_or_default(None);
    assert_eq!(
        collide(m.position, ps, Vec3::new(100_000, 0, 0), Size2::new(65_000, 65_000)),
        Some(Collision::Left)
    );
    resolve_ground(&mut m, ps, &vec![block_at(100_000, 0)]);
    assert_eq!(m.velocity, Vec3::zero());

    // a short brick of the same size does not block
    let mut n = player_at(46_750, 0);
    n.velocity = Vec3::new(1000, 0, 0);
    let mut short = short_brick(100_000, 0);
    short.size = Some(Size2::new(65_000, 65_000));
    resolve_ground(&mut n, ps, &vec![short]);
    assert_eq!(n.velocity, Vec3::new(1000, 0, 0));
}

#[test]
fn full_brick_blocks_player_from_below() {
    // block bottom at 67500; player top at 67550
    let mut m = player_at(0, 41_950);
    m.velocity = Vec3::new(0, 1000, 0);
    m.acceleration = Vec3::new(0, 4000, 0);
    resolve_ground(&mut m, player_size_or_default(None), &vec![block_at(0, 100_000)]);
    assert_eq!(m.velocity, Vec3::zero());
    assert_eq!(m.acceleration.y, 4000);
}

#[test]
fn full_brick_top_grounds_player() {
    // block top at 32500; player bottom at 32450
    let mut m = player_at(0, 58_050);
    m.velocity = Vec3::new(1000, 0, 0);
    m.acceleration = Vec3::new(0, -1500, 0);
    resolve_ground(&mut m, player_size_or_default(None), &vec![block_at(0, 0)]);
    assert_eq!(m.acceleration.y, 0);
    assert_eq!(m.velocity, Vec3::new(1000, 0, 0));
}

#[test]
fn brick_stops_crate_and_player_behind_it() {
    // block spans -32500..32500; crate left edge at 32450
    let mut c = crate_at(51_450, 0);
    c.motion.velocity = Vec3::new(-1000, 0, 0);
    let mut bodies = vec![c];
    let mut p = player_at(90_000, 0);
    p.velocity = Vec3::new(-1000, 0, 0);
    resolve_body_bricks(&mut p, &mut bodies, &vec![block_at(0, 0)]);
    assert_eq!(bodies[0].motion.velocity, Vec3::zero());
    assert_eq!(p.velocity, Vec3::zero());

    // a player moving away is not stopped
    let mut bodies = vec![c];
    let mut q = player_at(90_000, 0);
    q.velocity = Vec3::new(1000, 0, 0);
    resolve_body_bricks(&mut q, &mut bodies, &vec![block_at(0, 0)]);
    assert_eq!(q.velocity, Vec3::new(1000, 0, 0));
    assert_eq!(bodies[0].motion.velocity, Vec3::zero());
}

#[test]
fn brick_stops_crate_left_of_it_without_stopping_player() {
    let mut c = crate_at(-51_450, 0);
    c.motion.velocity = Vec3::new(1000, 0, 0);
    let mut bodies = vec![c];
    let mut p = player_at(-90_000, 0);
    p.velocity = Vec3::new(-1000, 0, 0);
    resolve_body_bricks(&mut p, &mut bodies, &vec![block_at(0, 0)]);
    assert_eq!(bodies[0].motion.velocity, Vec3::zero());
    assert_eq!(p.velocity, Vec3::new(-1000, 0, 0));
}

#[test]
fn brick_stops_crate_vertically() {
    // crate bottom at 32450, resting on the block
    let mut c = crate_at(0, 51_450);
    c.motion.velocity = Vec3::new(7, -1000, 0);
    let mut bodies = vec![c];
    let mut p = player_at(500_000, 0);
    resolve_body_bricks(&mut p, &mut bodies, &vec![block_at(0, 0), short_brick(0, 0)]);
    assert_eq!(bodies[0].motion.velocity, Vec3::new(7, 0, 0));
}

#[test]
fn bricks_leave_solid_bodies_and_short_bricks_leave_crates() {
    let mut solid = crate_at(51_450, 0);
    solid.collider = Collider::Solid;
    solid.motion.velocity = Vec3::new(-1000, 0, 0);
    let mut c = crate_at(51_450, 0);
    c.motion.velocity = Vec3::new(-1000, 0, 0);
    let mut short = short_brick(0, 0);
    short.size = Some(Size2::new(65_000, 65_000));
    let mut bodies = vec![solid, c];
    let mut p = player_at(90_000, 0);
    p.velocity = Vec3::new(-1000, 0, 0);
    resolve_body_bricks(&mut p, &mut bodies, &vec![short]);
    assert_eq!(bodies[0], solid);
    assert_eq!(bodies[1], c);
    assert_eq!(p.velocity.x, -1000);
}

#[test]
fn brick_pass_twice_matches_once() {
    let mut c = crate_at(51_450, 0);
    c.motion.velocity = Vec3::new(-1000, 1000, 0);
    let mut bodies = vec![c, crate_at(0, 51_450)];
    let mut p = player_at(90_000, 0);
    p.velocity = Vec3::new(-1000, 0, 0);
    let obs = vec![block_at(0, 0)];
    resolve_body_bricks(&mut p, &mut bodies, &obs);
    let (p1, b1) = (p, bodies.clone());
    resolve_body_bricks(&mut p, &mut bodies, &obs);
    assert_eq!(p, p1);
    assert_eq!(bodies, b1);
}

#[test]
fn frame_stops_player_pushing_crate_into_brick() {
    let mut p = player_at(90_000, 0);
    p.gravity = Vec3::zero();
    p.velocity = Vec3::new(-1000, 0, 0);
    let mut c = crate_at(51_450, 0);
    c.motion.gravity = Vec3::zero();
    // player left edge at 69200 meets crate right edge at 70450
    let mut w = World {
        player: p,
        player_size: None,
        bodies: vec![c],
        obstacles: vec![block_at(0, 0)],
        jump_model: JumpModel::Both,
    };
    w.step_frame(&idle_input(), 100_000);
    assert_eq!(w.player.position.x, 90_000);
    assert_eq!(w.bodies[0].motion.position.x, 51_450);
    assert_eq!(w.player.speed_scale, 70);
}

#[test]
fn scene_limits_are_checked() {
    let w = World {
        player: player_at(100_000, 100_000),
        player_size: None,
        bodies: vec![crate_at(0, 0)],
        obstacles: vec![floor(), short_brick(0, -200_000)],
        jump_model: JumpModel::Both,
    };
    assert!(w.within_limits());

    let mut far = w.clone();
    far.player.position.x = 1_000_000_000_001;
    assert!(!far.within_limits());

    let mut fast = w.clone();
    fast.bodies[0].motion.velocity.y = -1_000_000_001;
    assert!(!fast.within_limits());

    let mut quick = w.clone();
    quick.player.speed_scale = 1_000_001;
    assert!(!quick.within_limits());

    let mut edge = w.clone();
    edge.player.acceleration = Vec3::new(-1_000_000_000_000, 0, 1_000_000_000_000);
    assert!(edge.within_limits());
}
