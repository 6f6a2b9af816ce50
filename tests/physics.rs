use bevy_xpbd::{
    cross_pair_list, fit, floor_div, isqrt, solve_pair_pos, solve_pair_vel,
    solve_static_pair_vel, unique_pair_list, CircleCollider, Gravity, Mass, ParticleBundle, Pos,
    Restitution, SimError, StaticColliderBundle, Vec2, XPBDPlugin, COORD_LIMIT,
};

fn world() -> XPBDPlugin {
    let mut w = XPBDPlugin::new(16667).unwrap();
    w.set_gravity(Vec2::new(0, 0)).unwrap();
    w
}

fn body(x: i64, y: i64, vx: i64, vy: i64) -> ParticleBundle {
    ParticleBundle::new_with_pos_and_vel(Vec2::new(x, y), Vec2::new(vx, vy))
}

fn obstacle(x: i64, y: i64, restitution: u16) -> StaticColliderBundle {
    StaticColliderBundle {
        pos: Pos(Vec2::new(x, y)),
        collider: CircleCollider { radius: 500000 },
        restitution: Restitution(restitution),
    }
}

#[test]
fn elastic_pair_swaps_velocities() {
    let mut w = world();
    let mut a = body(-490000, 0, 10000, 0);
    let mut b = body(490000, 0, -10000, 0);
    a.restitution = Restitution(1000);
    b.restitution = Restitution(1000);
    w.spawn(a).unwrap();
    w.spawn(b).unwrap();
    w.step();
    assert_eq!(w.contacts.0, vec![(0, 1)]);
    assert_eq!(w.particles[0].vel.0, Vec2::new(-10000, 0));
    assert_eq!(w.particles[1].vel.0, Vec2::new(10000, 0));
    let gap = w.particles[1].pos.0.x - w.particles[0].pos.0.x;
    assert_eq!(gap, 1000000);
}

#[test]
fn inelastic_pair_equal_normal_velocity() {
    let mut w = world();
    let mut a = body(-490000, 0, 10000, 0);
    let mut b = body(490000, 0, -10000, 0);
    a.restitution = Restitution(0);
    b.restitution = Restitution(0);
    w.spawn(a).unwrap();
    w.spawn(b).unwrap();
    w.step();
    assert_eq!(w.particles[0].vel.0.x, w.particles[1].vel.0.x);
    assert_eq!(w.particles[0].vel.0.x, 0);
}

#[test]
fn inelastic_pair_direct_solver() {
    let mut a = body(0, 0, 300, 0);
    let mut b = body(1000000, 0, -100, 0);
    a.restitution = Restitution(0);
    b.restitution = Restitution(0);
    a.pre_solve_vel.0 = Vec2::new(700, 0);
    b.pre_solve_vel.0 = Vec2::new(-500, 0);
    let (na, nb) = solve_pair_vel(a, b);
    assert_eq!(na.vel.0.x, nb.vel.0.x);
    assert_eq!(na.vel.0.x, 100);
}

#[test]
fn static_floor_rest_settles() {
    let mut w = XPBDPlugin::new(16667).unwrap();
    w.add_static(obstacle(0, 0, 300)).unwrap();
    w.spawn(body(0, 1000000, 0, 0)).unwrap();
    let mut last_vel = i64::MAX;
    for tick in 0..600 {
        w.step();
        let p = w.particles[0];
        let penetration = 1000000 - p.pos.0.y;
        assert!(penetration <= 0, "penetration {} at tick {}", penetration, tick);
        assert!(p.pos.0.y <= 1000000 + 2725);
        assert!(p.vel.0.y.abs() <= 2725);
        assert_eq!(p.pos.0.x, 0);
        if tick >= 300 {
            assert!(p.vel.0.y.abs() <= last_vel.abs() + 1);
        }
        last_vel = p.vel.0.y;
    }
    assert_eq!(w.static_contacts.0, vec![(0, 0)]);
}

#[test]
fn mass_weighted_correction_three_to_one() {
    let mut w = world();
    let a = body(0, 0, 0, 0);
    let mut b = body(960000, 0, 0, 0);
    b.mass = Mass(3);
    w.spawn(a).unwrap();
    w.spawn(b).unwrap();
    w.solve_pos();
    let da = 0 - w.particles[0].pos.0.x;
    let db = w.particles[1].pos.0.x - 960000;
    assert_eq!(da, 30000);
    assert_eq!(db, 10000);
    assert_eq!(da, 3 * db);
}

#[test]
fn mass_weighted_correction_direct() {
    let mut a = body(1000, 2000, 0, 0);
    let mut b = body(1000, 962000, 0, 0);
    a.mass = Mass(5);
    b.mass = Mass(15);
    let (na, nb, hit) = solve_pair_pos(a, b);
    assert!(hit);
    assert_eq!(2000 - na.pos.0.y, 3 * (nb.pos.0.y - 962000));
    assert_eq!(na.pos.0.x, 1000);
    assert_eq!(nb.pos.0.x, 1000);
}

#[test]
fn no_overlap_is_noop() {
    let mut w = world();
    w.add_static(obstacle(0, -5000000, 300)).unwrap();
    w.spawn(body(0, 0, 100, -50)).unwrap();
    w.spawn(body(3000000, 0, -100, 50)).unwrap();
    w.step();
    assert!(w.contacts.0.is_empty());
    assert!(w.static_contacts.0.is_empty());
    assert_eq!(w.particles[0].pos.0, Vec2::new(100, -50));
    assert_eq!(w.particles[1].pos.0, Vec2::new(2999900, 50));
    assert_eq!(w.particles[0].vel.0, Vec2::new(100, -50));
    assert_eq!(w.particles[1].vel.0, Vec2::new(-100, 50));
}

#[test]
fn combined_restitution_is_mean() {
    let mut w = world();
    w.add_static(obstacle(0, 0, 800)).unwrap();
    let mut p = body(0, 990000, 0, -20000);
    p.restitution = Restitution(200);
    w.spawn(p).unwrap();
    w.step();
    let q = w.particles[0];
    assert_eq!(q.pre_solve_vel.0.y, -20000);
    assert_eq!(q.vel.0.y, 10000);
    assert_eq!(2 * q.vel.0.y, -q.pre_solve_vel.0.y);
    assert_eq!(q.pos.0.y, 1000000);
}

#[test]
fn combined_restitution_direct() {
    let mut p = body(0, 1000000, 0, 0);
    p.restitution = Restitution(200);
    p.pre_solve_vel.0 = Vec2::new(0, -4000);
    let q = solve_static_pair_vel(p, &obstacle(0, 0, 800));
    assert_eq!(q.vel.0.y, 2000);
    assert_eq!(q.vel.0.x, 0);
}

#[test]
fn coincident_bodies_are_skipped() {
    let a = body(100, 100, 0, 0);
    let b = body(100, 100, 0, 0);
    let (na, nb, hit) = solve_pair_pos(a, b);
    assert!(!hit);
    assert_eq!(na.pos.0, Vec2::new(100, 100));
    assert_eq!(nb.pos.0, Vec2::new(100, 100));
}

#[test]
fn integrate_applies_gravity() {
    let mut w = XPBDPlugin::new(10).unwrap();
    w.spawn(body(0, 0, 5, 0)).unwrap();
    w.integrate();
    let p = w.particles[0];
    assert_eq!(p.prev_pos.0, Vec2::new(0, 0));
    assert_eq!(p.vel.0, Vec2::new(5, -2725));
    assert_eq!(p.pos.0, Vec2::new(5, -2725));
    assert_eq!(p.pre_solve_vel.0, Vec2::new(5, -2725));
}

#[test]
fn update_vel_from_displacement() {
    let mut w = world();
    let mut p = body(40, 70, 0, 0);
    p.prev_pos.0 = Vec2::new(10, 100);
    w.spawn(p).unwrap();
    w.update_vel();
    assert_eq!(w.particles[0].vel.0, Vec2::new(30, -30));
}

#[test]
fn advance_runs_whole_ticks() {
    let mut w = XPBDPlugin::new(100).unwrap();
    w.set_gravity(Vec2::new(0, 0)).unwrap();
    w.spawn(body(0, 0, 7, 0)).unwrap();
    assert_eq!(w.advance(250), 2);
    assert_eq!(w.accumulated_time, 50);
    assert_eq!(w.particles[0].pos.0, Vec2::new(14, 0));
    assert_eq!(w.advance(49), 0);
    assert_eq!(w.accumulated_time, 99);
    assert_eq!(w.advance(1), 1);
    assert_eq!(w.accumulated_time, 0);
    assert_eq!(w.particles[0].pos.0, Vec2::new(21, 0));
}

#[test]
fn advance_huge_elapsed() {
    let mut w = XPBDPlugin::new(u64::MAX).unwrap();
    assert_eq!(w.advance(u64::MAX - 1), 0);
    assert_eq!(w.accumulated_time, u64::MAX - 1);
}

#[test]
fn new_rejects_zero_tick() {
    assert_eq!(XPBDPlugin::new(0).err(), Some(SimError::InvalidTickLength));
    let w = XPBDPlugin::new(1).unwrap();
    assert_eq!(w.gravity.0, Vec2::new(0, -2725));
    assert!(w.particles.is_empty());
}

#[test]
fn spawn_rejects_invalid_bodies() {
    let mut w = world();
    let mut p = body(0, 0, 0, 0);
    p.mass = Mass(0);
    assert_eq!(w.spawn(p), Err(SimError::InvalidMass));
    let mut p = body(0, 0, 0, 0);
    p.collider = CircleCollider { radius: (COORD_LIMIT as u32) + 1 };
    assert_eq!(w.spawn(p), Err(SimError::InvalidRadius));
    let p = body(COORD_LIMIT + 1, 0, 0, 0);
    assert_eq!(w.spawn(p), Err(SimError::OutOfRange));
    assert!(w.particles.is_empty());
    assert_eq!(w.spawn(body(1, 2, 0, 0)), Ok(0));
    assert_eq!(w.spawn(body(3, 4, 0, 0)), Ok(1));
}

#[test]
fn add_static_rejects_invalid() {
    let mut w = world();
    let mut s = obstacle(0, 0, 0);
    s.collider.radius = u32::MAX;
    assert_eq!(w.add_static(s), Err(SimError::InvalidRadius));
    assert_eq!(w.add_static(obstacle(-COORD_LIMIT - 1, 0, 0)), Err(SimError::OutOfRange));
    assert_eq!(w.add_static(obstacle(0, 0, 0)), Ok(0));
}

#[test]
fn set_gravity_rejects_out_of_range() {
    let mut w = world();
    assert_eq!(w.set_gravity(Vec2::new(0, i64::MIN)), Err(SimError::OutOfRange));
    assert_eq!(w.gravity.0, Vec2::new(0, 0));
    assert_eq!(w.set_gravity(Vec2::new(1, -3)), Ok(()));
    assert_eq!(w.gravity.0, Vec2::new(1, -3));
}

#[test]
fn despawn_removes_and_shifts() {
    let mut w = world();
    w.spawn(body(1, 0, 0, 0)).unwrap();
    w.spawn(body(2, 0, 0, 0)).unwrap();
    w.spawn(body(3, 0, 0, 0)).unwrap();
    assert!(w.despawn(7).is_none());
    let gone = w.despawn(1).unwrap();
    assert_eq!(gone.pos.0, Vec2::new(2, 0));
    let poses = w.poses();
    assert_eq!(poses, vec![(0, Vec2::new(1, 0)), (1, Vec2::new(3, 0))]);
}

#[test]
fn new_with_pos_and_vel_sets_previous() {
    let p = body(100, 200, 30, -40);
    assert_eq!(p.prev_pos.0, Vec2::new(70, 240));
    assert_eq!(p.mass.0, 1);
    assert_eq!(p.collider.radius, 500000);
    assert_eq!(p.restitution.0, 300);
    let q = body(-COORD_LIMIT, 0, COORD_LIMIT, 0);
    assert_eq!(q.prev_pos.0.x, -COORD_LIMIT);
}

#[test]
fn defaults() {
    assert_eq!(Mass::default().0, 1);
    assert_eq!(Restitution::default().0, 300);
    assert_eq!(CircleCollider::default().radius, 500000);
    assert_eq!(Gravity::default().0, Vec2::new(0, -2725));
}

#[test]
fn pair_lists_in_order() {
    assert_eq!(unique_pair_list(3), vec![(0, 1), (0, 2), (1, 2)]);
    assert!(unique_pair_list(1).is_empty());
    assert!(unique_pair_list(0).is_empty());
    assert_eq!(cross_pair_list(2, 2), vec![(0, 0), (0, 1), (1, 0), (1, 1)]);
    assert!(cross_pair_list(3, 0).is_empty());
}

#[test]
fn fixed_point_helpers() {
    assert_eq!(isqrt(0), 0);
    assert_eq!(isqrt(15), 3);
    assert_eq!(isqrt(16), 4);
    assert_eq!(isqrt(u64::MAX as u128), 4294967295);
    assert_eq!(isqrt(u128::MAX), u64::MAX as u128);
    assert_eq!(floor_div(7, 2), 3);
    assert_eq!(floor_div(-7, 2), -4);
    assert_eq!(floor_div(-8, 2), -4);
    assert_eq!(fit(1 << 40), COORD_LIMIT);
    assert_eq!(fit(-(1 << 40)), -COORD_LIMIT);
    assert_eq!(fit(-12), -12);
}

#[test]
fn diagonal_overlap_projects_along_normal() {
    let a = body(0, 0, 0, 0);
    let b = body(300000, 400000, 0, 0);
    let (na, nb, hit) = solve_pair_pos(a, b);
    assert!(hit);
    assert_eq!(na.pos.0, Vec2::new(-150000, -200000));
    assert_eq!(nb.pos.0, Vec2::new(450000, 600000));
}

#[test]
fn close_pair_projects_to_contact_distance() {
    let a = body(0, 0, 0, 0);
    let b = body(1, 1, 0, 0);
    let (na, nb, hit) = solve_pair_pos(a, b);
    assert!(hit);
    let dx = (nb.pos.0.x - na.pos.0.x) as f64;
    let dy = (nb.pos.0.y - na.pos.0.y) as f64;
    let dist = (dx * dx + dy * dy).sqrt();
    assert!((dist - 1000000.0).abs() <= 2.0, "distance {}", dist);
}

#[test]
fn pair_velocity_skips_coincident() {
    let a = body(5, 5, 10, 0);
    let b = body(5, 5, -10, 0);
    let (na, nb) = solve_pair_vel(a, b);
    assert_eq!(na.vel.0, Vec2::new(10, 0));
    assert_eq!(nb.vel.0, Vec2::new(-10, 0));
}

#[test]
fn unequal_pair_ends_touching() {
    let mut a = body(0, 0, 0, 0);
    let mut b = body(970001, 0, 0, 0);
    a.mass = Mass(2);
    b.mass = Mass(5);
    let (na, nb, hit) = solve_pair_pos(a, b);
    assert!(hit);
    assert_eq!(nb.pos.0.x - na.pos.0.x, 1000000);
    assert_eq!(nb.pos.0.x, 978572);
    assert_eq!(na.pos.0.x, -21428);
}

#[test]
fn elastic_pair_direct_swap() {
    let mut a = body(0, 0, 500, 0);
    let mut b = body(1000000, 0, -500, 0);
    a.mass = Mass(4);
    b.mass = Mass(4);
    a.restitution = Restitution(1000);
    b.restitution = Restitution(1000);
    a.pre_solve_vel.0 = a.vel.0;
    b.pre_solve_vel.0 = b.vel.0;
    let (na, nb) = solve_pair_vel(a, b);
    assert_eq!(na.vel.0, Vec2::new(-500, 0));
    assert_eq!(nb.vel.0, Vec2::new(500, 0));
}

#[test]
fn static_projection_from_below() {
    let mut w = world();
    w.add_static(obstacle(0, 0, 300)).unwrap();
    let mut p = body(0, -600000, 0, 0);
    p.collider.radius = 200000;
    w.spawn(p).unwrap();
    w.solve_static_pos();
    assert_eq!(w.particles[0].pos.0, Vec2::new(0, -700000));
    assert_eq!(w.static_contacts.0, vec![(0, 0)]);
}

#[test]
fn contacts_found_before_projection() {
    let mut w = world();
    w.spawn(body(0, 0, 0, 0)).unwrap();
    w.spawn(body(900000, 0, 0, 0)).unwrap();
    w.spawn(body(1900000, 0, 0, 0)).unwrap();
    w.solve_pos();
    assert_eq!(w.contacts.0, vec![(0, 1)]);
    assert_eq!(w.particles[2].pos.0, Vec2::new(1900000, 0));
    assert_eq!(w.particles[0].pos.0, Vec2::new(-50000, 0));
    assert_eq!(w.particles[1].pos.0, Vec2::new(950000, 0));
}

#[test]
fn separated_contact_stays_listed() {
    let mut w = world();
    w.spawn(body(0, 0, 0, 0)).unwrap();
    w.spawn(body(200000, 0, 0, 0)).unwrap();
    w.spawn(body(0, -990000, 0, 0)).unwrap();
    w.solve_pos();
    assert_eq!(w.contacts.0, vec![(0, 1), (0, 2)]);
    assert_eq!(w.particles[0].pos.0, Vec2::new(-400000, 0));
    assert_eq!(w.particles[1].pos.0, Vec2::new(600000, 0));
    assert_eq!(w.particles[2].pos.0, Vec2::new(0, -990000));
}

#[test]
fn pair_momentum_within_rounding() {
    let mut a = body(0, 0, 1234, -77);
    let mut b = body(600000, 700000, -4321, 99);
    a.mass = Mass(3);
    b.mass = Mass(7);
    a.restitution = Restitution(450);
    b.restitution = Restitution(900);
    a.pre_solve_vel.0 = Vec2::new(1500, -100);
    b.pre_solve_vel.0 = Vec2::new(-4000, 150);
    let (na, nb) = solve_pair_vel(a, b);
    let px = 3 * (na.vel.0.x - a.vel.0.x) + 7 * (nb.vel.0.x - b.vel.0.x);
    let py = 3 * (na.vel.0.y - a.vel.0.y) + 7 * (nb.vel.0.y - b.vel.0.y);
    assert!((0..10).contains(&px), "{}", px);
    assert!((0..10).contains(&py), "{}", py);
    assert_ne!(na.vel.0, a.vel.0);
}

#[test]
fn new_succeeds_for_positive_tick() {
    let w = XPBDPlugin::new(16667).unwrap();
    assert!(w.contacts.0.is_empty());
    assert!(w.static_contacts.0.is_empty());
    assert_eq!(w.tick_length, 16667);
    assert_eq!(w.accumulated_time, 0);
}

#[test]
fn advance_keeps_last_tick_contacts() {
    let mut w = XPBDPlugin::new(10).unwrap();
    w.set_gravity(Vec2::new(0, 0)).unwrap();
    w.spawn(body(0, 0, 0, 0)).unwrap();
    w.spawn(body(900000, 0, 0, 0)).unwrap();
    assert_eq!(w.advance(5), 0);
    assert!(w.contacts.0.is_empty());
    assert_eq!(w.advance(5), 1);
    assert_eq!(w.contacts.0, vec![(0, 1)]);
}
