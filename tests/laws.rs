use space_arcade::collision::{apply_collision_damage, colliding, detect_collisions};
use space_arcade::despawn::{despawn_dead_entities, despawn_far_away_entities};
use space_arcade::entity::{Asteroid, Body, Collider};
use space_arcade::health::{CollisionDamage, Health};
use space_arcade::kinematics::integrate;
use space_arcade::spaceship::{Keys, Spaceship, SpaceshipShield};
use space_arcade::state::GameState;
use space_arcade::vec3::{Vec3i, UNIT};
use space_arcade::world::World;

fn rock(id: u64, x: i64, radius: i64, health: i64, damage: i64) -> Body {
    let mut b = Body::at(id, Vec3i::new(x, 0, 0));
    b.collider = Some(Collider::new(radius));
    b.health = Some(Health::new(health));
    b.damage = Some(CollisionDamage::new(damage));
    b.asteroid = Some(Asteroid);
    b
}

#[test]
fn dead_bodies_are_reaped() {
    let bodies = vec![rock(1, 0, UNIT, 0, 1), rock(2, 0, UNIT, 5, 1), rock(3, 0, UNIT, -4, 1)];
    let alive = despawn_dead_entities(&bodies);
    assert_eq!(alive.len(), 1);
    assert_eq!(alive[0].id, 2);
}

#[test]
fn at_most_one_ship_through_frames() {
    let mut world = World::new();
    let mut keys = Keys {
        w: true,
        a: false,
        s: false,
        r: false,
        q: false,
        f: false,
        space: true,
        tab: true,
        space_just_pressed: true,
        escape_just_pressed: false,
    };
    for _ in 0..30 {
        world.run_frame(&keys, &Vec3i::new(0, 0, -1000), 16);
        let ships = world.bodies.iter().filter(|b| b.spaceship.is_some()).count();
        assert!(ships <= 1);
    }
    keys.space = false;
    world.run_frame(&keys, &Vec3i::new(0, 0, -1000), 16);
    assert_eq!(world.bodies.iter().filter(|b| b.spaceship.is_some()).count(), 1);
}

#[test]
fn far_bodies_are_reaped_but_not_the_ship() {
    let mut ship = Body::at(1, Vec3i::new(200 * UNIT, 0, 0));
    ship.spaceship = Some(Spaceship);
    let far = Body::at(2, Vec3i::new(0, 100 * UNIT + 1, 0));
    let edge = Body::at(3, Vec3i::new(0, 0, -100 * UNIT));
    let near = Body::at(4, Vec3i::new(60 * UNIT, 0, 70 * UNIT));
    let diagonal = Body::at(5, Vec3i::new(60 * UNIT, 60 * UNIT, 60 * UNIT));
    let kept = despawn_far_away_entities(&vec![ship, far, edge, near, diagonal]);
    let ids: Vec<u64> = kept.iter().map(|b| b.id).collect();
    assert_eq!(ids, vec![1, 3, 4]);
}

#[test]
fn overlapping_pairs_see_each_other() {
    let bodies = vec![
        rock(1, 0, 2 * UNIT, 10, 1),
        rock(2, 3 * UNIT, 2 * UNIT, 10, 1),
        rock(3, 6 * UNIT + UNIT / 2, 2 * UNIT, 10, 1),
        Body::at(4, Vec3i::new(0, 0, 0)),
    ];
    let hits = detect_collisions(&bodies);
    assert_eq!(hits, vec![vec![2], vec![1, 3], vec![2], vec![]]);
    assert!(!colliding(&bodies[0], &bodies[2]));
    let touching = rock(5, 4 * UNIT, 2 * UNIT, 10, 1);
    assert!(!colliding(&bodies[0], &touching));
}

#[test]
fn pair_damage_is_exchanged() {
    let bodies = vec![rock(1, 0, 2 * UNIT, 10, 3), rock(2, UNIT, 2 * UNIT, 20, 7)];
    let hits = detect_collisions(&bodies);
    let after = apply_collision_damage(&bodies, &hits);
    assert_eq!(after[0].health.unwrap().value, 10 - 7);
    assert_eq!(after[1].health.unwrap().value, 20 - 3);
    let swapped = vec![bodies[1], bodies[0]];
    let hits = detect_collisions(&swapped);
    let after = apply_collision_damage(&swapped, &hits);
    assert_eq!(after[0].health.unwrap().value, 20 - 3);
    assert_eq!(after[1].health.unwrap().value, 10 - 7);
}

#[test]
fn shielded_ship_health_never_drops() {
    let mut ship = rock(1, 0, 2 * UNIT, 10, 5);
    ship.asteroid = None;
    ship.spaceship = Some(Spaceship);
    ship.shield = Some(SpaceshipShield);
    let bodies = vec![ship, rock(2, 0, 2 * UNIT, 80, 35), rock(3, UNIT, 2 * UNIT, 80, 35)];
    let hits = detect_collisions(&bodies);
    let after = apply_collision_damage(&bodies, &hits);
    assert_eq!(after[0].health.unwrap().value, 10);
    assert_eq!(after[1].health.unwrap().value, 80 - 5 - 35);
}

#[test]
fn uniform_motion_over_many_steps() {
    let mut b = Body::at(1, Vec3i::new(3, -4, 5));
    b.velocity = Some(Vec3i::new(7, -11, 13));
    b.acceleration = Some(Vec3i::new(0, 0, 0));
    let mut bodies = vec![b];
    for _ in 0..25 {
        bodies = integrate(&bodies, 40);
    }
    assert_eq!(bodies[0].position, Vec3i::new(3 + 7 * 25 * 40, -4 - 11 * 25 * 40, 5 + 13 * 25 * 40));
    assert_eq!(bodies[0].velocity, Some(Vec3i::new(7, -11, 13)));
}

#[test]
fn acceleration_changes_velocity_after_position() {
    let mut b = Body::at(1, Vec3i::new(0, 0, 0));
    b.velocity = Some(Vec3i::new(10, 0, 0));
    b.acceleration = Some(Vec3i::new(1, 0, 0));
    let moved = integrate(&vec![b], 100);
    assert_eq!(moved[0].position, Vec3i::new(1000, 0, 0));
    assert_eq!(moved[0].velocity, Some(Vec3i::new(110, 0, 0)));
    let _ = GameState::InPlay;
}
