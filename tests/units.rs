use space_arcade::asteroids::{asteroid_body, SpawnTimer, ASTEROID_HEALTH, ASTEROID_RADIUS};
use space_arcade::collision::damage_of;
use space_arcade::entity::Body;
use space_arcade::health::{CollisionDamage, Health};
use space_arcade::spaceship::{
    missile_body, movement_intent, scale_direction, spaceship_body, turn_angles, Keys,
    MISSILE_HEALTH,
};
use space_arcade::state::{next_state, GameState, StateEvent};
use space_arcade::vec3::{distance_sq, Vec3i, UNIT};
use space_arcade::world::World;

fn keys() -> Keys {
    Keys {
        w: false,
        a: false,
        s: false,
        r: false,
        q: false,
        f: false,
        space: false,
        tab: false,
        space_just_pressed: false,
        escape_just_pressed: false,
    }
}

#[test]
fn opposing_keys_resolve_to_first() {
    let mut k = keys();
    k.s = true;
    k.a = true;
    k.r = true;
    k.w = true;
    k.q = true;
    k.f = true;
    let s = movement_intent(&k);
    assert_eq!((s.yaw, s.thrust, s.roll), (-1, -25, -1));
    let mut k = keys();
    k.a = true;
    k.w = true;
    k.f = true;
    let s = movement_intent(&k);
    assert_eq!((s.yaw, s.thrust, s.roll), (1, 25, 1));
    let s = movement_intent(&keys());
    assert_eq!((s.yaw, s.thrust, s.roll), (0, 0, 0));
}

#[test]
fn thrust_sets_velocity_along_backward_axis() {
    let mut world = World::new();
    let mut k = keys();
    k.w = true;
    world.spaceship_movement_controls(&k, &Vec3i::new(0, 600, -800));
    assert_eq!(world.bodies[0].velocity, Some(Vec3i::new(0, -15_000, 20_000)));
    world.spaceship_movement_controls(&keys(), &Vec3i::new(0, 600, -800));
    assert_eq!(world.bodies[0].velocity, Some(Vec3i::new(0, 0, 0)));
}

#[test]
fn weapon_spawns_missile_ahead() {
    let mut world = World::new();
    let mut k = keys();
    world.spaceship_weapon_controls(&k, &Vec3i::new(0, 0, -1000));
    assert_eq!(world.bodies.len(), 1);
    k.space = true;
    world.spaceship_weapon_controls(&k, &Vec3i::new(0, 0, -1000));
    assert_eq!(world.bodies.len(), 2);
    let m = world.bodies[1];
    assert_eq!(m.id, 1);
    assert!(m.missile.is_some());
    assert_eq!(m.position, Vec3i::new(0, 0, -20 * UNIT + 10 * UNIT));
    assert_eq!(m.velocity, Some(Vec3i::new(0, 0, 50_000)));
    assert_eq!(m.health, Some(Health::new(MISSILE_HEALTH)));
    assert_eq!(world.next_id, 2);
}

#[test]
fn shield_attaches_while_tab_held() {
    let mut world = World::new();
    world.spaceship_shield_controls(&keys());
    assert!(world.bodies[0].shield.is_none());
    let mut k = keys();
    k.tab = true;
    world.spaceship_shield_controls(&k);
    world.spaceship_shield_controls(&k);
    assert!(world.bodies[0].shield.is_some());
}

#[test]
fn destroyed_when_no_ship() {
    let mut world = World::new();
    assert!(!world.spaceship_destroyed());
    assert_eq!(world.ship_index(), Some(0));
    world.bodies.clear();
    assert!(world.spaceship_destroyed());
    assert_eq!(world.ship_index(), None);
}

#[test]
fn state_machine_transitions() {
    assert_eq!(next_state(GameState::InPlay, StateEvent::Escape), GameState::Paused);
    assert_eq!(next_state(GameState::Paused, StateEvent::Escape), GameState::InPlay);
    assert_eq!(next_state(GameState::InPlay, StateEvent::ShipLost), GameState::GameOver);
    assert_eq!(next_state(GameState::GameOver, StateEvent::Restart), GameState::InPlay);
    assert_eq!(next_state(GameState::Paused, StateEvent::ShipLost), GameState::Paused);
    assert_eq!(next_state(GameState::GameOver, StateEvent::Escape), GameState::GameOver);
    assert_eq!(next_state(GameState::InPlay, StateEvent::Restart), GameState::InPlay);
}

#[test]
fn spawn_timer_fires_each_period() {
    let mut t = SpawnTimer::new(1000);
    assert!(!t.tick(400));
    assert!(!t.tick(500));
    assert!(t.tick(300));
    assert_eq!(t.elapsed, 200);
    assert!(t.tick(800));
    assert_eq!(t.elapsed, 0);
}

#[test]
fn health_and_damage_basics() {
    let mut h = Health::new(10);
    assert!(!h.is_dead());
    h.apply(4);
    assert_eq!(h.value, 6);
    h.apply(6);
    assert!(h.is_dead());
    assert_eq!(CollisionDamage::new(3).amount, 3);
}

#[test]
fn damage_lookup_by_id() {
    let mut a = Body::at(4, Vec3i::zero());
    a.damage = Some(CollisionDamage::new(9));
    let b = Body::at(5, Vec3i::zero());
    let bodies = vec![a, b];
    assert_eq!(damage_of(&bodies, 4), 9);
    assert_eq!(damage_of(&bodies, 5), 0);
    assert_eq!(damage_of(&bodies, 6), 0);
}

#[test]
fn squared_distance_and_scaling() {
    assert_eq!(distance_sq(&Vec3i::new(1, 2, 3), &Vec3i::new(4, 6, 3)), 25);
    assert_eq!(scale_direction(&Vec3i::new(1000, -500, 0), -3), Vec3i::new(-3000, 1500, 0));
}

#[test]
fn spawned_bodies_carry_their_components() {
    let s = spaceship_body(3);
    assert_eq!(s.position, Vec3i::new(0, 0, -20 * UNIT));
    assert_eq!(s.collider.unwrap().radius, 7_500_000);
    let a = asteroid_body(Vec3i::new(1, 2, 3), Vec3i::new(4, 5, 6));
    assert_eq!(a.health.unwrap().value, ASTEROID_HEALTH);
    assert_eq!(a.collider.unwrap().radius, ASTEROID_RADIUS);
    let m = missile_body(9, Vec3i::new(1, 1, 1), &Vec3i::new(1000, 0, 0));
    assert_eq!(m.velocity, Some(Vec3i::new(-50_000, 0, 0)));
    assert_eq!(m.id, 9);
}

#[test]
fn spawn_assigns_fresh_ids() {
    let mut world = World::new();
    let a = world.spawn(asteroid_body(Vec3i::zero(), Vec3i::zero()));
    let b = world.spawn(asteroid_body(Vec3i::zero(), Vec3i::zero()));
    assert_eq!((a, b), (Some(1), Some(2)));
    assert_eq!(world.bodies[2].id, 2);
}

#[test]
fn integration_phase_refuses_overflow() {
    let mut world = World::new();
    let mut b = Body::at(0, Vec3i::new(0x1000_0000_0000_0000 - 5, 0, 0));
    b.velocity = Some(Vec3i::new(1, 0, 0));
    world.spawn(b);
    assert!(!world.integration_phase(10));
    assert_eq!(world.bodies[1].position.x, 0x1000_0000_0000_0000 - 5);
    assert!(world.integration_phase(5));
    assert_eq!(world.bodies[1].position.x, 0x1000_0000_0000_0000);
}

#[test]
fn turn_angles_scale_with_frame_time() {
    let mut k = keys();
    k.s = true;
    k.a = true;
    k.f = true;
    let t = turn_angles(&k, 16);
    assert_eq!((t.yaw, t.roll), (-40_000, 40_000));
    let mut k = keys();
    k.a = true;
    k.q = true;
    let t = turn_angles(&k, 100);
    assert_eq!((t.yaw, t.roll), (250_000, -250_000));
    let t = turn_angles(&keys(), 100);
    assert_eq!((t.yaw, t.roll), (0, 0));
}

#[test]
fn frame_moves_ship_and_fires_along_turned_axis() {
    let mut world = World::new();
    let mut k = keys();
    k.w = true;
    k.space = true;
    let forward = Vec3i::new(1000, 0, 0);
    world.run_frame(&k, &forward, 100);
    assert_eq!(world.state, GameState::InPlay);
    assert_eq!(world.next_id, 2);
    let ship = world.bodies[0];
    assert_eq!(ship.velocity, Some(Vec3i::new(-25_000, 0, 0)));
    assert_eq!(ship.position, Vec3i::new(-2_500_000, 0, -20 * UNIT));
    let missile = world.bodies[1];
    assert_eq!(missile.velocity, Some(Vec3i::new(-50_000, 0, 0)));
    assert_eq!(missile.position, Vec3i::new(-10 * UNIT - 5 * UNIT, 0, -20 * UNIT));
}
