use space_arcade::asteroids::asteroid_body;
use space_arcade::entity::{Asteroid, Body, Collider};
use space_arcade::health::{CollisionDamage, Health};
use space_arcade::spaceship::{Keys, SpaceshipMissile, SpaceshipShield, SPACESHIP_HEALTH};
use space_arcade::state::GameState;
use space_arcade::vec3::{Vec3i, UNIT};
use space_arcade::world::World;

const DT_MS: u32 = 100;

fn no_keys() -> Keys {
    Keys {
        w: false,
        a: false,
        s: false,
        r: false,
        q: false,
        f: false,
        space: false,
        tab: false,
        space_just_pressed: false,
        escape_just_pressed: false,
    }
}

fn forward() -> Vec3i {
    Vec3i::new(0, 0, -1000)
}

fn find(world: &World, id: u64) -> Option<Body> {
    world.bodies.iter().copied().find(|b| b.id == id)
}

fn ship(world: &World) -> Option<Body> {
    world.bodies.iter().copied().find(|b| b.spaceship.is_some())
}

#[test]
fn missile_kills_asteroid() {
    let mut world = World::new();
    let mut asteroid = Body::at(0, Vec3i::new(0, 0, 0));
    asteroid.collider = Some(Collider::new(2 * UNIT));
    asteroid.health = Some(Health::new(1));
    asteroid.damage = Some(CollisionDamage::new(1));
    asteroid.asteroid = Some(Asteroid);
    let a = world.spawn(asteroid).unwrap();
    let mut missile = Body::at(0, Vec3i::new(0, 0, -2 * UNIT));
    missile.velocity = Some(Vec3i::new(0, 0, 1000));
    missile.collider = Some(Collider::new(UNIT / 2));
    missile.health = Some(Health::new(1));
    missile.damage = Some(CollisionDamage::new(1));
    missile.missile = Some(SpaceshipMissile);
    let m = world.spawn(missile).unwrap();
    for _ in 0..3 {
        world.run_frame(&no_keys(), &forward(), DT_MS);
    }
    assert!(find(&world, a).is_none());
    assert!(find(&world, m).is_none());
    for _ in 3..10 {
        world.run_frame(&no_keys(), &forward(), DT_MS);
    }
    assert_eq!(world.state, GameState::InPlay);
    assert!(ship(&world).is_some());
}

#[test]
fn distance_reap_after_crossing_bound() {
    let mut world = World::new();
    let mut drifter = Body::at(0, Vec3i::new(0, 0, 0));
    drifter.velocity = Some(Vec3i::new(0, 0, 50_000));
    let id = world.spawn(drifter).unwrap();
    for _ in 0..21 {
        world.run_frame(&no_keys(), &forward(), DT_MS);
    }
    assert_eq!(find(&world, id).unwrap().position, Vec3i::new(0, 0, 105 * UNIT));
    world.run_frame(&no_keys(), &forward(), DT_MS);
    assert!(find(&world, id).is_none());
}

#[test]
fn ship_destruction_leads_to_game_over() {
    let mut world = World::new();
    world.bodies[0].position = Vec3i::new(0, 0, 0);
    world.bodies[0].health = Some(Health::new(2));
    let mut rock = asteroid_body(Vec3i::new(0, 0, 0), Vec3i::new(0, 0, 0));
    rock.damage = Some(CollisionDamage::new(5));
    world.spawn(rock).unwrap();
    world.run_frame(&no_keys(), &forward(), DT_MS);
    assert_eq!(ship(&world).unwrap().health.unwrap().value, -3);
    world.run_frame(&no_keys(), &forward(), DT_MS);
    assert!(ship(&world).is_none());
    assert_eq!(world.state, GameState::InPlay);
    world.run_frame(&no_keys(), &forward(), DT_MS);
    assert_eq!(world.state, GameState::GameOver);
    assert!(world.bodies.iter().all(|b| b.health.is_none()));
}

#[test]
fn pause_freezes_bodies() {
    let mut world = World::new();
    let mut mover = Body::at(0, Vec3i::new(0, 0, 0));
    mover.velocity = Some(Vec3i::new(1, 0, 0));
    let id = world.spawn(mover).unwrap();
    let mut esc = no_keys();
    esc.escape_just_pressed = true;
    world.run_frame(&esc, &forward(), DT_MS);
    assert_eq!(world.state, GameState::Paused);
    for _ in 0..100 {
        world.run_frame(&no_keys(), &forward(), DT_MS);
    }
    assert_eq!(find(&world, id).unwrap().position, Vec3i::new(0, 0, 0));
    world.run_frame(&esc, &forward(), DT_MS);
    assert_eq!(world.state, GameState::InPlay);
}

#[test]
fn restart_spawns_only_the_ship() {
    let mut world = World::new();
    world.bodies.clear();
    let mut marker = Body::at(0, Vec3i::new(UNIT, 0, 0));
    marker.velocity = Some(Vec3i::new(0, 0, 0));
    world.bodies.push(Body { id: 7, ..marker });
    let mut rock = asteroid_body(Vec3i::new(0, 0, 0), Vec3i::new(0, 0, 0));
    rock.id = 8;
    world.bodies.push(rock);
    world.next_id = 9;
    world.run_frame(&no_keys(), &forward(), DT_MS);
    assert_eq!(world.state, GameState::GameOver);
    let mut space = no_keys();
    space.space = true;
    space.space_just_pressed = true;
    world.run_frame(&space, &forward(), DT_MS);
    assert_eq!(world.state, GameState::InPlay);
    let with_health: Vec<Body> = world.bodies.iter().copied().filter(|b| b.health.is_some()).collect();
    assert_eq!(with_health.len(), 1);
    assert!(with_health[0].spaceship.is_some());
    assert_eq!(with_health[0].health.unwrap().value, SPACESHIP_HEALTH);
    assert!(find(&world, 7).is_some());
}

#[test]
fn shield_blocks_damage() {
    let mut world = World::new();
    world.bodies[0].shield = Some(SpaceshipShield);
    let start = world.bodies[0].position;
    let mut rock = asteroid_body(start, Vec3i::new(0, 0, 0));
    rock.damage = Some(CollisionDamage::new(5));
    let rid = world.spawn(rock).unwrap();
    for _ in 0..10 {
        world.run_frame(&no_keys(), &forward(), DT_MS);
    }
    assert_eq!(ship(&world).unwrap().health.unwrap().value, SPACESHIP_HEALTH);
    assert_eq!(find(&world, rid).unwrap().health.unwrap().value, 80 - 50);
}
