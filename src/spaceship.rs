use vstd::prelude::*;

use crate::entity::{Body, Collider};
use crate::health::{CollisionDamage, Health};
use crate::vec3::{Vec3i, UNIT};

verus! {

/// Length of a direction vector of unit length, in per-mille.
pub const DIRECTION_SCALE: i64 = 1000;

pub const STARTING_Z: i64 = -20 * UNIT;
/// World units per second.
pub const SPACESHIP_SPEED: i64 = 25;
pub const SPACESHIP_COLLIDER_RADIUS: i64 = 7_500_000;
pub const SPACESHIP_HEALTH: i64 = 10;
pub const SPACESHIP_DAMAGE: i64 = 5;

/// Yaw rate, in microradians per millisecond (2.5 rad/s).
pub const SPACESHIP_ROTATION_SPEED: i64 = 2500;
/// Roll rate, in microradians per millisecond (2.5 rad/s).
pub const SPACESHIP_ROLL_SPEED: i64 = 2500;

/// World units per second.
pub const MISSILE_SPEED: i64 = 50;
/// World units ahead of the ship.
pub const MISSILE_FORWARD_SPAWN_OFFSET: i64 = 10;
pub const MISSILE_COLLIDER_RADIUS: i64 = 500_000;
pub const MISSILE_HEALTH: i64 = 1;
pub const MISSILE_DAMAGE: i64 = 1;

/// Tag of the single player entity.
#[derive(Clone, Copy, Debug, PartialEq, Eq, Structural)]
pub struct Spaceship;

/// Tag of a projectile fired by the spaceship.
#[derive(Clone, Copy, Debug, PartialEq, Eq, Structural)]
pub struct SpaceshipMissile;

/// Tag of a shielded spaceship, which takes no collision damage.
#[derive(Clone, Copy, Debug, PartialEq, Eq, Structural)]
pub struct SpaceshipShield;

/// Keyboard snapshot of one frame: which keys are held, and whether Esc and
/// Space went down this frame.
#[derive(Clone, Copy, Debug, PartialEq, Eq, Structural)]
pub struct Keys {
    pub w: bool,
    pub a: bool,
    pub s: bool,
    pub r: bool,
    pub q: bool,
    pub f: bool,
    pub space: bool,
    pub tab: bool,
    pub space_just_pressed: bool,
    pub escape_just_pressed: bool,
}

/// What the movement keys ask of the ship this frame: yaw and roll as a
/// direction (-1, 0 or 1, to be scaled by the turn rate and the frame delta)
/// and thrust in world units per second along the ship's backward axis.
#[derive(Clone, Copy, Debug, PartialEq, Eq, Structural)]
pub struct Steering {
    pub yaw: i64,
    pub roll: i64,
    pub thrust: i64,
}

pub open spec fn steering_spec(k: Keys) -> Steering {
    Steering {
        yaw: if k.s { -1i64 } else if k.a { 1i64 } else { 0i64 },
        thrust: if k.r { (-SPACESHIP_SPEED) as i64 } else if k.w { SPACESHIP_SPEED } else { 0i64 },
        roll: if k.q { -1i64 } else if k.f { 1i64 } else { 0i64 },
    }
}

/// Movement keys to steering: S over A for yaw, R over W for thrust, Q over
/// F for roll.
pub fn movement_intent(k: &Keys) -> (r: Steering)
    ensures
        r == steering_spec(*k),
{
    let yaw: i64 = if k.s {
        -1
    } else if k.a {
        1
    } else {
        0
    };
    let thrust: i64 = if k.r {
        -SPACESHIP_SPEED
    } else if k.w {
        SPACESHIP_SPEED
    } else {
        0
    };
    let roll: i64 = if k.q {
        -1
    } else if k.f {
        1
    } else {
        0
    };
    Steering { yaw, roll, thrust }
}

/// The turn the keys ask of the ship over one frame, in microradians: yaw
/// about the world's vertical axis, then roll about the ship's own
/// longitudinal axis.
#[derive(Clone, Copy, Debug, PartialEq, Eq, Structural)]
pub struct Turn {
    pub yaw: i64,
    pub roll: i64,
}

pub open spec fn turn_spec(k: Keys, dt_ms: int) -> Turn {
    Turn {
        yaw: (if k.s {
            -SPACESHIP_ROTATION_SPEED * dt_ms
        } else if k.a {
            SPACESHIP_ROTATION_SPEED * dt_ms
        } else {
            0
        }) as i64,
        roll: (if k.q {
            -SPACESHIP_ROLL_SPEED * dt_ms
        } else if k.f {
            SPACESHIP_ROLL_SPEED * dt_ms
        } else {
            0
        }) as i64,
    }
}

/// Yaw and roll angles of a frame of `dt_ms` milliseconds: the turn rate
/// times the frame time, signed by the keys (S over A, Q over F).
pub fn turn_angles(k: &Keys, dt_ms: u32) -> (r: Turn)
    ensures
        r == turn_spec(*k, dt_ms as int),
        r.yaw == (if k.s {
            -2500 * dt_ms
        } else if k.a {
            2500 * dt_ms
        } else {
            0
        }),
        r.roll == (if k.q {
            -2500 * dt_ms
        } else if k.f {
            2500 * dt_ms
        } else {
            0
        }),
{
    let steering = movement_intent(k);
    let step = SPACESHIP_ROTATION_SPEED * dt_ms as i64;
    let roll_step = SPACESHIP_ROLL_SPEED * dt_ms as i64;
    Turn { yaw: steering.yaw * step, roll: steering.roll * roll_step }
}

/// A direction whose coordinates are per-mille of a world unit, at most one
/// unit each.
pub open spec fn is_direction(d: Vec3i) -> bool {
    &&& -DIRECTION_SCALE <= d.x <= DIRECTION_SCALE
    &&& -DIRECTION_SCALE <= d.y <= DIRECTION_SCALE
    &&& -DIRECTION_SCALE <= d.z <= DIRECTION_SCALE
}

/// `d * k`, coordinate by coordinate.
pub open spec fn scaled(d: Vec3i, k: int) -> Vec3i {
    Vec3i { x: (d.x * k) as i64, y: (d.y * k) as i64, z: (d.z * k) as i64 }
}

/// `d * k` for a direction and a factor of at most a million.
pub fn scale_direction(d: &Vec3i, k: i64) -> (r: Vec3i)
    requires
        is_direction(*d),
        -UNIT * UNIT <= k <= UNIT * UNIT,
    ensures
        r == scaled(*d, k as int),
        r.x == d.x * k,
        r.y == d.y * k,
        r.z == d.z * k,
{
    proof {
        assert(-1000 * 1_000_000_000_000 <= d.x * k <= 1000 * 1_000_000_000_000
            && -1000 * 1_000_000_000_000 <= d.y * k <= 1000 * 1_000_000_000_000
            && -1000 * 1_000_000_000_000 <= d.z * k <= 1000 * 1_000_000_000_000) by (nonlinear_arith)
            requires
                -1000 <= d.x <= 1000,
                -1000 <= d.y <= 1000,
                -1000 <= d.z <= 1000,
                -1_000_000_000_000 <= k <= 1_000_000_000_000,
        ;
    }
    Vec3i { x: d.x * k, y: d.y * k, z: d.z * k }
}

/// The spaceship as spawned at startup and on restart.
pub open spec fn spaceship_spec(id: u64) -> Body {
    Body {
        id,
        position: Vec3i { x: 0, y: 0, z: STARTING_Z },
        velocity: Some(Vec3i { x: 0, y: 0, z: 0 }),
        acceleration: Some(Vec3i { x: 0, y: 0, z: 0 }),
        collider: Some(Collider { radius: SPACESHIP_COLLIDER_RADIUS }),
        damage: Some(CollisionDamage { amount: SPACESHIP_DAMAGE }),
        health: Some(Health { value: SPACESHIP_HEALTH }),
        asteroid: None,
        spaceship: Some(Spaceship),
        missile: None,
        shield: None,
    }
}

pub fn spaceship_body(id: u64) -> (r: Body)
    ensures
        r == spaceship_spec(id),
        r.wf(),
{
    Body {
        id,
        position: Vec3i::new(0, 0, STARTING_Z),
        velocity: Some(Vec3i::zero()),
        acceleration: Some(Vec3i::zero()),
        collider: Some(Collider::new(SPACESHIP_COLLIDER_RADIUS)),
        damage: Some(CollisionDamage::new(SPACESHIP_DAMAGE)),
        health: Some(Health::new(SPACESHIP_HEALTH)),
        asteroid: None,
        spaceship: Some(Spaceship),
        missile: None,
        shield: None,
    }
}

/// A missile fired from `position` along `-forward`.
pub open spec fn missile_spec(id: u64, position: Vec3i, forward: Vec3i) -> Body {
    Body {
        id,
        position,
        velocity: Some(scaled(forward, -MISSILE_SPEED as int)),
        acceleration: Some(Vec3i { x: 0, y: 0, z: 0 }),
        collider: Some(Collider { radius: MISSILE_COLLIDER_RADIUS }),
        damage: Some(CollisionDamage { amount: MISSILE_DAMAGE }),
        health: Some(Health { value: MISSILE_HEALTH }),
        asteroid: None,
        spaceship: None,
        missile: Some(SpaceshipMissile),
        shield: None,
    }
}

pub fn missile_body(id: u64, position: Vec3i, forward: &Vec3i) -> (r: Body)
    requires
        position.in_range(),
        is_direction(*forward),
    ensures
        r == missile_spec(id, position, *forward),
        r.wf(),
{
    Body {
        id,
        position,
        velocity: Some(scale_direction(forward, -MISSILE_SPEED)),
        acceleration: Some(Vec3i::zero()),
        collider: Some(Collider::new(MISSILE_COLLIDER_RADIUS)),
        damage: Some(CollisionDamage::new(MISSILE_DAMAGE)),
        health: Some(Health::new(MISSILE_HEALTH)),
        asteroid: None,
        spaceship: None,
        missile: Some(SpaceshipMissile),
        shield: None,
    }
}

} // verus!
