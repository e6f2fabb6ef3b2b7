use vstd::prelude::*;

use crate::health::{CollisionDamage, Health};
use crate::spaceship::{Spaceship, SpaceshipMissile, SpaceshipShield};
use crate::vec3::{Vec3i, COORD_LIMIT};

verus! {

/// Tag of an asteroid.
#[derive(Clone, Copy, Debug, PartialEq, Eq, Structural)]
pub struct Asteroid;

/// Sphere around the entity's position used for overlap tests.
#[derive(Clone, Copy, Debug, PartialEq, Eq, Structural)]
pub struct Collider {
    pub radius: i64,
}

impl Collider {
    pub fn new(radius: i64) -> (r: Collider)
        ensures
            r.radius == radius,
    {
        Collider { radius }
    }
}

/// An entity with the components it carries; an absent component is `None`.
#[derive(Clone, Copy, Debug, PartialEq, Eq, Structural)]
pub struct Body {
    pub id: u64,
    pub position: Vec3i,
    pub velocity: Option<Vec3i>,
    pub acceleration: Option<Vec3i>,
    pub collider: Option<Collider>,
    pub damage: Option<CollisionDamage>,
    pub health: Option<Health>,
    pub asteroid: Option<Asteroid>,
    pub spaceship: Option<Spaceship>,
    pub missile: Option<SpaceshipMissile>,
    pub shield: Option<SpaceshipShield>,
}

impl Body {
    /// Components hold values inside the bounds the simulation computes with.
    pub open spec fn wf(self) -> bool {
        &&& self.position.in_range()
        &&& (self.velocity matches Some(v) ==> v.in_range())
        &&& (self.acceleration matches Some(a) ==> a.in_range())
        &&& (self.collider matches Some(c) ==> 0 <= c.radius <= COORD_LIMIT)
        &&& (self.damage matches Some(d) ==> d.wf())
        &&& (self.health matches Some(h) ==> h.wf())
    }

    pub open spec fn is_ship(self) -> bool {
        self.spaceship is Some
    }

    pub open spec fn is_dead(self) -> bool {
        self.health matches Some(h) && h.dead()
    }

    /// The amount this body deals on contact (zero without `CollisionDamage`).
    pub open spec fn damage_dealt(self) -> int {
        match self.damage {
            Some(d) => d.amount as int,
            None => 0,
        }
    }

    /// Takes damage from collisions: a receiver tag and health, and not a
    /// shielded spaceship.
    pub open spec fn receives_damage(self) -> bool {
        &&& (self.asteroid is Some || self.spaceship is Some || self.missile is Some)
        &&& self.health is Some
        &&& !(self.spaceship is Some && self.shield is Some)
    }

    /// A bare entity at `position` with no other component.
    pub fn at(id: u64, position: Vec3i) -> (r: Body)
        ensures
            r.id == id,
            r.position == position,
            r.velocity is None,
            r.acceleration is None,
            r.collider is None,
            r.damage is None,
            r.health is None,
            r.asteroid is None,
            r.spaceship is None,
            r.missile is None,
            r.shield is None,
    {
        Body {
            id,
            position,
            velocity: None,
            acceleration: None,
            collider: None,
            damage: None,
            health: None,
            asteroid: None,
            spaceship: None,
            missile: None,
            shield: None,
        }
    }
}

} // verus!
