use vstd::prelude::*;

use crate::entity::{Asteroid, Body, Collider};
use crate::health::{CollisionDamage, Health};
use crate::vec3::Vec3i;

verus! {

/// Milliseconds between two asteroid spawns.
pub const SPAWN_PERIOD_MS: u64 = 1000;
pub const ASTEROID_RADIUS: i64 = 2_500_000;
pub const ASTEROID_HEALTH: i64 = 80;
pub const ASTEROID_DAMAGE: i64 = 35;

/// Repeating timer that paces asteroid spawns.
#[derive(Clone, Copy, Debug, PartialEq, Eq, Structural)]
pub struct SpawnTimer {
    pub period: u64,
    pub elapsed: u64,
}

impl SpawnTimer {
    pub open spec fn wf(self) -> bool {
        0 < self.period && self.elapsed < self.period
    }

    pub fn new(period: u64) -> (r: SpawnTimer)
        requires
            period > 0,
        ensures
            r.wf(),
            r.period == period,
            r.elapsed == 0,
    {
        SpawnTimer { period, elapsed: 0 }
    }

    /// Advances the timer by `dt`; true when a period elapsed during it. The
    /// time past the end of the period carries over.
    pub fn tick(&mut self, dt: u64) -> (r: bool)
        requires
            old(self).wf(),
            dt <= u64::MAX - old(self).period,
        ensures
            final(self).wf(),
            final(self).period == old(self).period,
            r == (old(self).elapsed + dt >= old(self).period),
            final(self).elapsed == (old(self).elapsed + dt) % (old(self).period as int),
    {
        let total = self.elapsed + dt;
        self.elapsed = total % self.period;
        total >= self.period
    }
}

/// An asteroid at `position` drifting at `velocity`.
pub open spec fn asteroid_spec(position: Vec3i, velocity: Vec3i) -> Body {
    Body {
        id: 0,
        position,
        velocity: Some(velocity),
        acceleration: Some(Vec3i { x: 0, y: 0, z: 0 }),
        collider: Some(Collider { radius: ASTEROID_RADIUS }),
        damage: Some(CollisionDamage { amount: ASTEROID_DAMAGE }),
        health: Some(Health { value: ASTEROID_HEALTH }),
        asteroid: Some(Asteroid),
        spaceship: None,
        missile: None,
        shield: None,
    }
}

/// A new asteroid, to be spawned into the world; its id is assigned there.
pub fn asteroid_body(position: Vec3i, velocity: Vec3i) -> (r: Body)
    requires
        position.in_range(),
        velocity.in_range(),
    ensures
        r == asteroid_spec(position, velocity),
        r.wf(),
{
    Body {
        id: 0,
        position,
        velocity: Some(velocity),
        acceleration: Some(Vec3i::zero()),
        collider: Some(Collider::new(ASTEROID_RADIUS)),
        damage: Some(CollisionDamage::new(ASTEROID_DAMAGE)),
        health: Some(Health::new(ASTEROID_HEALTH)),
        asteroid: Some(Asteroid),
        spaceship: None,
        missile: None,
        shield: None,
    }
}

} // verus!
