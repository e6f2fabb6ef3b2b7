use vstd::prelude::*;

verus! {

/// Bound on the magnitude of a hit-point pool.
pub const HEALTH_LIMIT: i64 = 0x100_0000_0000;

/// Bound on the damage one entity deals on contact.
pub const DAMAGE_LIMIT: i64 = 0x10_0000;

/// Hit-point pool; the entity is dead once `value <= 0`.
#[derive(Clone, Copy, Debug, PartialEq, Eq, Structural)]
pub struct Health {
    pub value: i64,
}

impl Health {
    pub open spec fn wf(self) -> bool {
        -HEALTH_LIMIT <= self.value <= HEALTH_LIMIT
    }

    pub open spec fn dead(self) -> bool {
        self.value <= 0
    }

    pub fn new(value: i64) -> (r: Health)
        ensures
            r.value == value,
    {
        Health { value }
    }

    /// Subtracts `dmg` from the pool.
    pub fn apply(&mut self, dmg: i64)
        requires
            old(self).value - dmg >= i64::MIN,
            0 <= dmg,
        ensures
            final(self).value == old(self).value - dmg,
    {
        self.value = self.value - dmg;
    }

    pub fn is_dead(&self) -> (r: bool)
        ensures
            r == self.dead(),
    {
        self.value <= 0
    }
}

/// Damage dealt to every entity this one collides with.
#[derive(Clone, Copy, Debug, PartialEq, Eq, Structural)]
pub struct CollisionDamage {
    pub amount: i64,
}

impl CollisionDamage {
    pub open spec fn wf(self) -> bool {
        0 <= self.amount <= DAMAGE_LIMIT
    }

    pub fn new(amount: i64) -> (r: CollisionDamage)
        ensures
            r.amount == amount,
    {
        CollisionDamage { amount }
    }
}

} // verus!
