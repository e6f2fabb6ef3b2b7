use vstd::prelude::*;

use crate::collision::{
    all_wf, apply_collision_damage, damaged, detect_collisions, distinct_ids, hits_of,
    lemma_hits_upto_contains, lemma_shielded_ship_keeps_health,
};
use crate::despawn::{
    at_most_one_ship, despawn_all_entities, far_away, despawn_dead_entities, despawn_far_away_entities,
    keep_alive, keep_near, keep_without_health, lemma_filter_keeps_invariants, reaped,
};
use crate::entity::Body;
use crate::health::{DAMAGE_LIMIT, HEALTH_LIMIT};
use crate::kinematics::{integrate, moved, step_fits};
use crate::spaceship::{
    is_direction, missile_body, missile_spec, scale_direction, scaled, spaceship_body,
    spaceship_spec, steering_spec, movement_intent, Keys, SpaceshipShield,
    MISSILE_FORWARD_SPAWN_OFFSET,
};
use crate::state::GameState;
use crate::vec3::{coord_ok, Vec3i};

verus! {

/// Most entities the world holds at once.
pub const MAX_ENTITIES: usize = 0x1_0000;

/// Index of the spaceship in `s`, when there is one.
pub open spec fn ship_of(s: Seq<Body>) -> int {
    choose|i: int| 0 <= i < s.len() && s[i].is_ship()
}

/// Room in a world of `s` with next free id `next_id` for one more entity.
pub open spec fn room_for(s: Seq<Body>, next_id: u64) -> bool {
    s.len() < MAX_ENTITIES && next_id < u64::MAX
}

/// The bodies after the movement control.
pub open spec fn after_movement(s: Seq<Body>, keys: Keys, forward: Vec3i) -> Seq<Body> {
    if !no_ship(s) && s[ship_of(s)].velocity is Some {
        s.update(
            ship_of(s),
            Body {
                velocity: Some(scaled(forward, -steering_spec(keys).thrust)),
                ..s[ship_of(s)]
            },
        )
    } else {
        s
    }
}

/// The weapon control fires a missile.
pub open spec fn fires(s: Seq<Body>, next_id: u64, keys: Keys, forward: Vec3i) -> bool {
    &&& keys.space
    &&& !no_ship(s)
    &&& room_for(s, next_id)
    &&& missile_start_fits(s[ship_of(s)].position, forward)
}

/// The bodies after the weapon control.
pub open spec fn after_weapon(s: Seq<Body>, next_id: u64, keys: Keys, forward: Vec3i) -> Seq<Body> {
    if fires(s, next_id, keys, forward) {
        s.push(missile_spec(next_id, missile_start(s[ship_of(s)].position, forward), forward))
    } else {
        s
    }
}

/// The next free id after the weapon control.
pub open spec fn id_after_weapon(s: Seq<Body>, next_id: u64, keys: Keys, forward: Vec3i) -> u64 {
    if fires(s, next_id, keys, forward) {
        (next_id + 1) as u64
    } else {
        next_id
    }
}

/// The bodies after the shield control.
pub open spec fn after_shield(s: Seq<Body>, keys: Keys) -> Seq<Body> {
    if keys.tab && !no_ship(s) {
        s.update(ship_of(s), Body { shield: Some(SpaceshipShield), ..s[ship_of(s)] })
    } else {
        s
    }
}

/// The bodies after the input phase: movement, then weapon, then shield.
pub open spec fn input_phases(s: Seq<Body>, next_id: u64, keys: Keys, forward: Vec3i) -> Seq<Body> {
    after_shield(after_weapon(after_movement(s, keys, forward), next_id, keys, forward), keys)
}

/// The next free id after the input phase.
pub open spec fn id_after_input(s: Seq<Body>, next_id: u64, keys: Keys, forward: Vec3i) -> u64 {
    id_after_weapon(after_movement(s, keys, forward), next_id, keys, forward)
}

/// The bodies after the collision phase.
pub open spec fn collided(s: Seq<Body>) -> Seq<Body> {
    Seq::new(s.len(), |i: int| damaged(s[i], s, hits_of(s, i)))
}

/// Every body of `s` can take one integration step of `dt`.
pub open spec fn all_fit(s: Seq<Body>, dt: int) -> bool {
    forall|i: int| 0 <= i < s.len() ==> step_fits(#[trigger] s[i], dt)
}

/// The bodies after the integration phase.
pub open spec fn integrated(s: Seq<Body>, dt: int) -> Seq<Body> {
    if all_fit(s, dt) {
        Seq::new(s.len(), |i: int| moved(s[i], dt))
    } else {
        s
    }
}

/// No body of the sequence carries the spaceship tag.
pub open spec fn no_ship(s: Seq<Body>) -> bool {
    forall|i: int| 0 <= i < s.len() ==> !(#[trigger] s[i]).is_ship()
}

/// Bodies of `t` keep the ids and spaceship tags of the bodies of `s`.
pub open spec fn same_identities(s: Seq<Body>, t: Seq<Body>) -> bool {
    &&& s.len() == t.len()
    &&& forall|i: int|
        0 <= i < s.len() ==> (#[trigger] t[i]).id == s[i].id && t[i].is_ship() == s[i].is_ship()
}

/// `t` keeps the bodies of `s` in place with their ids, health, positions,
/// spaceship tags and shields, and any body it adds has an id of at least `next_id`.
pub open spec fn grows_from(s: Seq<Body>, t: Seq<Body>, next_id: u64) -> bool {
    &&& s.len() <= t.len()
    &&& forall|k: int|
        0 <= k < s.len() ==> (#[trigger] t[k]).id == s[k].id && t[k].health == s[k].health
            && t[k].position == s[k].position && t[k].spaceship == s[k].spaceship && (s[k].shield
            is Some ==> t[k].shield is Some)
    &&& forall|k: int| s.len() <= k < t.len() ==> (#[trigger] t[k]).id >= next_id
}

pub proof fn lemma_grows_from_trans(a: Seq<Body>, b: Seq<Body>, c: Seq<Body>, n1: u64, n2: u64)
    requires
        grows_from(a, b, n1),
        grows_from(b, c, n2),
        n1 <= n2,
    ensures
        grows_from(a, c, n1),
{
    assert forall|k: int| a.len() <= k < c.len() implies (#[trigger] c[k]).id >= n1 by {
        if k < b.len() {
            assert(b[k].id >= n1);
        }
    }
}

/// A body of `s` found again in `t` has kept its health, position and tag.
pub proof fn lemma_grows_from_keeps_dead(s: Seq<Body>, t: Seq<Body>, next_id: u64, k: int, j: int)
    requires
        grows_from(s, t, next_id),
        distinct_ids(s),
        forall|i: int| 0 <= i < s.len() ==> (#[trigger] s[i]).id < next_id,
        0 <= k < t.len(),
        0 <= j < s.len(),
        t[k].id == s[j].id,
    ensures
        t[k].health == s[j].health,
        t[k].position == s[j].position,
        t[k].spaceship == s[j].spaceship,
        s[j].shield is Some ==> t[k].shield is Some,
{
    if k >= s.len() {
        assert(t[k].id >= next_id);
    } else {
        assert(t[k].id == s[k].id);
    }
}

/// No body of `t` carries the id of a body that is dead in `s`.
pub open spec fn dead_ones_gone(s: Seq<Body>, t: Seq<Body>) -> bool {
    forall|k: int, j: int|
        0 <= k < t.len() && 0 <= j < s.len() && (#[trigger] s[j]).is_dead() ==> (#[trigger] t[k]).id
            != s[j].id
}

/// A shielded spaceship of `s` found again in `t` has the same health.
pub open spec fn shielded_health_kept(s: Seq<Body>, t: Seq<Body>) -> bool {
    forall|k: int, j: int|
        0 <= k < t.len() && 0 <= j < s.len() && (#[trigger] s[j]).is_ship() && s[j].shield is Some
            && (#[trigger] t[k]).id == s[j].id ==> t[k].health == s[j].health
}

/// No body of `t` carries the id of a body of `s` that lies beyond the
/// despawn distance and is not the spaceship.
pub open spec fn far_ones_gone(s: Seq<Body>, t: Seq<Body>) -> bool {
    forall|k: int, j: int|
        0 <= k < t.len() && 0 <= j < s.len() && far_away(#[trigger] s[j]) ==> (#[trigger] t[k]).id
            != s[j].id
}

/// The entity set with the run state and the next free entity id.
pub struct World {
    pub bodies: Vec<Body>,
    pub next_id: u64,
    pub state: GameState,
}

pub proof fn lemma_same_identities(s: Seq<Body>, t: Seq<Body>, next_id: u64)
    requires
        same_identities(s, t),
        distinct_ids(s),
        at_most_one_ship(s),
        forall|i: int| 0 <= i < s.len() ==> (#[trigger] s[i]).id < next_id,
    ensures
        distinct_ids(t),
        at_most_one_ship(t),
        forall|i: int| 0 <= i < t.len() ==> (#[trigger] t[i]).id < next_id,
        no_ship(s) ==> no_ship(t),
{
    assert forall|i: int, j: int|
        0 <= i < t.len() && 0 <= j < t.len() && #[trigger] t[i].is_ship() && #[trigger] t[j].is_ship()
            implies i == j by {
        assert(s[i].is_ship() && s[j].is_ship());
    }
    assert forall|i: int| 0 <= i < t.len() implies (#[trigger] t[i]).id < next_id by {
        assert(s[i].id < next_id);
    }
}

impl World {
    pub open spec fn wf(&self) -> bool {
        &&& all_wf(self.bodies@)
        &&& distinct_ids(self.bodies@)
        &&& at_most_one_ship(self.bodies@)
        &&& self.bodies.len() <= MAX_ENTITIES
        &&& forall|i: int| 0 <= i < self.bodies.len() ==> (#[trigger] self.bodies[i]).id < self.next_id
        &&& self.state == GameState::GameOver ==> no_ship(self.bodies@)
        &&& self.state == GameState::GameOver ==> forall|i: int|
            0 <= i < self.bodies.len() ==> (#[trigger] self.bodies[i]).health is None
    }

    /// Room for one more entity.
    pub open spec fn has_room(&self) -> bool {
        self.bodies.len() < MAX_ENTITIES && self.next_id < u64::MAX
    }

    /// The world at startup: in play, with the spaceship as its only entity.
    pub fn new() -> (r: World)
        ensures
            r.wf(),
            r.state == GameState::InPlay,
            r.bodies@ == seq![spaceship_spec(0)],
            r.next_id == 1,
    {
        let mut bodies: Vec<Body> = Vec::new();
        bodies.push(spaceship_body(0));
        World { bodies, next_id: 1, state: GameState::InPlay }
    }

    /// Adds `b` under the next free id, if there is room.
    fn push_body(&mut self, b: Body) -> (r: Option<u64>)
        requires
            old(self).wf(),
            b.wf(),
            b.is_ship() ==> no_ship(old(self).bodies@),
            b.is_ship() ==> old(self).state != GameState::GameOver,
            b.health is Some ==> old(self).state != GameState::GameOver,
        ensures
            final(self).wf(),
            final(self).state == old(self).state,
            old(self).has_room() ==> r == Some(old(self).next_id) && final(self).bodies@
                == old(self).bodies@.push(Body { id: old(self).next_id, ..b }) && final(self).next_id
                == old(self).next_id + 1,
            !old(self).has_room() ==> r is None && final(self).bodies@ == old(self).bodies@
                && final(self).next_id == old(self).next_id,
    {
        if self.bodies.len() < MAX_ENTITIES && self.next_id < u64::MAX {
            let id = self.next_id;
            let nb = Body { id, ..b };
            self.bodies.push(nb);
            self.next_id = id + 1;
            proof {
                let s = self.bodies@;
                assert(s.last() == nb);
                assert forall|i: int, j: int|
                    0 <= i < s.len() && 0 <= j < s.len() && #[trigger] s[i].is_ship()
                        && #[trigger] s[j].is_ship() implies i == j by {
                    if i < s.len() - 1 && j < s.len() - 1 {
                        assert(old(self).bodies@[i].is_ship() && old(self).bodies@[j].is_ship());
                    } else if i < s.len() - 1 {
                        assert(old(self).bodies@[i].is_ship());
                    } else if j < s.len() - 1 {
                        assert(old(self).bodies@[j].is_ship());
                    }
                }
                assert forall|i: int| 0 <= i < s.len() implies (#[trigger] s[i]).wf() by {
                    if i < s.len() - 1 {
                        assert(old(self).bodies@[i].wf());
                    }
                }
                assert forall|i: int| 0 <= i < s.len() implies (#[trigger] s[i]).id < self.next_id by {
                    if i < s.len() - 1 {
                        assert(old(self).bodies@[i].id < old(self).next_id);
                    }
                }
                assert(distinct_ids(s)) by {
                    assert forall|i: int, j: int|
                        0 <= i < s.len() && 0 <= j < s.len() && i != j implies s[i].id != s[j].id by {
                        if i < s.len() - 1 {
                            assert(old(self).bodies@[i].id < id);
                        }
                        if j < s.len() - 1 {
                            assert(old(self).bodies@[j].id < id);
                        }
                    }
                }
            }
            Some(id)
        } else {
            None
        }
    }

    /// Spawns a body that is not the spaceship, under the next free id; does
    /// nothing and returns `None` when the world is full.
    pub fn spawn(&mut self, b: Body) -> (r: Option<u64>)
        requires
            old(self).wf(),
            old(self).state != GameState::GameOver,
            b.wf(),
            !b.is_ship(),
        ensures
            final(self).wf(),
            final(self).state == old(self).state,
            old(self).has_room() ==> r == Some(old(self).next_id) && final(self).bodies@
                == old(self).bodies@.push(Body { id: old(self).next_id, ..b }) && final(self).next_id
                == old(self).next_id + 1,
            !old(self).has_room() ==> r is None && final(self).bodies@ == old(self).bodies@
                && final(self).next_id == old(self).next_id,
    {
        self.push_body(b)
    }

    /// Index of the spaceship, if there is one.
    pub fn ship_index(&self) -> (r: Option<usize>)
        ensures
            r matches Some(i) ==> i < self.bodies.len() && self.bodies[i as int].is_ship(),
            r is None ==> no_ship(self.bodies@),
    {
        let mut i: usize = 0;
        while i < self.bodies.len()
            invariant
                i <= self.bodies.len(),
                forall|k: int| 0 <= k < i ==> !(#[trigger] self.bodies[k]).is_ship(),
            decreases self.bodies.len() - i,
        {
            if self.bodies[i].spaceship.is_some() {
                return Some(i);
            }
            i += 1;
        }
        None
    }

    proof fn lemma_update_keeps_wf(&self, i: int, nb: Body, t: Seq<Body>)
        requires
            self.wf(),
            0 <= i < self.bodies.len(),
            nb.wf(),
            nb.id == self.bodies[i].id,
            nb.is_ship() == self.bodies[i].is_ship(),
            nb.health == self.bodies[i].health,
            t == self.bodies@.update(i, nb),
        ensures
            all_wf(t),
            distinct_ids(t),
            at_most_one_ship(t),
            forall|k: int| 0 <= k < t.len() ==> (#[trigger] t[k]).id < self.next_id,
            no_ship(self.bodies@) ==> no_ship(t),
            (forall|k: int| 0 <= k < self.bodies.len() ==> (#[trigger] self.bodies[k]).health is None)
                ==> forall|k: int| 0 <= k < t.len() ==> (#[trigger] t[k]).health is None,
    {
        assert(same_identities(self.bodies@, t));
        lemma_same_identities(self.bodies@, t, self.next_id);
        assert forall|k: int| 0 <= k < t.len() implies (#[trigger] t[k]).wf() by {
            assert(self.bodies[k].wf());
        }
        if forall|k: int| 0 <= k < self.bodies.len() ==> (#[trigger] self.bodies[k]).health is None {
            assert forall|k: int| 0 <= k < t.len() implies (#[trigger] t[k]).health is None by {
                assert(self.bodies[k].health is None);
            }
        }
    }

    /// Movement: the spaceship's velocity becomes `-forward` times the
    /// thrust asked by the keys. `forward` is the ship's forward axis after
    /// this frame's rotation. Without a spaceship carrying a velocity,
    /// nothing changes.
    pub fn spaceship_movement_controls(&mut self, keys: &Keys, forward: &Vec3i)
        requires
            old(self).wf(),
            is_direction(*forward),
        ensures
            final(self).bodies@ == after_movement(old(self).bodies@, *keys, *forward),
            grows_from(old(self).bodies@, final(self).bodies@, old(self).next_id),
            final(self).next_id >= old(self).next_id,
            no_ship(final(self).bodies@) == no_ship(old(self).bodies@),
            final(self).wf(),
            final(self).state == old(self).state,
            final(self).next_id == old(self).next_id,
            forall|i: int|
                0 <= i < old(self).bodies.len() && (#[trigger] old(self).bodies[i]).is_ship()
                    && old(self).bodies[i].velocity is Some ==> final(self).bodies@
                    == old(self).bodies@.update(
                    i,
                    Body {
                        velocity: Some(scaled(*forward, -steering_spec(*keys).thrust)),
                        ..old(self).bodies[i]
                    },
                ),
            (forall|i: int|
                0 <= i < old(self).bodies.len() && (#[trigger] old(self).bodies[i]).is_ship()
                    ==> old(self).bodies[i].velocity is None) ==> final(self).bodies@ == old(
                self,
            ).bodies@,
    {
        match self.ship_index() {
            Some(i) => {
                let b = self.bodies[i];
                if b.velocity.is_some() {
                    let steering = movement_intent(keys);
                    let v = scale_direction(forward, -steering.thrust);
                    let nb = Body { velocity: Some(v), ..b };
                    proof {
                        assert(b.wf());
                        self.lemma_update_keeps_wf(i as int, nb, self.bodies@.update(i as int, nb));
                    }
                    self.bodies.set(i, nb);
                    assert(self.bodies@[i as int].is_ship());
                }
            },
            None => {},
        }
    }

    /// Weapon: while Space is held, a missile spawns ten units ahead of the
    /// spaceship, along `-forward`, flying at the missile speed. Nothing is
    /// spawned without a spaceship, when the world is full, or when the
    /// spawn point would leave the coordinate range.
    pub fn spaceship_weapon_controls(&mut self, keys: &Keys, forward: &Vec3i)
        requires
            old(self).wf(),
            is_direction(*forward),
        ensures
            final(self).bodies@ == after_weapon(old(self).bodies@, old(self).next_id, *keys, *forward),
            final(self).next_id == id_after_weapon(
                old(self).bodies@,
                old(self).next_id,
                *keys,
                *forward,
            ),
            grows_from(old(self).bodies@, final(self).bodies@, old(self).next_id),
            final(self).next_id >= old(self).next_id,
            no_ship(final(self).bodies@) == no_ship(old(self).bodies@),
            final(self).wf(),
            final(self).state == old(self).state,
            !keys.space || no_ship(old(self).bodies@) || !old(self).has_room() ==> final(self).bodies@
                == old(self).bodies@ && final(self).next_id == old(self).next_id,
            forall|i: int|
                0 <= i < old(self).bodies.len() && (#[trigger] old(self).bodies[i]).is_ship()
                    && keys.space && old(self).has_room() && missile_start_fits(
                    old(self).bodies[i].position,
                    *forward,
                ) ==> final(self).bodies@ == old(self).bodies@.push(
                    missile_spec(
                        old(self).next_id,
                        missile_start(old(self).bodies[i].position, *forward),
                        *forward,
                    ),
                ) && final(self).next_id == old(self).next_id + 1,
            forall|i: int|
                0 <= i < old(self).bodies.len() && (#[trigger] old(self).bodies[i]).is_ship()
                    && !missile_start_fits(old(self).bodies[i].position, *forward)
                    ==> final(self).bodies@ == old(self).bodies@,
            final(self).bodies@ == old(self).bodies@ || (final(self).bodies@.drop_last()
                == old(self).bodies@ && final(self).bodies@.last().id == old(self).next_id),
    {
        if !keys.space || self.state == GameState::GameOver {
            return;
        }
        match self.ship_index() {
            Some(i) => {
                let p = self.bodies[i].position;
                // per-mille of a unit times units, in micro-units
                let offset = scale_direction(forward, -(MISSILE_FORWARD_SPAWN_OFFSET * 1000));
                let x = p.x as i128 + offset.x as i128;
                let y = p.y as i128 + offset.y as i128;
                let z = p.z as i128 + offset.z as i128;
                if coord_ok_exec(x) && coord_ok_exec(y) && coord_ok_exec(z) {
                    let start = Vec3i { x: x as i64, y: y as i64, z: z as i64 };
                    proof {
                        assert(forward.x * MISSILE_FORWARD_SPAWN_OFFSET * 1000 == forward.x * 10000
                            && forward.y * MISSILE_FORWARD_SPAWN_OFFSET * 1000 == forward.y * 10000
                            && forward.z * MISSILE_FORWARD_SPAWN_OFFSET * 1000 == forward.z * 10000)
                            by (nonlinear_arith);
                    }
                    assert(offset.x == forward.x * -10000);
                    assert(x == p.x - forward.x * 10000);
                    assert(start.x == missile_start(p, *forward).x);
                    assert(start == missile_start(p, *forward));
                    assert(missile_start_fits(p, *forward));
                    let m = missile_body(0, start, forward);
                    let _spawned = self.push_body(m);
                    proof {
                        assert forall|j: int|
                            0 <= j < old(self).bodies.len() && (#[trigger] old(
                                self,
                            ).bodies[j]).is_ship() implies j == i by {
                            assert(old(self).bodies@[i as int].is_ship());
                        }
                        if old(self).has_room() {
                            assert(Body { id: old(self).next_id, ..m } == missile_spec(
                                old(self).next_id,
                                start,
                                *forward,
                            ));
                            assert(self.bodies@.drop_last() =~= old(self).bodies@);
                        }
                    }
                } else {
                    proof {
                        assert forall|j: int|
                            0 <= j < old(self).bodies.len() && (#[trigger] old(
                                self,
                            ).bodies[j]).is_ship() implies j == i by {
                            assert(old(self).bodies@[i as int].is_ship());
                        }
                    }
                }
            },
            None => {},
        }
    }

    /// Shield: while Tab is held, the spaceship carries the shield tag.
    pub fn spaceship_shield_controls(&mut self, keys: &Keys)
        requires
            old(self).wf(),
        ensures
            final(self).bodies@ == after_shield(old(self).bodies@, *keys),
            grows_from(old(self).bodies@, final(self).bodies@, old(self).next_id),
            final(self).next_id >= old(self).next_id,
            no_ship(final(self).bodies@) == no_ship(old(self).bodies@),
            final(self).wf(),
            final(self).state == old(self).state,
            final(self).next_id == old(self).next_id,
            !keys.tab ==> final(self).bodies@ == old(self).bodies@,
            forall|i: int|
                0 <= i < old(self).bodies.len() && (#[trigger] old(self).bodies[i]).is_ship()
                    && keys.tab ==> final(self).bodies@ == old(self).bodies@.update(
                    i,
                    Body { shield: Some(SpaceshipShield), ..old(self).bodies[i] },
                ),
            no_ship(old(self).bodies@) ==> final(self).bodies@ == old(self).bodies@,
    {
        if !keys.tab {
            return;
        }
        match self.ship_index() {
            Some(i) => {
                let b = self.bodies[i];
                let nb = Body { shield: Some(SpaceshipShield), ..b };
                proof {
                    assert(b.wf());
                    self.lemma_update_keeps_wf(i as int, nb, self.bodies@.update(i as int, nb));
                }
                self.bodies.set(i, nb);
                assert(self.bodies@[i as int].is_ship());
            },
            None => {},
        }
    }

    /// Destruction detection: true when no entity carries the spaceship tag.
    pub fn spaceship_destroyed(&self) -> (r: bool)
        ensures
            r == no_ship(self.bodies@),
    {
        self.ship_index().is_none()
    }

    /// Despawn phase: distance reap, then health reap.
    pub fn despawn_phase(&mut self)
        requires
            old(self).wf(),
        ensures
            final(self).wf(),
            final(self).state == old(self).state,
            final(self).next_id == old(self).next_id,
            final(self).bodies@ == reaped(old(self).bodies@),
            forall|i: int|
                0 <= i < final(self).bodies.len() ==> !(#[trigger] final(self).bodies[i]).is_dead(),
    {
        let near = despawn_far_away_entities(&self.bodies);
        let alive = despawn_dead_entities(&near);
        proof {
            self.lemma_filter_keeps_wf(self.bodies@, |b: Body| keep_near(b));
            let mid = World { bodies: near, next_id: self.next_id, state: self.state };
            mid.lemma_filter_keeps_wf(near@, |b: Body| keep_alive(b));
        }
        self.bodies = alive;
    }

    /// Collision phase: publishes the hit lists, then applies collision
    /// damage to every damage receiver. Returns the hit lists.
    pub fn collision_phase(&mut self) -> (r: Vec<Vec<u64>>)
        requires
            old(self).wf(),
            forall|i: int| 0 <= i < old(self).bodies.len() ==> !(#[trigger] old(self).bodies[i]).is_dead(),
        ensures
            final(self).wf(),
            final(self).state == old(self).state,
            final(self).next_id == old(self).next_id,
            r.len() == old(self).bodies.len(),
            final(self).bodies.len() == old(self).bodies.len(),
            forall|i: int| 0 <= i < r.len() ==> (#[trigger] r[i])@ == hits_of(old(self).bodies@, i),
            forall|i: int|
                0 <= i < final(self).bodies.len() ==> #[trigger] final(self).bodies[i] == damaged(
                    old(self).bodies[i],
                    old(self).bodies@,
                    hits_of(old(self).bodies@, i),
                ),
    {
        let hits = detect_collisions(&self.bodies);
        proof {
            let s = self.bodies@;
            let hv = hits@.map_values(|h: Vec<u64>| h@);
            assert forall|i: int|
                0 <= i < s.len() && #[trigger] s[i].receives_damage() implies s[i].health.unwrap().value
                - hv[i].len() * DAMAGE_LIMIT >= -HEALTH_LIMIT by {
                assert(hv[i] == hits[i]@);
                lemma_hits_upto_contains(s, i, s.len() as int, 0);
                assert(!s[i].is_dead());
                assert(hv[i].len() * DAMAGE_LIMIT <= 0x1_0000 * DAMAGE_LIMIT) by (nonlinear_arith)
                    requires
                        hv[i].len() <= 0x1_0000,
                ;
            }
        }
        let nb = apply_collision_damage(&self.bodies, &hits);
        proof {
            let s = self.bodies@;
            assert(same_identities(s, nb@));
            lemma_same_identities(s, nb@, self.next_id);
            assert forall|i: int| 0 <= i < s.len() && s[i].health is None implies (#[trigger] nb@[i]).health is None by {
                assert(nb@[i] == damaged(s[i], s, hits[i]@));
            }
        }
        self.bodies = nb;
        hits
    }

    /// Integration phase: when one step of `dt` keeps every coordinate in
    /// range, every body moves by that step and the result is true;
    /// otherwise nothing moves and the result is false.
    pub fn integration_phase(&mut self, dt: u32) -> (r: bool)
        requires
            old(self).wf(),
        ensures
            final(self).wf(),
            final(self).state == old(self).state,
            final(self).next_id == old(self).next_id,
            r == forall|i: int| 0 <= i < old(self).bodies.len() ==> step_fits(#[trigger] old(self).bodies[i], dt as int),
            r ==> final(self).bodies.len() == old(self).bodies.len() && forall|i: int|
                0 <= i < final(self).bodies.len() ==> #[trigger] final(self).bodies[i] == moved(
                    old(self).bodies[i],
                    dt as int,
                ),
            !r ==> final(self).bodies@ == old(self).bodies@,
    {
        if !all_steps_fit(&self.bodies, dt) {
            return false;
        }
        let nb = integrate(&self.bodies, dt);
        proof {
            let s = self.bodies@;
            assert(same_identities(s, nb@));
            lemma_same_identities(s, nb@, self.next_id);
            assert forall|i: int| 0 <= i < s.len() && s[i].health is None implies (#[trigger] nb@[i]).health is None by {
                assert(nb@[i] == moved(s[i], dt as int));
            }
        }
        self.bodies = nb;
        true
    }

    /// Entering game over: the run state becomes `GameOver` and every body
    /// that carries health is removed.
    pub fn enter_game_over(&mut self)
        requires
            old(self).wf(),
            no_ship(old(self).bodies@),
        ensures
            final(self).wf(),
            final(self).state == GameState::GameOver,
            final(self).next_id == old(self).next_id,
            final(self).bodies@ == old(self).bodies@.filter(|b: Body| keep_without_health(b)),
    {
        let rest = despawn_all_entities(&self.bodies);
        proof {
            self.lemma_filter_keeps_wf(self.bodies@, |b: Body| keep_without_health(b));
        }
        self.bodies = rest;
        self.state = GameState::GameOver;
    }

    /// Leaving game over: the run state becomes `InPlay` and a new spaceship
    /// spawns, if there is room.
    pub fn restart(&mut self)
        requires
            old(self).wf(),
            old(self).state == GameState::GameOver,
        ensures
            final(self).wf(),
            final(self).state == GameState::InPlay,
            old(self).has_room() ==> final(self).bodies@ == old(self).bodies@.push(
                spaceship_spec(old(self).next_id),
            ) && final(self).next_id == old(self).next_id + 1,
            !old(self).has_room() ==> final(self).bodies@ == old(self).bodies@ && final(self).next_id
                == old(self).next_id,
    {
        self.state = GameState::InPlay;
        let ship = spaceship_body(0);
        let r = self.push_body(ship);
        proof {
            if old(self).has_room() {
                assert(Body { id: old(self).next_id, ..ship } == spaceship_spec(old(self).next_id));
            }
        }
    }

    /// An in-play frame without Esc: input phase, destruction detection,
    /// despawn, collision and integration.
    #[verifier::rlimit(50)]
    fn play_frame(&mut self, keys: &Keys, forward: &Vec3i, dt: u32)
        requires
            old(self).wf(),
            old(self).state == GameState::InPlay,
            is_direction(*forward),
        ensures
            final(self).wf(),
            dead_ones_gone(old(self).bodies@, final(self).bodies@),
            shielded_health_kept(old(self).bodies@, final(self).bodies@),
            final(self).next_id == id_after_input(old(self).bodies@, old(self).next_id, *keys, *forward),
            no_ship(input_phases(old(self).bodies@, old(self).next_id, *keys, *forward))
                ==> final(self).state == GameState::GameOver && final(self).bodies@ == input_phases(
                old(self).bodies@,
                old(self).next_id,
                *keys,
                *forward,
            ).filter(|b: Body| keep_without_health(b)),
            !no_ship(input_phases(old(self).bodies@, old(self).next_id, *keys, *forward))
                ==> final(self).state == GameState::InPlay && final(self).bodies@ == integrated(
                collided(reaped(input_phases(old(self).bodies@, old(self).next_id, *keys, *forward))),
                dt as int,
            ),
            !no_ship(old(self).bodies@) ==> far_ones_gone(old(self).bodies@, final(self).bodies@),
            final(self).state == GameState::GameOver <==> no_ship(old(self).bodies@),
            final(self).state != GameState::Paused,
    {
        let ghost s0 = self.bodies@;
        let ghost n0 = self.next_id;
        self.spaceship_movement_controls(keys, forward);
        let ghost s1 = self.bodies@;
        let ghost n1 = self.next_id;
        self.spaceship_weapon_controls(keys, forward);
        let ghost s2 = self.bodies@;
        let ghost n2 = self.next_id;
        self.spaceship_shield_controls(keys);
        let ghost s3 = self.bodies@;
        proof {
            lemma_grows_from_trans(s0, s1, s2, n0, n1);
            lemma_grows_from_trans(s0, s2, s3, n0, n2);
        }
        if self.spaceship_destroyed() {
            self.enter_game_over();
            proof {
                let t = self.bodies@;
                assert forall|k: int, j: int|
                    0 <= k < t.len() && 0 <= j < s0.len() && (#[trigger] s0[j]).is_dead()
                        implies (#[trigger] t[k]).id != s0[j].id by {
                    s3.lemma_filter_pred(|b: Body| keep_without_health(b), k);
                    s3.lemma_filter_contains_rev(|b: Body| keep_without_health(b), t[k]);
                    let m = choose|m: int| 0 <= m < s3.len() && s3[m] == t[k];
                    if t[k].id == s0[j].id {
                        lemma_grows_from_keeps_dead(s0, s3, n0, m, j);
                    }
                }
            }
            return;
        }
        self.despawn_phase();
        let ghost s4 = self.bodies@;
        proof {
            assert forall|k: int, j: int|
                0 <= k < s4.len() && 0 <= j < s0.len() && (#[trigger] s0[j]).is_dead()
                    implies (#[trigger] s4[k]).id != s0[j].id by {
                assert(!s4[k].is_dead());
                let mid = s3.filter(|b: Body| keep_near(b));
                mid.lemma_filter_contains_rev(|b: Body| keep_alive(b), s4[k]);
                s3.lemma_filter_contains_rev(|b: Body| keep_near(b), s4[k]);
                let m = choose|m: int| 0 <= m < s3.len() && s3[m] == s4[k];
                if s4[k].id == s0[j].id {
                    lemma_grows_from_keeps_dead(s0, s3, n0, m, j);
                }
            }
            assert forall|k: int, j: int|
                0 <= k < s4.len() && 0 <= j < s0.len() && far_away(#[trigger] s0[j])
                    implies (#[trigger] s4[k]).id != s0[j].id by {
                let mid = s3.filter(|b: Body| keep_near(b));
                mid.lemma_filter_contains_rev(|b: Body| keep_alive(b), s4[k]);
                let q = choose|q: int| 0 <= q < mid.len() && mid[q] == s4[k];
                s3.lemma_filter_pred(|b: Body| keep_near(b), q);
                s3.lemma_filter_contains_rev(|b: Body| keep_near(b), s4[k]);
                let m = choose|m: int| 0 <= m < s3.len() && s3[m] == s4[k];
                if s4[k].id == s0[j].id {
                    lemma_grows_from_keeps_dead(s0, s3, n0, m, j);
                }
            }
        }
        let _hits = self.collision_phase();
        let ghost s5 = self.bodies@;
        assert(s5 =~= collided(s4));
        let _moved = self.integration_phase(dt);
        proof {
            let t = self.bodies@;
            if all_fit(s5, dt as int) {
                assert(t =~= integrated(s5, dt as int));
            }
            assert forall|k: int, j: int|
                0 <= k < t.len() && 0 <= j < s0.len() && (#[trigger] s0[j]).is_dead()
                    implies (#[trigger] t[k]).id != s0[j].id by {
                assert(s5[k] == damaged(s4[k], s4, hits_of(s4, k)));
                assert(t[k].id == s5[k].id);
                assert(s4[k].id != s0[j].id);
            }
            assert forall|k: int, j: int|
                0 <= k < t.len() && 0 <= j < s0.len() && far_away(#[trigger] s0[j])
                    implies (#[trigger] t[k]).id != s0[j].id by {
                assert(s5[k] == damaged(s4[k], s4, hits_of(s4, k)));
                assert(t[k].id == s5[k].id);
                assert(s4[k].id != s0[j].id);
            }
            assert forall|k: int, j: int|
                0 <= k < t.len() && 0 <= j < s0.len() && (#[trigger] s0[j]).is_ship()
                    && s0[j].shield is Some && (#[trigger] t[k]).id == s0[j].id implies t[k].health
                == s0[j].health by {
                assert(s5[k] == damaged(s4[k], s4, hits_of(s4, k)));
                let mid = s3.filter(|b: Body| keep_near(b));
                mid.lemma_filter_contains_rev(|b: Body| keep_alive(b), s4[k]);
                s3.lemma_filter_contains_rev(|b: Body| keep_near(b), s4[k]);
                let m = choose|m: int| 0 <= m < s3.len() && s3[m] == s4[k];
                lemma_grows_from_keeps_dead(s0, s3, n0, m, j);
                lemma_shielded_ship_keeps_health(s4[k], s4, hits_of(s4, k));
            }
        }
    }

    /// One frame. Esc toggles between in play and paused, and Space restarts
    /// from game over; a frame that changes the run state this way does
    /// nothing else. Otherwise, in play, the phases run in order: input
    /// (movement, weapon, shield), destruction detection (entering game over
    /// when there is no spaceship), despawn, collision, integration. Paused
    /// and game over frames change nothing.
    /// `forward` is the ship's forward axis after this frame's turn
    /// (`turn_angles`), so movement and missiles follow the turned ship.
    pub fn run_frame(&mut self, keys: &Keys, forward: &Vec3i, dt: u32)
        requires
            old(self).wf(),
            is_direction(*forward),
        ensures
            final(self).wf(),
            at_most_one_ship(final(self).bodies@),
            old(self).state == GameState::Paused ==> final(self).bodies@ == old(self).bodies@
                && final(self).state == (if keys.escape_just_pressed {
                GameState::InPlay
            } else {
                GameState::Paused
            }),
            old(self).state == GameState::GameOver && !keys.space_just_pressed ==> final(self).bodies@
                == old(self).bodies@ && final(self).state == GameState::GameOver,
            old(self).state == GameState::GameOver && keys.space_just_pressed ==> final(self).state
                == GameState::InPlay && (old(self).has_room() ==> final(self).bodies@ == old(
                self,
            ).bodies@.push(spaceship_spec(old(self).next_id))),
            old(self).state == GameState::InPlay && keys.escape_just_pressed ==> final(self).bodies@
                == old(self).bodies@ && final(self).state == GameState::Paused,
            old(self).state == GameState::InPlay && !keys.escape_just_pressed ==> dead_ones_gone(
                old(self).bodies@,
                final(self).bodies@,
            ),
            shielded_health_kept(old(self).bodies@, final(self).bodies@),
            old(self).state == GameState::InPlay && !keys.escape_just_pressed ==> ({
                let a = input_phases(old(self).bodies@, old(self).next_id, *keys, *forward);
                &&& final(self).next_id == id_after_input(
                    old(self).bodies@,
                    old(self).next_id,
                    *keys,
                    *forward,
                )
                &&& no_ship(a) ==> final(self).state == GameState::GameOver && final(self).bodies@
                    == a.filter(|b: Body| keep_without_health(b))
                &&& !no_ship(a) ==> final(self).state == GameState::InPlay && final(self).bodies@
                    == integrated(collided(reaped(a)), dt as int)
            }),
            old(self).state == GameState::Paused || (old(self).state == GameState::InPlay
                && keys.escape_just_pressed) || (old(self).state == GameState::GameOver
                && !keys.space_just_pressed) ==> final(self).next_id == old(self).next_id,
            old(self).state == GameState::GameOver && keys.space_just_pressed ==> final(self).next_id
                == if old(self).has_room() {
                (old(self).next_id + 1) as u64
            } else {
                old(self).next_id
            },
            old(self).state == GameState::InPlay && !keys.escape_just_pressed && !no_ship(
                old(self).bodies@,
            ) ==> far_ones_gone(old(self).bodies@, final(self).bodies@),
            old(self).state == GameState::InPlay && !keys.escape_just_pressed ==> (final(self).state
                == GameState::GameOver <==> no_ship(old(self).bodies@)) && final(self).state
                != GameState::Paused,
    {
        match self.state {
            GameState::Paused => {
                if keys.escape_just_pressed {
                    self.state = GameState::InPlay;
                }
            },
            GameState::GameOver => {
                if keys.space_just_pressed {
                    self.restart();
                }
            },
            GameState::InPlay => {
                if keys.escape_just_pressed {
                    self.state = GameState::Paused;
                    return;
                }
                self.play_frame(keys, forward, dt);
            },
        }
    }

    proof fn lemma_filter_keeps_wf(&self, s: Seq<Body>, keep: spec_fn(Body) -> bool)
        requires
            self.wf(),
            s == self.bodies@,
        ensures
            ({
                let t = s.filter(keep);
                &&& all_wf(t)
                &&& distinct_ids(t)
                &&& at_most_one_ship(t)
                &&& t.len() <= MAX_ENTITIES
                &&& forall|i: int| 0 <= i < t.len() ==> (#[trigger] t[i]).id < self.next_id
                &&& no_ship(s) ==> no_ship(t)
                &&& (forall|i: int| 0 <= i < s.len() ==> (#[trigger] s[i]).health is None) ==> forall|
                    i: int,
                | 0 <= i < t.len() ==> (#[trigger] t[i]).health is None
            }),
    {
        lemma_filter_keeps_invariants(s, keep);
        s.lemma_filter_len(keep);
        let t = s.filter(keep);
        assert forall|i: int| 0 <= i < t.len() implies (#[trigger] t[i]).id < self.next_id
            && (no_ship(s) ==> !t[i].is_ship()) && ((forall|k: int|
            0 <= k < s.len() ==> (#[trigger] s[k]).health is None) ==> t[i].health is None) by {
            assert(s.contains(t[i]));
            let k = choose|k: int| 0 <= k < s.len() && s[k] == t[i];
            assert(s[k].id < self.next_id);
        }
    }
}

fn fits_exec(p: i64, v: i64, dt: u32) -> (r: bool)
    requires
        coord_ok(v as int),
    ensures
        r == coord_ok(p + v * dt),
{
    proof {
        assert(-0x1000_0000_0000_0000 * 0x1_0000_0000 <= v * dt <= 0x1000_0000_0000_0000
            * 0x1_0000_0000) by (nonlinear_arith)
            requires
                coord_ok(v as int),
                0 <= dt <= 0xffff_ffff,
        ;
    }
    coord_ok_exec(p as i128 + v as i128 * dt as i128)
}

fn vec_fits_exec(p: &Vec3i, v: &Vec3i, dt: u32) -> (r: bool)
    requires
        v.in_range(),
    ensures
        r == crate::kinematics::add_scaled_fits(*p, *v, dt as int),
{
    fits_exec(p.x, v.x, dt) && fits_exec(p.y, v.y, dt) && fits_exec(p.z, v.z, dt)
}

fn step_fits_exec(b: &Body, dt: u32) -> (r: bool)
    requires
        b.wf(),
    ensures
        r == step_fits(*b, dt as int),
{
    match b.velocity {
        Some(v) => {
            let moves = vec_fits_exec(&b.position, &v, dt);
            match b.acceleration {
                Some(a) => moves && vec_fits_exec(&v, &a, dt),
                None => moves,
            }
        },
        None => true,
    }
}

fn all_steps_fit(bodies: &Vec<Body>, dt: u32) -> (r: bool)
    requires
        all_wf(bodies@),
    ensures
        r == forall|i: int| 0 <= i < bodies.len() ==> step_fits(#[trigger] bodies[i], dt as int),
{
    let mut i: usize = 0;
    while i < bodies.len()
        invariant
            i <= bodies.len(),
            all_wf(bodies@),
            forall|k: int| 0 <= k < i ==> step_fits(#[trigger] bodies[k], dt as int),
        decreases bodies.len() - i,
    {
        assert(bodies[i as int].wf());
        if !step_fits_exec(&bodies[i], dt) {
            return false;
        }
        i += 1;
    }
    true
}

fn coord_ok_exec(c: i128) -> (r: bool)
    ensures
        r == coord_ok(c as int),
{
    -(crate::vec3::COORD_LIMIT as i128) <= c && c <= crate::vec3::COORD_LIMIT as i128
}

/// The start of a missile fired by a ship at `p` lies in the coordinate range.
pub open spec fn missile_start_fits(p: Vec3i, forward: Vec3i) -> bool {
    &&& coord_ok(p.x - forward.x * MISSILE_FORWARD_SPAWN_OFFSET * 1000)
    &&& coord_ok(p.y - forward.y * MISSILE_FORWARD_SPAWN_OFFSET * 1000)
    &&& coord_ok(p.z - forward.z * MISSILE_FORWARD_SPAWN_OFFSET * 1000)
}

/// Where a missile fired by a ship at `p` facing `forward` starts.
pub open spec fn missile_start(p: Vec3i, forward: Vec3i) -> Vec3i {
    Vec3i {
        x: (p.x - forward.x * MISSILE_FORWARD_SPAWN_OFFSET * 1000) as i64,
        y: (p.y - forward.y * MISSILE_FORWARD_SPAWN_OFFSET * 1000) as i64,
        z: (p.z - forward.z * MISSILE_FORWARD_SPAWN_OFFSET * 1000) as i64,
    }
}


} // verus!
