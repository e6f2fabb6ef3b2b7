use vstd::prelude::*;

use crate::collision::{all_wf, distinct_ids};
use crate::entity::Body;
use crate::vec3::UNIT;

verus! {

/// Distance from the origin beyond which entities are reaped, in micro-units.
pub const DESPAWN_DISTANCE: i64 = 100 * UNIT;

/// At most one body of the sequence carries the spaceship tag.
pub open spec fn at_most_one_ship(s: Seq<Body>) -> bool {
    forall|i: int, j: int|
        0 <= i < s.len() && 0 <= j < s.len() && #[trigger] s[i].is_ship() && #[trigger] s[j].is_ship()
            ==> i == j
}

/// A body other than the spaceship that lies beyond the despawn distance.
pub open spec fn far_away(b: Body) -> bool {
    !b.is_ship() && b.position.norm_sq() > DESPAWN_DISTANCE * DESPAWN_DISTANCE
}

/// What the despawn phase leaves of `s`: distance reap, then health reap.
pub open spec fn reaped(s: Seq<Body>) -> Seq<Body> {
    s.filter(|b: Body| keep_near(b)).filter(|b: Body| keep_alive(b))
}

pub open spec fn keep_near(b: Body) -> bool {
    !far_away(b)
}

pub open spec fn keep_alive(b: Body) -> bool {
    !b.is_dead()
}

pub open spec fn keep_without_health(b: Body) -> bool {
    b.health is None
}

/// Removing bodies keeps them well formed, their ids distinct and the
/// spaceship unique.
pub proof fn lemma_filter_keeps_invariants(s: Seq<Body>, keep: spec_fn(Body) -> bool)
    requires
        all_wf(s),
        distinct_ids(s),
        at_most_one_ship(s),
    ensures
        all_wf(s.filter(keep)),
        distinct_ids(s.filter(keep)),
        at_most_one_ship(s.filter(keep)),
        forall|i: int| 0 <= i < s.filter(keep).len() ==> s.contains(#[trigger] s.filter(keep)[i]),
    decreases s.len(),
{
    reveal(Seq::filter);
    if s.len() > 0 {
        let rest = s.drop_last();
        assert(all_wf(rest)) by {
            assert forall|i: int| 0 <= i < rest.len() implies #[trigger] rest[i].wf() by {
                assert(s[i].wf());
            }
        }
        assert(at_most_one_ship(rest)) by {
            assert forall|i: int, j: int|
                0 <= i < rest.len() && 0 <= j < rest.len() && #[trigger] rest[i].is_ship()
                    && #[trigger] rest[j].is_ship() implies i == j by {
                assert(s[i].is_ship() && s[j].is_ship());
            }
        }
        lemma_filter_keeps_invariants(rest, keep);
        let sub = rest.filter(keep);
        let last = s.last();
        assert(last.wf());
        assert forall|i: int| 0 <= i < sub.len() implies sub[i].id != last.id && (last.is_ship()
            ==> !sub[i].is_ship()) by {
            assert(rest.contains(sub[i]));
            let k = choose|k: int| 0 <= k < rest.len() && rest[k] == sub[i];
            assert(s[k] == sub[i]);
            assert(s[s.len() - 1] == last);
            if last.is_ship() && sub[i].is_ship() {
                assert(s[k].is_ship() && s[s.len() - 1].is_ship());
            }
        }
        if keep(last) {
            let r = sub.push(last);
            assert(r == s.filter(keep));
            assert forall|i: int| 0 <= i < r.len() implies s.contains(#[trigger] r[i]) by {
                if i < sub.len() {
                    let k = choose|k: int| 0 <= k < rest.len() && rest[k] == sub[i];
                    assert(s[k] == r[i]);
                } else {
                    assert(s[s.len() - 1] == r[i]);
                }
            }
            assert(all_wf(r)) by {
                assert forall|i: int| 0 <= i < r.len() implies #[trigger] r[i].wf() by {
                    if i < sub.len() {
                        assert(sub[i].wf());
                    }
                }
            }
            assert(at_most_one_ship(r)) by {
                assert forall|i: int, j: int|
                    0 <= i < r.len() && 0 <= j < r.len() && #[trigger] r[i].is_ship()
                        && #[trigger] r[j].is_ship() implies i == j by {
                    if i < sub.len() && j < sub.len() {
                        assert(sub[i].is_ship() && sub[j].is_ship());
                    }
                }
            }
        } else {
            assert(sub == s.filter(keep));
            assert forall|i: int| 0 <= i < sub.len() implies s.contains(#[trigger] sub[i]) by {
                let k = choose|k: int| 0 <= k < rest.len() && rest[k] == sub[i];
                assert(s[k] == sub[i]);
            }
        }
    }
}

proof fn lemma_filter_step(s: Seq<Body>, keep: spec_fn(Body) -> bool, i: int)
    requires
        0 <= i < s.len(),
    ensures
        s.subrange(0, i + 1).filter(keep) == (if keep(s[i]) {
            s.subrange(0, i).filter(keep).push(s[i])
        } else {
            s.subrange(0, i).filter(keep)
        }),
{
    reveal(Seq::filter);
    assert(s.subrange(0, i + 1).drop_last() =~= s.subrange(0, i));
}

fn far_away_exec(b: &Body) -> (r: bool)
    requires
        b.wf(),
    ensures
        r == far_away(*b),
{
    let origin = crate::vec3::Vec3i::zero();
    let d = crate::vec3::distance_sq(&b.position, &origin);
    proof {
        assert(crate::vec3::dist_sq(b.position, origin) == b.position.norm_sq());
    }
    let reach = DESPAWN_DISTANCE as i128;
    proof {
        assert(reach * reach == 10_000_000_000_000_000) by (nonlinear_arith)
            requires
                reach == 100_000_000,
        ;
    }
    b.spaceship.is_none() && d > reach * reach
}

/// Distance reap: removes every body other than the spaceship that lies
/// beyond the despawn distance.
pub fn despawn_far_away_entities(bodies: &Vec<Body>) -> (r: Vec<Body>)
    requires
        all_wf(bodies@),
    ensures
        r@ == bodies@.filter(|b: Body| keep_near(b)),
        forall|i: int| 0 <= i < r.len() ==> !far_away(#[trigger] r[i]),
{
    let mut r: Vec<Body> = Vec::new();
    let mut i: usize = 0;
    while i < bodies.len()
        invariant
            i <= bodies.len(),
            all_wf(bodies@),
            r@ == bodies@.subrange(0, i as int).filter(|b: Body| keep_near(b)),
        decreases bodies.len() - i,
    {
        proof {
            lemma_filter_step(bodies@, |b: Body| keep_near(b), i as int);
        }
        assert(bodies[i as int].wf());
        if !far_away_exec(&bodies[i]) {
            r.push(bodies[i]);
        }
        i += 1;
    }
    assert(bodies@.subrange(0, i as int) =~= bodies@);
    proof {
        assert forall|i: int| 0 <= i < r.len() implies !far_away(#[trigger] r[i]) by {
            bodies@.lemma_filter_pred(|b: Body| keep_near(b), i);
        }
    }
    r
}

/// Health reap: removes every body whose health is zero or below.
pub fn despawn_dead_entities(bodies: &Vec<Body>) -> (r: Vec<Body>)
    ensures
        r@ == bodies@.filter(|b: Body| keep_alive(b)),
        forall|i: int| 0 <= i < r.len() ==> !(#[trigger] r[i]).is_dead(),
{
    let mut r: Vec<Body> = Vec::new();
    let mut i: usize = 0;
    while i < bodies.len()
        invariant
            i <= bodies.len(),
            r@ == bodies@.subrange(0, i as int).filter(|b: Body| keep_alive(b)),
        decreases bodies.len() - i,
    {
        proof {
            lemma_filter_step(bodies@, |b: Body| keep_alive(b), i as int);
        }
        let dead = match bodies[i].health {
            Some(h) => h.is_dead(),
            None => false,
        };
        if !dead {
            r.push(bodies[i]);
        }
        i += 1;
    }
    assert(bodies@.subrange(0, i as int) =~= bodies@);
    proof {
        assert forall|i: int| 0 <= i < r.len() implies !(#[trigger] r[i]).is_dead() by {
            bodies@.lemma_filter_pred(|b: Body| keep_alive(b), i);
        }
    }
    r
}

/// Wipe on game over: removes every body that carries health.
pub fn despawn_all_entities(bodies: &Vec<Body>) -> (r: Vec<Body>)
    ensures
        r@ == bodies@.filter(|b: Body| keep_without_health(b)),
        forall|i: int| 0 <= i < r.len() ==> (#[trigger] r[i]).health is None,
{
    let mut r: Vec<Body> = Vec::new();
    let mut i: usize = 0;
    while i < bodies.len()
        invariant
            i <= bodies.len(),
            r@ == bodies@.subrange(0, i as int).filter(|b: Body| keep_without_health(b)),
        decreases bodies.len() - i,
    {
        proof {
            lemma_filter_step(bodies@, |b: Body| keep_without_health(b), i as int);
        }
        if bodies[i].health.is_none() {
            r.push(bodies[i]);
        }
        i += 1;
    }
    assert(bodies@.subrange(0, i as int) =~= bodies@);
    proof {
        assert forall|i: int| 0 <= i < r.len() implies (#[trigger] r[i]).health is None by {
            bodies@.lemma_filter_pred(|b: Body| keep_without_health(b), i);
        }
    }
    r
}

} // verus!

verus! {

proof fn lemma_filtered_entity_absent(s: Seq<Body>, keep: spec_fn(Body) -> bool, j: int)
    requires
        distinct_ids(s),
        0 <= j < s.len(),
        !keep(s[j]),
    ensures
        forall|k: int| 0 <= k < s.filter(keep).len() ==> (#[trigger] s.filter(keep)[k]).id != s[j].id,
{
    assert forall|k: int| 0 <= k < s.filter(keep).len() implies (#[trigger] s.filter(keep)[k]).id
        != s[j].id by {
        let b = s.filter(keep)[k];
        s.lemma_filter_pred(keep, k);
        s.lemma_filter_contains_rev(keep, b);
        let i = choose|i: int| 0 <= i < s.len() && s[i] == b;
        assert(s[i] == b);
    }
}

/// An entity that is dead when the despawn phase starts, or that is not the
/// spaceship and lies beyond the despawn distance, is absent once the phase
/// (distance reap, then health reap) is over.
pub proof fn lemma_reaped_entity_absent(s: Seq<Body>, j: int)
    requires
        all_wf(s),
        distinct_ids(s),
        at_most_one_ship(s),
        0 <= j < s.len(),
        s[j].is_dead() || far_away(s[j]),
    ensures
        forall|k: int| 0 <= k < reaped(s).len() ==> (#[trigger] reaped(s)[k]).id != s[j].id,
{
    let near = s.filter(|b: Body| keep_near(b));
    let alive = near.filter(|b: Body| keep_alive(b));
    assert(alive == reaped(s));
    if far_away(s[j]) {
        lemma_filtered_entity_absent(s, |b: Body| keep_near(b), j);
        assert forall|k: int| 0 <= k < alive.len() implies (#[trigger] alive[k]).id != s[j].id by {
            near.lemma_filter_contains_rev(|b: Body| keep_alive(b), alive[k]);
            assert(near.contains(alive[k]));
        }
    } else {
        s.lemma_filter_contains(|b: Body| keep_near(b), j);
        let m = choose|m: int| 0 <= m < near.len() && near[m] == s[j];
        lemma_filter_keeps_invariants(s, |b: Body| keep_near(b));
        lemma_filtered_entity_absent(near, |b: Body| keep_alive(b), m);
    }
}

} // verus!
