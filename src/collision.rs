use vstd::prelude::*;

use crate::entity::Body;
use crate::health::{Health, DAMAGE_LIMIT, HEALTH_LIMIT};
use crate::vec3::{dist_sq, distance_sq};

verus! {

/// Both bodies carry a collider and their spheres overlap strictly.
pub open spec fn overlap(a: Body, b: Body) -> bool {
    &&& a.collider is Some
    &&& b.collider is Some
    &&& dist_sq(a.position, b.position) < (a.collider.unwrap().radius + b.collider.unwrap().radius)
        * (a.collider.unwrap().radius + b.collider.unwrap().radius)
}

/// Every body of the sequence is well formed.
pub open spec fn all_wf(s: Seq<Body>) -> bool {
    forall|i: int| 0 <= i < s.len() ==> #[trigger] s[i].wf()
}

/// No two bodies of the sequence share an id.
pub open spec fn distinct_ids(s: Seq<Body>) -> bool {
    forall|i: int, j: int| 0 <= i < s.len() && 0 <= j < s.len() && i != j ==> s[i].id != s[j].id
}

/// Ids of the bodies among the first `upto` of `s`, other than the `i`th,
/// that overlap the `i`th, in order.
pub open spec fn hits_upto(s: Seq<Body>, i: int, upto: int) -> Seq<u64>
    decreases upto,
{
    if upto <= 0 {
        seq![]
    } else {
        let prev = hits_upto(s, i, upto - 1);
        if upto - 1 != i && overlap(s[i], s[upto - 1]) {
            prev.push(s[upto - 1].id)
        } else {
            prev
        }
    }
}

/// The hit list published for the `i`th body.
pub open spec fn hits_of(s: Seq<Body>, i: int) -> Seq<u64> {
    hits_upto(s, i, s.len() as int)
}

/// Damage dealt by the body with id `id` (the last such body), zero if none.
pub open spec fn damage_from(s: Seq<Body>, id: u64) -> int
    decreases s.len(),
{
    if s.len() == 0 {
        0
    } else if s.last().id == id {
        s.last().damage_dealt()
    } else {
        damage_from(s.drop_last(), id)
    }
}

/// Sum of the damage dealt by every entity of a hit list.
pub open spec fn total_damage(s: Seq<Body>, hits: Seq<u64>) -> int
    decreases hits.len(),
{
    if hits.len() == 0 {
        0
    } else {
        total_damage(s, hits.drop_last()) + damage_from(s, hits.last())
    }
}

/// `b` after taking the damage of its hit list, if it receives damage.
pub open spec fn damaged(b: Body, s: Seq<Body>, hits: Seq<u64>) -> Body {
    if b.receives_damage() {
        Body {
            health: Some(Health { value: (b.health.unwrap().value - total_damage(s, hits)) as i64 }),
            ..b
        }
    } else {
        b
    }
}

/// Health of every damage receiver covers the worst damage its hit list can deal.
pub open spec fn damage_fits(s: Seq<Body>, hits: Seq<Seq<u64>>) -> bool {
    forall|i: int|
        0 <= i < s.len() && #[trigger] s[i].receives_damage() ==> s[i].health.unwrap().value
            - hits[i].len() * DAMAGE_LIMIT >= -HEALTH_LIMIT
}

pub proof fn lemma_overlap_symmetric(a: Body, b: Body)
    ensures
        overlap(a, b) == overlap(b, a),
{
    assert(dist_sq(a.position, b.position) == dist_sq(b.position, a.position)) by (nonlinear_arith);
}

pub proof fn lemma_hits_upto_contains(s: Seq<Body>, i: int, upto: int, id: u64)
    requires
        0 <= upto <= s.len(),
        0 <= i < s.len(),
    ensures
        hits_upto(s, i, upto).contains(id) <==> exists|j: int|
            0 <= j < upto && j != i && overlap(s[i], s[j]) && s[j].id == id,
        hits_upto(s, i, upto).len() <= upto,
    decreases upto,
{
    if upto > 0 {
        lemma_hits_upto_contains(s, i, upto - 1, id);
        let prev = hits_upto(s, i, upto - 1);
        if upto - 1 != i && overlap(s[i], s[upto - 1]) {
            let ext = prev.push(s[upto - 1].id);
            assert(ext.contains(id) <==> (prev.contains(id) || s[upto - 1].id == id)) by {
                if ext.contains(id) {
                    let k = choose|k: int| 0 <= k < ext.len() && ext[k] == id;
                    if k < prev.len() {
                        assert(prev[k] == id);
                    }
                }
                if prev.contains(id) {
                    let k = choose|k: int| 0 <= k < prev.len() && prev[k] == id;
                    assert(ext[k] == id);
                }
                if s[upto - 1].id == id {
                    assert(ext[prev.len() as int] == id);
                }
            }
        }
    }
}

/// Overlap test between two bodies.
pub fn colliding(a: &Body, b: &Body) -> (r: bool)
    requires
        a.wf(),
        b.wf(),
    ensures
        r == overlap(*a, *b),
{
    match (a.collider, b.collider) {
        (Some(ca), Some(cb)) => {
            let d = distance_sq(&a.position, &b.position);
            let reach = ca.radius as i128 + cb.radius as i128;
            proof {
                assert(0 <= reach * reach <= 0x2000_0000_0000_0000 * 0x2000_0000_0000_0000)
                    by (nonlinear_arith)
                    requires
                        0 <= reach <= 0x2000_0000_0000_0000,
                ;
            }
            d < reach * reach
        },
        _ => false,
    }
}

/// Pair search and publication: the hit list of every body holds the ids of
/// the other bodies whose spheres overlap its own, in the order of `bodies`.
pub fn detect_collisions(bodies: &Vec<Body>) -> (r: Vec<Vec<u64>>)
    requires
        all_wf(bodies@),
    ensures
        r.len() == bodies.len(),
        forall|i: int| 0 <= i < r.len() ==> (#[trigger] r[i])@ == hits_of(bodies@, i),
        distinct_ids(bodies@) ==> forall|a: int, b: int|
            0 <= a < r.len() && 0 <= b < r.len() && a != b ==> (overlap(bodies[a], bodies[b])
                <==> #[trigger] r[a]@.contains(#[trigger] bodies[b].id)),
{
    let n = bodies.len();
    let mut r: Vec<Vec<u64>> = Vec::new();
    let mut i: usize = 0;
    while i < n
        invariant
            n == bodies.len(),
            i <= n,
            r.len() == i,
            all_wf(bodies@),
            forall|k: int| 0 <= k < i ==> (#[trigger] r[k])@ == hits_of(bodies@, k),
        decreases n - i,
    {
        let mut hits: Vec<u64> = Vec::new();
        let mut j: usize = 0;
        while j < n
            invariant
                n == bodies.len(),
                i < n,
                j <= n,
                all_wf(bodies@),
                hits@ == hits_upto(bodies@, i as int, j as int),
            decreases n - j,
        {
            if j != i && colliding(&bodies[i], &bodies[j]) {
                hits.push(bodies[j].id);
            }
            j += 1;
        }
        r.push(hits);
        i += 1;
    }
    proof {
        if distinct_ids(bodies@) {
            assert forall|a: int, b: int|
                0 <= a < r.len() && 0 <= b < r.len() && a != b implies (overlap(bodies[a], bodies[b])
                <==> #[trigger] r[a]@.contains(#[trigger] bodies[b].id)) by {
                lemma_collision_publication(bodies@, a, b);
            }
        }
    }
    r
}

/// Damage dealt by the body with id `id`, zero if there is none.
pub fn damage_of(bodies: &Vec<Body>, id: u64) -> (r: i64)
    ensures
        r == damage_from(bodies@, id),
{
    let mut j = bodies.len();
    assert(bodies@.subrange(0, j as int) =~= bodies@);
    while j > 0
        invariant
            j <= bodies.len(),
            damage_from(bodies@, id) == damage_from(bodies@.subrange(0, j as int), id),
        decreases j,
    {
        assert(bodies@.subrange(0, j as int).drop_last() =~= bodies@.subrange(0, j - 1));
        if bodies[j - 1].id == id {
            return match bodies[j - 1].damage {
                Some(d) => d.amount,
                None => 0,
            };
        }
        j -= 1;
    }
    0
}

pub proof fn lemma_damage_from_bounds(s: Seq<Body>, id: u64)
    requires
        all_wf(s),
    ensures
        0 <= damage_from(s, id) <= DAMAGE_LIMIT,
    decreases s.len(),
{
    if s.len() > 0 {
        assert(s.last().wf());
        assert(all_wf(s.drop_last())) by {
            assert forall|i: int| 0 <= i < s.drop_last().len() implies #[trigger] s.drop_last()[i].wf() by {
                assert(s[i].wf());
            }
        }
        lemma_damage_from_bounds(s.drop_last(), id);
    }
}

pub proof fn lemma_total_damage_bounds(s: Seq<Body>, hits: Seq<u64>)
    requires
        all_wf(s),
    ensures
        0 <= total_damage(s, hits) <= hits.len() * DAMAGE_LIMIT,
    decreases hits.len(),
{
    if hits.len() > 0 {
        lemma_total_damage_bounds(s, hits.drop_last());
        lemma_damage_from_bounds(s, hits.last());
    }
}

/// Damage application: every body that receives damage loses the damage of
/// each entity in its hit list; the others are unchanged.
pub fn apply_collision_damage(bodies: &Vec<Body>, hits: &Vec<Vec<u64>>) -> (r: Vec<Body>)
    requires
        all_wf(bodies@),
        hits.len() == bodies.len(),
        damage_fits(bodies@, hits@.map_values(|h: Vec<u64>| h@)),
    ensures
        r.len() == bodies.len(),
        forall|i: int| 0 <= i < r.len() ==> #[trigger] r[i] == damaged(bodies[i], bodies@, hits[i]@),
        all_wf(r@),
{
    let n = bodies.len();
    let mut r: Vec<Body> = Vec::new();
    let mut i: usize = 0;
    while i < n
        invariant
            n == bodies.len(),
            hits.len() == n,
            i <= n,
            r.len() == i,
            all_wf(bodies@),
            damage_fits(bodies@, hits@.map_values(|h: Vec<u64>| h@)),
            forall|k: int| 0 <= k < i ==> #[trigger] r[k] == damaged(bodies[k], bodies@, hits[k]@),
            all_wf(r@),
        decreases n - i,
    {
        let b = bodies[i];
        assert(b.wf());
        let receives = (b.asteroid.is_some() || b.spaceship.is_some() || b.missile.is_some())
            && !(b.spaceship.is_some() && b.shield.is_some());
        let nb = match b.health {
            Some(h) if receives => {
                let hs = &hits[i];
                assert(hits@.map_values(|h: Vec<u64>| h@)[i as int] == hs@);
                assert(bodies@[i as int].receives_damage());
                assert(b.health.unwrap().value - hs@.len() * DAMAGE_LIMIT >= -HEALTH_LIMIT);
                let mut v = h.value;
                let mut k: usize = 0;
                while k < hs.len()
                    invariant
                        k <= hs.len(),
                        all_wf(bodies@),
                        h.value - hs@.len() * DAMAGE_LIMIT >= -HEALTH_LIMIT,
                        v == h.value - total_damage(bodies@, hs@.subrange(0, k as int)),
                    decreases hs.len() - k,
                {
                    assert(hs@.subrange(0, k + 1).drop_last() =~= hs@.subrange(0, k as int));
                    proof {
                        lemma_total_damage_bounds(bodies@, hs@.subrange(0, k + 1));
                        assert((k + 1) * DAMAGE_LIMIT <= hs@.len() * DAMAGE_LIMIT) by (nonlinear_arith)
                            requires
                                k + 1 <= hs@.len(),
                        ;
                    }
                    let d = damage_of(bodies, hs[k]);
                    v = v - d;
                    k += 1;
                }
                assert(hs@.subrange(0, k as int) =~= hs@);
                proof {
                    lemma_total_damage_bounds(bodies@, hs@);
                }
                Body { health: Some(Health { value: v }), ..b }
            },
            _ => b,
        };
        r.push(nb);
        i += 1;
    }
    r
}

} // verus!

verus! {

/// Two distinct colliders whose spheres overlap appear in each other's hit
/// lists; two that do not overlap appear in neither list.
pub proof fn lemma_collision_publication(s: Seq<Body>, a: int, b: int)
    requires
        distinct_ids(s),
        0 <= a < s.len(),
        0 <= b < s.len(),
        a != b,
    ensures
        overlap(s[a], s[b]) ==> hits_of(s, a).contains(s[b].id) && hits_of(s, b).contains(s[a].id),
        !overlap(s[a], s[b]) ==> !hits_of(s, a).contains(s[b].id) && !hits_of(s, b).contains(
            s[a].id,
        ),
{
    lemma_overlap_symmetric(s[a], s[b]);
    lemma_hits_upto_contains(s, a, s.len() as int, s[b].id);
    lemma_hits_upto_contains(s, b, s.len() as int, s[a].id);
}

proof fn lemma_hits_single(s: Seq<Body>, a: int, b: int, upto: int)
    requires
        0 <= a < s.len(),
        0 <= b < s.len(),
        a != b,
        0 <= upto <= s.len(),
        overlap(s[a], s[b]),
        forall|k: int| 0 <= k < s.len() && k != a && k != b ==> !overlap(s[a], #[trigger] s[k]),
    ensures
        hits_upto(s, a, upto) == (if upto > b { seq![s[b].id] } else { Seq::<u64>::empty() }),
    decreases upto,
{
    if upto > 0 {
        lemma_hits_single(s, a, b, upto - 1);
        if upto - 1 == b {
            assert(Seq::<u64>::empty().push(s[b].id) =~= seq![s[b].id]);
        }
    }
}

proof fn lemma_damage_from_index(s: Seq<Body>, j: int)
    requires
        distinct_ids(s),
        0 <= j < s.len(),
    ensures
        damage_from(s, s[j].id) == s[j].damage_dealt(),
    decreases s.len(),
{
    if j != s.len() - 1 {
        assert(s.drop_last()[j] == s[j]);
        lemma_damage_from_index(s.drop_last(), j);
    }
}

/// When two damage receivers overlap each other and nothing else, each loses
/// exactly the damage of the other.
pub proof fn lemma_pair_damage(s: Seq<Body>, a: int, b: int)
    requires
        all_wf(s),
        distinct_ids(s),
        0 <= a < s.len(),
        0 <= b < s.len(),
        a != b,
        overlap(s[a], s[b]),
        forall|k: int|
            0 <= k < s.len() && k != a && k != b ==> !overlap(s[a], #[trigger] s[k]) && !overlap(
                s[b],
                s[k],
            ),
        s[a].receives_damage(),
        s[b].receives_damage(),
    ensures
        damaged(s[a], s, hits_of(s, a)).health.unwrap().value == s[a].health.unwrap().value
            - s[b].damage_dealt(),
        damaged(s[b], s, hits_of(s, b)).health.unwrap().value == s[b].health.unwrap().value
            - s[a].damage_dealt(),
{
    lemma_overlap_symmetric(s[a], s[b]);
    lemma_hits_single(s, a, b, s.len() as int);
    lemma_hits_single(s, b, a, s.len() as int);
    lemma_damage_from_index(s, a);
    lemma_damage_from_index(s, b);
    assert(seq![s[b].id].drop_last() =~= Seq::<u64>::empty());
    assert(seq![s[a].id].drop_last() =~= Seq::<u64>::empty());
    assert(s[a].wf() && s[b].wf());
    assert(total_damage(s, Seq::<u64>::empty()) == 0);
    assert(total_damage(s, seq![s[b].id]) == s[b].damage_dealt());
    assert(total_damage(s, seq![s[a].id]) == s[a].damage_dealt());
}

} // verus!

verus! {

/// A spaceship that carries the shield keeps its health through the
/// collision phase, whatever its hit list holds.
pub proof fn lemma_shielded_ship_keeps_health(b: Body, s: Seq<Body>, hits: Seq<u64>)
    requires
        b.is_ship(),
        b.shield is Some,
    ensures
        damaged(b, s, hits) == b,
{
}

} // verus!

verus! {

proof fn lemma_total_damage_remove(s: Seq<Body>, h: Seq<u64>, k: int)
    requires
        0 <= k < h.len(),
    ensures
        total_damage(s, h) == total_damage(s, h.remove(k)) + damage_from(s, h[k]),
    decreases h.len(),
{
    if k < h.len() - 1 {
        let r = h.remove(k);
        lemma_total_damage_remove(s, h.drop_last(), k);
        assert(h.drop_last().remove(k) =~= r.drop_last());
        assert(r.last() == h.last());
    } else {
        assert(h.remove(k) =~= h.drop_last());
    }
}

proof fn lemma_total_damage_order(s: Seq<Body>, h1: Seq<u64>, h2: Seq<u64>)
    requires
        h1.to_multiset() == h2.to_multiset(),
    ensures
        total_damage(s, h1) == total_damage(s, h2),
    decreases h1.len(),
{
    h1.to_multiset_ensures();
    h2.to_multiset_ensures();
    if h1.len() == 0 {
        assert(h2.len() == 0);
    } else {
        let x = h1.last();
        let rest = h1.drop_last();
        rest.to_multiset_ensures();
        assert(rest.push(x) =~= h1);
        assert(h2.to_multiset().count(x) > 0);
        assert(h2.contains(x));
        let k = choose|k: int| 0 <= k < h2.len() && h2[k] == x;
        assert(h2.remove(k).to_multiset() =~= rest.to_multiset());
        lemma_total_damage_order(s, rest, h2.remove(k));
        lemma_total_damage_remove(s, h2, k);
    }
}

/// The damage a body takes in the collision phase depends on which entities
/// its hit list holds, not on the order in which the pairs were found.
pub proof fn lemma_damage_order_independent(b: Body, s: Seq<Body>, h1: Seq<u64>, h2: Seq<u64>)
    requires
        h1.to_multiset() == h2.to_multiset(),
    ensures
        damaged(b, s, h1) == damaged(b, s, h2),
{
    lemma_total_damage_order(s, h1, h2);
}

} // verus!
