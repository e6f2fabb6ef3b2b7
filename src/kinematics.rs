use vstd::prelude::*;

use crate::collision::all_wf;
use crate::entity::Body;
use crate::vec3::{coord_ok, Vec3i};

verus! {

/// `p + v * dt`, coordinate by coordinate.
pub open spec fn add_scaled(p: Vec3i, v: Vec3i, dt: int) -> Vec3i {
    Vec3i { x: (p.x + v.x * dt) as i64, y: (p.y + v.y * dt) as i64, z: (p.z + v.z * dt) as i64 }
}

/// `p + v * dt` stays inside the coordinate bounds.
pub open spec fn add_scaled_fits(p: Vec3i, v: Vec3i, dt: int) -> bool {
    coord_ok(p.x + v.x * dt) && coord_ok(p.y + v.y * dt) && coord_ok(p.z + v.z * dt)
}

/// The body after one integration step of `dt`: position advanced by the
/// velocity, velocity advanced by the acceleration.
pub open spec fn moved(b: Body, dt: int) -> Body {
    Body {
        position: match b.velocity {
            Some(v) => add_scaled(b.position, v, dt),
            None => b.position,
        },
        velocity: match (b.velocity, b.acceleration) {
            (Some(v), Some(a)) => Some(add_scaled(v, a, dt)),
            _ => b.velocity,
        },
        ..b
    }
}

/// One integration step of `dt` keeps the body's coordinates in range.
pub open spec fn step_fits(b: Body, dt: int) -> bool {
    match (b.velocity, b.acceleration) {
        (Some(v), Some(a)) => add_scaled_fits(b.position, v, dt) && add_scaled_fits(v, a, dt),
        (Some(v), None) => add_scaled_fits(b.position, v, dt),
        _ => true,
    }
}

/// The body after `n` integration steps of `dt`.
pub open spec fn advanced(b: Body, dt: int, n: nat) -> Body
    decreases n,
{
    if n == 0 {
        b
    } else {
        moved(advanced(b, dt, (n - 1) as nat), dt)
    }
}

fn scaled_coord(p: i64, v: i64, dt: u32) -> (r: i64)
    requires
        coord_ok(v as int),
        coord_ok(p + v * dt),
    ensures
        r == p + v * dt,
{
    proof {
        assert(-0x1000_0000_0000_0000 * 0x1_0000_0000 <= v * dt <= 0x1000_0000_0000_0000
            * 0x1_0000_0000) by (nonlinear_arith)
            requires
                coord_ok(v as int),
                0 <= dt <= 0xffff_ffff,
        ;
    }
    (p as i128 + v as i128 * dt as i128) as i64
}

fn add_scaled_vec(p: &Vec3i, v: &Vec3i, dt: u32) -> (r: Vec3i)
    requires
        v.in_range(),
        add_scaled_fits(*p, *v, dt as int),
    ensures
        r == add_scaled(*p, *v, dt as int),
        r.in_range(),
{
    Vec3i { x: scaled_coord(p.x, v.x, dt), y: scaled_coord(p.y, v.y, dt), z: scaled_coord(p.z, v.z, dt) }
}

/// One integration step of one body.
pub fn integrate_body(b: &Body, dt: u32) -> (r: Body)
    requires
        b.wf(),
        step_fits(*b, dt as int),
    ensures
        r == moved(*b, dt as int),
        r.wf(),
{
    match b.velocity {
        Some(v) => {
            let position = add_scaled_vec(&b.position, &v, dt);
            let velocity = match b.acceleration {
                Some(a) => Some(add_scaled_vec(&v, &a, dt)),
                None => Some(v),
            };
            Body { position, velocity, ..*b }
        },
        None => *b,
    }
}

/// Integration phase: every body advances by one step of `dt`.
pub fn integrate(bodies: &Vec<Body>, dt: u32) -> (r: Vec<Body>)
    requires
        all_wf(bodies@),
        forall|i: int| 0 <= i < bodies.len() ==> step_fits(#[trigger] bodies[i], dt as int),
    ensures
        r.len() == bodies.len(),
        forall|i: int| 0 <= i < r.len() ==> #[trigger] r[i] == moved(bodies[i], dt as int),
        all_wf(r@),
{
    let n = bodies.len();
    let mut r: Vec<Body> = Vec::new();
    let mut i: usize = 0;
    while i < n
        invariant
            n == bodies.len(),
            i <= n,
            r.len() == i,
            all_wf(bodies@),
            forall|k: int| 0 <= k < bodies.len() ==> step_fits(#[trigger] bodies[k], dt as int),
            forall|k: int| 0 <= k < i ==> #[trigger] r[k] == moved(bodies[k], dt as int),
            all_wf(r@),
        decreases n - i,
    {
        assert(bodies[i as int].wf());
        let nb = integrate_body(&bodies[i], dt);
        r.push(nb);
        i += 1;
    }
    r
}

/// Without acceleration, `n` steps of `dt` move a body by `v * n * dt`, as
/// long as every intermediate position stays in range.
pub proof fn lemma_uniform_motion(b: Body, v: Vec3i, dt: int, n: nat)
    requires
        b.velocity == Some(v),
        b.acceleration is None || b.acceleration == Some(Vec3i { x: 0, y: 0, z: 0 }),
        forall|k: nat| k <= n ==> #[trigger] add_scaled_fits(b.position, v, k * dt),
    ensures
        advanced(b, dt, n).velocity == Some(v),
        advanced(b, dt, n).acceleration == b.acceleration,
        advanced(b, dt, n).position.x == b.position.x + v.x * n * dt,
        advanced(b, dt, n).position.y == b.position.y + v.y * n * dt,
        advanced(b, dt, n).position.z == b.position.z + v.z * n * dt,
    decreases n,
{
    if n == 0 {
        assert(add_scaled_fits(b.position, v, 0 * dt));
        assert(v.x * 0 * dt == 0 && v.y * 0 * dt == 0 && v.z * 0 * dt == 0) by (nonlinear_arith);
    } else {
        let m = (n - 1) as nat;
        lemma_uniform_motion(b, v, dt, m);
        let z = Vec3i { x: 0, y: 0, z: 0 };
        assert(add_scaled(v, z, dt) == v);
        assert(add_scaled_fits(b.position, v, n * dt));
        assert(add_scaled_fits(b.position, v, m * dt));
        assert(v.x * m * dt + v.x * dt == v.x * n * dt && v.y * m * dt + v.y * dt == v.y * n * dt
            && v.z * m * dt + v.z * dt == v.z * n * dt) by (nonlinear_arith)
            requires
                m + 1 == n,
        ;
        assert(v.x * (m * dt) == v.x * m * dt && v.y * (m * dt) == v.y * m * dt && v.z * (m * dt)
            == v.z * m * dt && v.x * (n * dt) == v.x * n * dt && v.y * (n * dt) == v.y * n * dt
            && v.z * (n * dt) == v.z * n * dt) by (nonlinear_arith);
    }
}

} // verus!
