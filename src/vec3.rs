use vstd::prelude::*;

verus! {

/// Micro-units per world unit.
pub const UNIT: i64 = 1_000_000;

/// Bound on every coordinate the simulation stores, so that squared
/// distances fit in `i128`.
pub const COORD_LIMIT: i64 = 0x1000_0000_0000_0000;

/// A vector of three fixed-point coordinates.
#[derive(Clone, Copy, Debug, PartialEq, Eq, Structural)]
pub struct Vec3i {
    pub x: i64,
    pub y: i64,
    pub z: i64,
}

pub open spec fn coord_ok(c: int) -> bool {
    -(COORD_LIMIT as int) <= c <= COORD_LIMIT as int
}

impl Vec3i {
    pub open spec fn in_range(self) -> bool {
        coord_ok(self.x as int) && coord_ok(self.y as int) && coord_ok(self.z as int)
    }

    pub open spec fn norm_sq(self) -> int {
        self.x * self.x + self.y * self.y + self.z * self.z
    }

    pub fn new(x: i64, y: i64, z: i64) -> (r: Vec3i)
        ensures
            r == (Vec3i { x, y, z }),
    {
        Vec3i { x, y, z }
    }

    pub fn zero() -> (r: Vec3i)
        ensures
            r == (Vec3i { x: 0, y: 0, z: 0 }),
    {
        Vec3i { x: 0, y: 0, z: 0 }
    }
}

/// Squared euclidean distance between two points.
pub open spec fn dist_sq(a: Vec3i, b: Vec3i) -> int {
    (a.x - b.x) * (a.x - b.x) + (a.y - b.y) * (a.y - b.y) + (a.z - b.z) * (a.z - b.z)
}

fn sq(d: i128) -> (r: i128)
    requires
        -0x2000_0000_0000_0000 <= d <= 0x2000_0000_0000_0000,
    ensures
        r == d * d,
        0 <= r <= 0x2000_0000_0000_0000 * 0x2000_0000_0000_0000,
{
    proof {
        assert(0 <= d * d <= 0x2000_0000_0000_0000 * 0x2000_0000_0000_0000) by (nonlinear_arith)
            requires
                -0x2000_0000_0000_0000 <= d <= 0x2000_0000_0000_0000,
        ;
    }
    d * d
}

/// Squared distance between two points whose coordinates are in range.
pub fn distance_sq(a: &Vec3i, b: &Vec3i) -> (r: i128)
    requires
        a.in_range(),
        b.in_range(),
    ensures
        r == dist_sq(*a, *b),
        r >= 0,
{
    let dx = sq(a.x as i128 - b.x as i128);
    let dy = sq(a.y as i128 - b.y as i128);
    let dz = sq(a.z as i128 - b.z as i128);
    dx + dy + dz
}

} // verus!
