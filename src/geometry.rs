use vstd::prelude::*;
use vstd::arithmetic::div_mod::{lemma_div_is_ordered, lemma_div_multiples_vanish};

verus! {

/// Thousandths of a unit in one world unit.
pub const UNIT: i64 = 1000;

/// Largest magnitude of a coordinate (2^60 thousandths of a unit).
pub const WORLD_LIMIT: i64 = 1152921504606846976;

/// Largest magnitude of a velocity component (2^30 thousandths of a unit per millisecond).
pub const SPEED_LIMIT: i64 = 1073741824;

/// A point or displacement in the 3D world, in thousandths of a unit.
/// `x` and `y` span the sea surface; `z` is height, negative under water.
#[derive(Clone, Copy, Debug, PartialEq, Eq, Structural)]
pub struct Vec3 {
    pub x: i64,
    pub y: i64,
    pub z: i64,
}

/// A 2D direction or screen position.
#[derive(Clone, Copy, Debug, PartialEq, Eq, Structural)]
pub struct Vec2 {
    pub x: i64,
    pub y: i64,
}

pub open spec fn coord_ok(c: int) -> bool {
    -WORLD_LIMIT <= c <= WORLD_LIMIT
}

pub open spec fn speed_ok(c: int) -> bool {
    -SPEED_LIMIT <= c <= SPEED_LIMIT
}

/// The value `c` brought back into the world's bounds.
pub open spec fn clamp_coord(c: int) -> int {
    if c < -WORLD_LIMIT {
        -WORLD_LIMIT as int
    } else if c > WORLD_LIMIT {
        WORLD_LIMIT as int
    } else {
        c
    }
}

/// Squared Euclidean distance between two points.
pub open spec fn dist_sq(a: Vec3, b: Vec3) -> int {
    (a.x - b.x) * (a.x - b.x) + (a.y - b.y) * (a.y - b.y) + (a.z - b.z) * (a.z - b.z)
}

/// A point at Euclidean distance at most `r` (r >= 0) from `c`.
pub open spec fn in_radius(p: Vec3, c: Vec3, r: int) -> bool {
    dist_sq(p, c) <= r * r
}

/// The integer square root: the largest `s` with `s * s <= n`.
pub open spec fn is_isqrt(n: int, s: int) -> bool {
    0 <= s && s * s <= n && n < (s + 1) * (s + 1)
}

impl Vec3 {
    pub open spec fn in_world(self) -> bool {
        coord_ok(self.x as int) && coord_ok(self.y as int) && coord_ok(self.z as int)
    }

    pub open spec fn within_speed(self) -> bool {
        speed_ok(self.x as int) && speed_ok(self.y as int) && speed_ok(self.z as int)
    }

    /// Position after moving with velocity `v` for `dt` milliseconds, kept in the world.
    pub open spec fn moved(self, v: Vec3, dt: int) -> Vec3 {
        Vec3 {
            x: clamp_coord(self.x + v.x * dt) as i64,
            y: clamp_coord(self.y + v.y * dt) as i64,
            z: clamp_coord(self.z + v.z * dt) as i64,
        }
    }

    pub fn new(x: i64, y: i64, z: i64) -> (r: Vec3)
        ensures
            r == (Vec3 { x, y, z }),
    {
        Vec3 { x, y, z }
    }

    pub fn zero() -> (r: Vec3)
        ensures
            r == (Vec3 { x: 0, y: 0, z: 0 }),
    {
        Vec3 { x: 0, y: 0, z: 0 }
    }

    /// Moves `self` by velocity `v` over `dt` milliseconds; a coordinate that
    /// would leave the world stops at its edge.
    pub fn advanced(&self, v: &Vec3, dt: u32) -> (r: Vec3)
        requires
            self.in_world(),
            v.within_speed(),
        ensures
            r == self.moved(*v, dt as int),
            r.in_world(),
    {
        Vec3 {
            x: step_coord(self.x, v.x, dt),
            y: step_coord(self.y, v.y, dt),
            z: step_coord(self.z, v.z, dt),
        }
    }

    /// Whether every coordinate lies inside the world.
    pub fn is_in_world(&self) -> (r: bool)
        ensures
            r == self.in_world(),
    {
        -WORLD_LIMIT <= self.x && self.x <= WORLD_LIMIT && -WORLD_LIMIT <= self.y && self.y <= WORLD_LIMIT
            && -WORLD_LIMIT <= self.z && self.z <= WORLD_LIMIT
    }

    /// Squared Euclidean distance to `other`.
    pub fn distance_sq(&self, other: &Vec3) -> (r: i128)
        requires
            self.in_world(),
            other.in_world(),
        ensures
            r == dist_sq(*self, *other),
            0 <= r <= 3 * MAX_DIFF_SQ,
    {
        let dx = self.x as i128 - other.x as i128;
        let dy = self.y as i128 - other.y as i128;
        let dz = self.z as i128 - other.z as i128;
        proof {
            lemma_square_bound(dx as int);
            lemma_square_bound(dy as int);
            lemma_square_bound(dz as int);
        }
        dx * dx + dy * dy + dz * dz
    }

    /// Whether `other` is at Euclidean distance at most `radius` from `self`.
    pub fn is_within(&self, other: &Vec3, radius: i64) -> (r: bool)
        requires
            self.in_world(),
            other.in_world(),
            0 <= radius <= WORLD_LIMIT,
        ensures
            r == in_radius(*other, *self, radius as int),
    {
        let d = self.distance_sq(other);
        let rr = radius as i128;
        proof {
            lemma_square_bound(rr as int);
            assert(dist_sq(*other, *self) == dist_sq(*self, *other)) by (nonlinear_arith);
        }
        d <= rr * rr
    }
}

/// Bound on the square of a difference of two coordinates (2^122).
pub const MAX_DIFF_SQ: i128 = 5316911983139663491615228241121378304;

proof fn lemma_square_bound(d: int)
    requires
        -2 * WORLD_LIMIT <= d <= 2 * WORLD_LIMIT,
    ensures
        0 <= d * d <= MAX_DIFF_SQ,
{
    assert(0 <= d * d <= (2 * WORLD_LIMIT) * (2 * WORLD_LIMIT)) by (nonlinear_arith)
        requires
            -2 * WORLD_LIMIT <= d <= 2 * WORLD_LIMIT,
    ;
    assert(2305843009213693952int * 2305843009213693952int == MAX_DIFF_SQ);
}

fn step_coord(c: i64, v: i64, dt: u32) -> (r: i64)
    requires
        coord_ok(c as int),
        speed_ok(v as int),
    ensures
        r == clamp_coord(c + v * dt),
        coord_ok(r as int),
{
    proof {
        assert(-SPEED_LIMIT * 4294967295 <= v * dt <= SPEED_LIMIT * 4294967295) by (nonlinear_arith)
            requires
                speed_ok(v as int),
                0 <= dt <= 4294967295,
        ;
    }
    let s = c + v * (dt as i64);
    if s < -WORLD_LIMIT {
        -WORLD_LIMIT
    } else if s > WORLD_LIMIT {
        WORLD_LIMIT
    } else {
        s
    }
}

/// `d * len / norm`, rounded down: a component of a vector of length `norm`
/// rescaled to length `len`.
pub open spec fn rescale(d: int, len: int, norm: int) -> int {
    (d * len) / norm
}

/// Rescales the component `d` of a vector of length `norm` to length `len`.
pub fn rescale_component(d: i64, len: i64, norm: u64) -> (r: i64)
    requires
        0 < norm,
        -(norm as int) <= d <= norm,
        0 <= len <= SPEED_LIMIT,
        -2 * WORLD_LIMIT <= d <= 2 * WORLD_LIMIT,
    ensures
        r == rescale(d as int, len as int, norm as int),
        -len <= r <= len,
{
    proof {
        assert(-2 * WORLD_LIMIT * SPEED_LIMIT <= d * len <= 2 * WORLD_LIMIT * SPEED_LIMIT) by (nonlinear_arith)
            requires
                -2 * WORLD_LIMIT <= d <= 2 * WORLD_LIMIT,
                0 <= len <= SPEED_LIMIT,
        ;
    }
    let p = (d as i128) * (len as i128);
    proof {
        assert(-(norm as int) * len <= d * len <= (norm as int) * len) by (nonlinear_arith)
            requires
                -(norm as int) <= d <= norm,
                0 <= len,
        ;
        lemma_div_is_ordered(-(norm as int) * len, p as int, norm as int);
        lemma_div_is_ordered(p as int, (norm as int) * len, norm as int);
        lemma_div_multiples_vanish(-(len as int), norm as int);
        lemma_div_multiples_vanish(len as int, norm as int);
        assert(-(norm as int) * len == (norm as int) * (-(len as int))) by (nonlinear_arith);
    }
    match p.checked_div_euclid(norm as i128) {
        Some(q) => q as i64,
        None => 0,
    }
}

/// The integer square root of `n >= 0`.
pub open spec fn int_sqrt(n: int) -> int {
    choose|s: int| is_isqrt(n, s)
}

proof fn lemma_isqrt_unique(n: int, a: int, b: int)
    requires
        is_isqrt(n, a),
        is_isqrt(n, b),
    ensures
        a == b,
{
    if a < b {
        assert((a + 1) * (a + 1) <= b * b) by (nonlinear_arith)
            requires
                0 <= a,
                a + 1 <= b,
        ;
    } else if b < a {
        assert((b + 1) * (b + 1) <= a * a) by (nonlinear_arith)
            requires
                0 <= b,
                b + 1 <= a,
        ;
    }
}

/// A component of a vector is no longer than the vector.
pub proof fn lemma_component_within_norm(c: int, rest: int, s: int)
    requires
        rest >= 0,
        is_isqrt(c * c + rest, s),
    ensures
        -s <= c <= s,
{
    if c > s {
        assert((s + 1) * (s + 1) <= c * c) by (nonlinear_arith)
            requires
                0 <= s,
                s + 1 <= c,
        ;
    } else if c < -s {
        assert((s + 1) * (s + 1) <= c * c) by (nonlinear_arith)
            requires
                0 <= s,
                c <= -s - 1,
        ;
    }
}

/// Integer square root, by bisection.
pub fn isqrt(n: u128) -> (r: u64)
    requires
        n <= 3 * MAX_DIFF_SQ,
    ensures
        is_isqrt(n as int, r as int),
        r == int_sqrt(n as int),
{
    let mut lo: u128 = 0;
    let mut hi: u128 = 4611686018427387904;  // 2^62
    assert(n < hi * hi);
    while hi - lo > 1
        invariant
            lo < hi <= 4611686018427387904,
            lo * lo <= n,
            n < hi * hi,
        decreases hi - lo,
    {
        let mid = lo + (hi - lo) / 2;
        proof {
            assert(mid * mid <= 4611686018427387904 * 4611686018427387904) by (nonlinear_arith)
                requires
                    mid < 4611686018427387904,
            ;
        }
        if mid * mid <= n {
            lo = mid;
        } else {
            hi = mid;
        }
    }
    proof {
        assert(is_isqrt(n as int, lo as int));
        let c = choose|s: int| is_isqrt(n as int, s);
        lemma_isqrt_unique(n as int, lo as int, c);
    }
    lo as u64
}

} // verus!
