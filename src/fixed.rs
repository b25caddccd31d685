//! Fixed-point vectors. A length, a velocity component or an acceleration
//! component is stored as an `i64` count of thousandths of a world unit.
use vstd::prelude::*;
use vstd::arithmetic::div_mod::{lemma_fundamental_div_mod, lemma_mod_bound};

verus! {

/// One world unit on the fixed-point grid.
pub const UNIT: i64 = 1000;

/// Largest magnitude of a velocity component that can be normalized.
pub const VELOCITY_LIMIT: i64 = 1_000_000_000;

/// A three-component fixed-point vector.
#[derive(Clone, Copy, Debug, PartialEq, Eq, Structural)]
pub struct Vec3 {
    pub x: i64,
    pub y: i64,
    pub z: i64,
}

impl Vec3 {
    pub fn new(x: i64, y: i64, z: i64) -> (r: Vec3)
        ensures
            r == (Vec3 { x, y, z }),
    {
        Vec3 { x, y, z }
    }

    pub fn zero() -> (r: Vec3)
        ensures
            r == (Vec3 { x: 0, y: 0, z: 0 }),
    {
        Vec3 { x: 0, y: 0, z: 0 }
    }

    pub open spec fn is_zero_spec(self) -> bool {
        self.x == 0 && self.y == 0 && self.z == 0
    }

    pub fn is_zero(&self) -> (r: bool)
        ensures
            r == self.is_zero_spec(),
    {
        self.x == 0 && self.y == 0 && self.z == 0
    }

    /// Squared Euclidean length, in squared grid steps.
    pub open spec fn len_sq(self) -> int {
        self.x * self.x + self.y * self.y + self.z * self.z
    }

    /// Every component lies within `VELOCITY_LIMIT` of zero.
    pub open spec fn within_velocity_limit(self) -> bool {
        -VELOCITY_LIMIT <= self.x <= VELOCITY_LIMIT && -VELOCITY_LIMIT <= self.y <= VELOCITY_LIMIT
            && -VELOCITY_LIMIT <= self.z <= VELOCITY_LIMIT
    }
}

/// The sum of two vectors, component by component.
pub open spec fn vadd(a: Vec3, b: Vec3) -> Vec3 {
    Vec3 { x: (a.x + b.x) as i64, y: (a.y + b.y) as i64, z: (a.z + b.z) as i64 }
}

/// Each component of `a + b` fits in an `i64`.
pub open spec fn sum_fits(a: Vec3, b: Vec3) -> bool {
    i64::MIN <= a.x + b.x <= i64::MAX && i64::MIN <= a.y + b.y <= i64::MAX && i64::MIN <= a.z
        + b.z <= i64::MAX
}

impl Vec3 {
    pub fn plus(&self, o: &Vec3) -> (r: Vec3)
        requires
            sum_fits(*self, *o),
        ensures
            r == vadd(*self, *o),
    {
        Vec3 { x: self.x + o.x, y: self.y + o.y, z: self.z + o.z }
    }
}

/// `r` is the integer square root of `n`, rounded down.
pub open spec fn is_floor_sqrt(r: int, n: int) -> bool {
    0 <= r && r * r <= n && n < (r + 1) * (r + 1)
}

pub open spec fn floor_sqrt(n: int) -> int {
    choose|r: int| is_floor_sqrt(r, n)
}

/// One component of the unit vector along a vector whose squared length is
/// `s`: the component `c` scaled to `UNIT`, with its magnitude rounded down.
pub open spec fn unit_axis(c: int, s: int) -> int {
    let r = floor_sqrt(c * c * (UNIT * UNIT) / s);
    if c < 0 {
        -r
    } else {
        r
    }
}

/// The direction of `v` as a vector of length `UNIT` on the grid; the zero
/// vector has no direction and stays as it is.
pub open spec fn direction(v: Vec3) -> (int, int, int) {
    if v.is_zero_spec() {
        (0, 0, 0)
    } else {
        (unit_axis(v.x as int, v.len_sq()), unit_axis(v.y as int, v.len_sq()), unit_axis(
            v.z as int,
            v.len_sq(),
        ))
    }
}

/// A square root rounded down is unique.
pub proof fn lemma_floor_sqrt_unique(r: int, n: int)
    requires
        is_floor_sqrt(r, n),
    ensures
        floor_sqrt(n) == r,
{
    let s = floor_sqrt(n);
    assert(is_floor_sqrt(s, n));
    if s < r {
        assert((s + 1) * (s + 1) <= r * r) by (nonlinear_arith)
            requires
                0 <= s,
                s + 1 <= r,
        ;
    } else if r < s {
        assert((r + 1) * (r + 1) <= s * s) by (nonlinear_arith)
            requires
                0 <= r,
                r + 1 <= s,
        ;
    }
}

/// Integer square root, rounded down, by bisection.
pub fn isqrt(n: u64) -> (r: u64)
    requires
        n <= 1_000_000_000_000,
    ensures
        is_floor_sqrt(r as int, n as int),
        r as int == floor_sqrt(n as int),
{
    let mut lo: u64 = 0;
    let mut hi: u64 = 1_000_001;
    assert(n < 1_000_001 * 1_000_001);
    while hi - lo > 1
        invariant
            lo < hi <= 1_000_001,
            lo * lo <= n,
            n < hi * hi,
        decreases hi - lo,
    {
        let mid: u64 = lo + (hi - lo) / 2;
        assert(mid * mid <= 1_000_000 * 1_000_000) by (nonlinear_arith)
            requires
                mid <= 1_000_000,
        ;
        if mid * mid <= n {
            lo = mid;
        } else {
            hi = mid;
        }
    }
    proof {
        lemma_floor_sqrt_unique(lo as int, n as int);
    }
    lo
}

proof fn lemma_axis_bounds(c: int, s: int)
    requires
        c * c <= s,
        s > 0,
    ensures
        0 <= c * c * (UNIT * UNIT) / s <= UNIT * UNIT,
{
    let a = c * c * (UNIT * UNIT);
    assert(0 <= c * c) by (nonlinear_arith);
    assert(a <= s * (UNIT * UNIT)) by (nonlinear_arith)
        requires
            c * c <= s,
            a == c * c * (UNIT * UNIT),
    ;
    lemma_fundamental_div_mod(a, s);
    lemma_mod_bound(a, s);
    let q = a / s;
    assert(0 <= q <= UNIT * UNIT) by (nonlinear_arith)
        requires
            a == s * q + a % s,
            0 <= a % s < s,
            0 <= a <= s * (UNIT * UNIT),
            s > 0,
    ;
}

fn unit_axis_exec(c: i64, s: u128) -> (r: i64)
    requires
        -VELOCITY_LIMIT <= c <= VELOCITY_LIMIT,
        c * c <= s,
        0 < s <= 3 * VELOCITY_LIMIT * VELOCITY_LIMIT,
    ensures
        r == unit_axis(c as int, s as int),
        -UNIT <= r <= UNIT,
{
    let a: i128 = c as i128;
    assert(a * a <= VELOCITY_LIMIT * VELOCITY_LIMIT) by (nonlinear_arith)
        requires
            -VELOCITY_LIMIT <= a <= VELOCITY_LIMIT,
    ;
    assert(0 <= a * a) by (nonlinear_arith);
    let sq: u128 = (a * a) as u128;
    let num: u128 = sq * 1_000_000u128;
    proof {
        lemma_axis_bounds(c as int, s as int);
    }
    let q: u128 = num / s;
    let r: u64 = isqrt(q as u64);
    assert(r <= UNIT) by (nonlinear_arith)
        requires
            r * r <= UNIT * UNIT,
            r >= 0,
    ;
    if c < 0 {
        -(r as i64)
    } else {
        r as i64
    }
}

/// The direction of `v` on the grid: each component of a non-zero `v` is
/// scaled so that the whole has length `UNIT` (up to rounding); the zero
/// vector is returned unchanged.
pub fn normalize(v: Vec3) -> (r: Vec3)
    requires
        v.within_velocity_limit(),
    ensures
        (r.x as int, r.y as int, r.z as int) == direction(v),
        -UNIT <= r.x <= UNIT,
        -UNIT <= r.y <= UNIT,
        -UNIT <= r.z <= UNIT,
{
    if v.is_zero() {
        return v;
    }
    let x: i128 = v.x as i128;
    let y: i128 = v.y as i128;
    let z: i128 = v.z as i128;
    assert(0 <= x * x <= VELOCITY_LIMIT * VELOCITY_LIMIT) by (nonlinear_arith)
        requires
            -VELOCITY_LIMIT <= x <= VELOCITY_LIMIT,
    ;
    assert(0 <= y * y <= VELOCITY_LIMIT * VELOCITY_LIMIT) by (nonlinear_arith)
        requires
            -VELOCITY_LIMIT <= y <= VELOCITY_LIMIT,
    ;
    assert(0 <= z * z <= VELOCITY_LIMIT * VELOCITY_LIMIT) by (nonlinear_arith)
        requires
            -VELOCITY_LIMIT <= z <= VELOCITY_LIMIT,
    ;
    assert(x * x + y * y + z * z > 0) by (nonlinear_arith)
        requires
            x != 0 || y != 0 || z != 0,
    ;
    let s: u128 = (x * x + y * y + z * z) as u128;
    let rx = unit_axis_exec(v.x, s);
    let ry = unit_axis_exec(v.y, s);
    let rz = unit_axis_exec(v.z, s);
    Vec3 { x: rx, y: ry, z: rz }
}

proof fn lemma_floor_sqrt_exists(n: int)
    requires
        n >= 0,
    ensures
        is_floor_sqrt(floor_sqrt(n), n),
    decreases n,
{
    if n == 0 {
        assert(is_floor_sqrt(0, 0));
    } else {
        lemma_floor_sqrt_exists(n - 1);
        let r = floor_sqrt(n - 1);
        if (r + 1) * (r + 1) == n {
            assert((r + 1) * (r + 1) < (r + 2) * (r + 2)) by (nonlinear_arith)
                requires
                    r >= 0,
            ;
            assert(is_floor_sqrt(r + 1, n));
        } else {
            assert(is_floor_sqrt(r, n));
        }
    }
}

/// What one axis contributes to the squared length of a direction.
proof fn lemma_axis_square(c: int, s: int)
    requires
        c * c <= s,
        s > 0,
    ensures
        ({
            let q = c * c * (UNIT * UNIT) / s;
            &&& q * s <= c * c * (UNIT * UNIT)
            &&& c * c * (UNIT * UNIT) < q * s + s
            &&& unit_axis(c, s) * unit_axis(c, s) <= q
            &&& q <= unit_axis(c, s) * unit_axis(c, s) + 2 * UNIT
        }),
{
    let a = c * c * (UNIT * UNIT);
    lemma_axis_bounds(c, s);
    let q = a / s;
    lemma_fundamental_div_mod(a, s);
    lemma_mod_bound(a, s);
    assert(q * s <= a && a < q * s + s) by (nonlinear_arith)
        requires
            a == s * q + a % s,
            0 <= a % s < s,
    ;
    lemma_floor_sqrt_exists(q);
    let r = floor_sqrt(q);
    assert(r <= UNIT) by (nonlinear_arith)
        requires
            r * r <= UNIT * UNIT,
            r >= 0,
    ;
    assert(q <= r * r + 2 * UNIT) by (nonlinear_arith)
        requires
            q < (r + 1) * (r + 1),
            0 <= r <= UNIT,
    ;
    assert(unit_axis(c, s) * unit_axis(c, s) == r * r) by (nonlinear_arith)
        requires
            unit_axis(c, s) == r || unit_axis(c, s) == -r,
    ;
}

/// Each component of a direction lies within `UNIT` of zero.
pub proof fn lemma_direction_bounded(v: Vec3)
    ensures
        -UNIT <= direction(v).0 <= UNIT,
        -UNIT <= direction(v).1 <= UNIT,
        -UNIT <= direction(v).2 <= UNIT,
{
    if !v.is_zero_spec() {
        let s = v.len_sq();
        let (x, y, z) = (v.x as int, v.y as int, v.z as int);
        assert(0 <= x * x && 0 <= y * y && 0 <= z * z) by (nonlinear_arith);
        assert(s > 0) by (nonlinear_arith)
            requires
                s == x * x + y * y + z * z,
                x != 0 || y != 0 || z != 0,
        ;
        lemma_axis_square(x, s);
        lemma_axis_square(y, s);
        lemma_axis_square(z, s);
        lemma_axis_bounds(x, s);
        lemma_axis_bounds(y, s);
        lemma_axis_bounds(z, s);
        let (dx, dy, dz) = direction(v);
        assert(-UNIT <= dx <= UNIT) by (nonlinear_arith)
            requires
                dx * dx <= UNIT * UNIT,
        ;
        assert(-UNIT <= dy <= UNIT) by (nonlinear_arith)
            requires
                dy * dy <= UNIT * UNIT,
        ;
        assert(-UNIT <= dz <= UNIT) by (nonlinear_arith)
            requires
                dz * dz <= UNIT * UNIT,
        ;
    }
}

/// Normalizing a non-zero vector yields a vector of length `UNIT`, up to
/// the rounding of each component onto the grid: its squared length is at
/// most `UNIT * UNIT` and short of it by at most `6 * UNIT + 2`.
pub proof fn lemma_direction_is_unit(v: Vec3)
    requires
        !v.is_zero_spec(),
    ensures
        ({
            let (dx, dy, dz) = direction(v);
            UNIT * UNIT - 6 * UNIT - 2 <= dx * dx + dy * dy + dz * dz <= UNIT * UNIT
        }),
{
    let s = v.len_sq();
    let (x, y, z) = (v.x as int, v.y as int, v.z as int);
    assert(0 <= x * x && 0 <= y * y && 0 <= z * z) by (nonlinear_arith);
    assert(s > 0) by (nonlinear_arith)
        requires
            s == x * x + y * y + z * z,
            x != 0 || y != 0 || z != 0,
    ;
    lemma_axis_square(x, s);
    lemma_axis_square(y, s);
    lemma_axis_square(z, s);
    let qx = x * x * (UNIT * UNIT) / s;
    let qy = y * y * (UNIT * UNIT) / s;
    let qz = z * z * (UNIT * UNIT) / s;
    assert(x * x * (UNIT * UNIT) + y * y * (UNIT * UNIT) + z * z * (UNIT * UNIT) == s * (UNIT
        * UNIT)) by (nonlinear_arith)
        requires
            s == x * x + y * y + z * z,
    ;
    assert(UNIT * UNIT - 2 <= qx + qy + qz <= UNIT * UNIT) by (nonlinear_arith)
        requires
            qx * s <= x * x * (UNIT * UNIT) < qx * s + s,
            qy * s <= y * y * (UNIT * UNIT) < qy * s + s,
            qz * s <= z * z * (UNIT * UNIT) < qz * s + s,
            x * x * (UNIT * UNIT) + y * y * (UNIT * UNIT) + z * z * (UNIT * UNIT) == s * (UNIT
                * UNIT),
            s > 0,
    ;
}

} // verus!
