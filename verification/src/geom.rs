//! Fixed-point 3D geometry.
//!
//! World coordinates are kept in thousandths of a world unit (`MILLI`
//! sub-units per unit), so one world unit is 1000 and one centimeter-like
//! hundredth is 10. All distance comparisons are done on squared distances,
//! which stay inside `i64` as long as every coordinate is bounded by
//! `MAX_COORD`.

use vstd::prelude::*;

verus! {

/// Sub-units per world unit.
pub const MILLI: i64 = 1000;

/// Bound on the magnitude of any coordinate handled by the spatial logic
/// (a thousand world units), chosen so that squared distances and the
/// ballistic arithmetic fit comfortably in `i64`.
pub const MAX_COORD: i64 = 1_000_000;

/// A 3D position or velocity in fixed-point sub-units.
#[derive(Clone, Copy, Debug, PartialEq, Eq, Structural)]
pub struct Vec3Fixed {
    pub x: i64,
    pub y: i64,
    pub z: i64,
}

pub open spec fn in_bounds(v: Vec3Fixed) -> bool {
    &&& -MAX_COORD <= v.x <= MAX_COORD
    &&& -MAX_COORD <= v.y <= MAX_COORD
    &&& -MAX_COORD <= v.z <= MAX_COORD
}

/// Squared Euclidean distance, as an unbounded integer.
pub open spec fn dist_sq(a: Vec3Fixed, b: Vec3Fixed) -> int {
    (a.x - b.x) * (a.x - b.x) + (a.y - b.y) * (a.y - b.y) + (a.z - b.z) * (a.z - b.z)
}

/// Coordinate of `v` along axis 0 (x), 1 (y) or 2 (z).
pub open spec fn axis_coord(v: Vec3Fixed, axis: int) -> i64 {
    if axis == 0 {
        v.x
    } else if axis == 1 {
        v.y
    } else {
        v.z
    }
}

impl Vec3Fixed {
    /// Coordinate along the given axis; axis 0 is x, 1 is y, 2 is z.
    pub fn coord(&self, axis: u8) -> (r: i64)
        requires
            axis < 3,
        ensures
            r == axis_coord(*self, axis as int),
    {
        if axis == 0 {
            self.x
        } else if axis == 1 {
            self.y
        } else {
            self.z
        }
    }
}

pub proof fn lemma_square_bound(a: int, m: int)
    by (nonlinear_arith)
    requires
        -m <= a <= m,
    ensures
        0 <= a * a <= m * m,
{
}

/// A squared distance is zero exactly when the two points coincide.
pub proof fn lemma_dist_sq_zero(a: Vec3Fixed, b: Vec3Fixed)
    by (nonlinear_arith)
    ensures
        dist_sq(a, b) >= 0,
        dist_sq(a, b) == 0 <==> a.x == b.x && a.y == b.y && a.z == b.z,
{
}

/// Squared Euclidean distance of two in-bounds points, exactly.
pub fn distance_squared(a: &Vec3Fixed, b: &Vec3Fixed) -> (r: i64)
    requires
        in_bounds(*a),
        in_bounds(*b),
    ensures
        r == dist_sq(*a, *b),
        0 <= r <= 12_000_000_000_000,
{
    proof {
        lemma_square_bound(a.x - b.x, 2_000_000);
        lemma_square_bound(a.y - b.y, 2_000_000);
        lemma_square_bound(a.z - b.z, 2_000_000);
        assert((a.x - b.x) * (a.x - b.x) <= 4_000_000_000_000);
    }
    let dx = a.x - b.x;
    let dy = a.y - b.y;
    let dz = a.z - b.z;
    dx * dx + dy * dy + dz * dz
}

/// Quotient truncated toward zero, the rounding of the machine division.
pub open spec fn div_trunc(a: int, b: int) -> int {
    if a >= 0 {
        a / b
    } else {
        -((-a) / b)
    }
}

/// The product of two bounded factors is bounded.
pub proof fn lemma_product_bound(a: int, b: int, ma: int, mb: int)
    by (nonlinear_arith)
    requires
        -ma <= a <= ma,
        -mb <= b <= mb,
        0 <= ma,
        0 <= mb,
    ensures
        -(ma * mb) <= a * b <= ma * mb,
{
}

/// Dividing a nonnegative numerator by at least one cannot grow it.
pub proof fn lemma_div_shrinks(a: int, b: int)
    by (nonlinear_arith)
    requires
        b >= 1,
        0 <= a,
    ensures
        0 <= a / b <= a,
{
}

/// The quotient stays under any bound the numerator is under `b` times.
pub proof fn lemma_div_le(a: int, b: int, c: int)
    by (nonlinear_arith)
    requires
        b >= 1,
        0 <= a,
        a <= b * c,
        0 <= c,
    ensures
        0 <= a / b <= c,
{
}

/// Machine division: exact truncated quotient, which never grows the
/// magnitude of the numerator.
pub fn div_trunc_i64(a: i64, b: i64) -> (r: i64)
    requires
        b >= 1,
        a > i64::MIN,
    ensures
        r == div_trunc(a as int, b as int),
        a >= 0 ==> 0 <= r <= a,
        a < 0 ==> a <= r <= 0,
{
    if a >= 0 {
        proof {
            lemma_div_shrinks(a as int, b as int);
        }
        a / b
    } else {
        let m = -a;
        proof {
            lemma_div_shrinks(m as int, b as int);
        }
        -(m / b)
    }
}

/// Floor of the square root of a natural number.
pub open spec fn sqrt_floor(n: nat) -> nat
    decreases n,
{
    if n == 0 {
        0
    } else {
        let r = sqrt_floor((n - 1) as nat);
        if (r + 1) * (r + 1) <= n {
            r + 1
        } else {
            r
        }
    }
}

pub proof fn lemma_sqrt_floor_bounds(n: nat)
    ensures
        sqrt_floor(n) * sqrt_floor(n) <= n,
        n < (sqrt_floor(n) + 1) * (sqrt_floor(n) + 1),
    decreases n,
{
    if n > 0 {
        lemma_sqrt_floor_bounds((n - 1) as nat);
        let r = sqrt_floor((n - 1) as nat);
        assert(r * r <= n - 1);
        assert(n - 1 < (r + 1) * (r + 1));
        if (r + 1) * (r + 1) <= n {
            assert(sqrt_floor(n) == r + 1);
            assert(n < (r + 2) * (r + 2)) by (nonlinear_arith)
                requires
                    n <= (r + 1) * (r + 1),
                    r >= 0,
            ;
        } else {
            assert(sqrt_floor(n) == r);
        }
    } else {
        assert(n < (sqrt_floor(n) + 1) * (sqrt_floor(n) + 1)) by (nonlinear_arith)
            requires
                n == 0,
                sqrt_floor(n) == 0,
        ;
    }
}

/// Any integer whose square brackets `n` is the floor square root of `n`.
pub proof fn lemma_sqrt_floor_unique(n: nat, r: nat)
    requires
        r * r <= n,
        n < (r + 1) * (r + 1),
    ensures
        r == sqrt_floor(n),
{
    lemma_sqrt_floor_bounds(n);
    let s = sqrt_floor(n);
    assert(r == s) by (nonlinear_arith)
        requires
            r * r <= n,
            n < (r + 1) * (r + 1),
            s * s <= n,
            n < (s + 1) * (s + 1),
            r >= 0,
            s >= 0,
    ;
}

/// Integer square root by binary search: the exact floor of the real root.
pub fn isqrt(n: i64) -> (r: i64)
    requires
        n >= 0,
    ensures
        0 <= r,
        r == sqrt_floor(n as nat),
{
    let mut lo: i64 = 0;
    let mut hi: i64 = if n < 3_037_000_499 {
        n
    } else {
        3_037_000_499
    };
    proof {
        assert((n as int + 1) * (n as int + 1) > n as int) by (nonlinear_arith)
            requires
                n >= 0,
        ;
    }
    while lo < hi
        invariant
            0 <= lo <= hi <= 3_037_000_499,
            lo * lo <= n,
            (hi + 1) * (hi + 1) > n,
        decreases hi - lo,
    {
        let mid = lo + (hi - lo + 1) / 2;
        proof {
            lemma_square_bound(mid as int, 3_037_000_499);
        }
        let sq = mid * mid;
        if sq <= n {
            lo = mid;
        } else {
            hi = mid - 1;
        }
    }
    proof {
        lemma_sqrt_floor_unique(n as nat, lo as nat);
    }
    lo
}

/// A floor square root of a value below a square is below the root.
pub proof fn lemma_sqrt_floor_upper(n: nat, m: nat)
    requires
        n < m * m,
    ensures
        sqrt_floor(n) < m,
{
    lemma_sqrt_floor_bounds(n);
    let s = sqrt_floor(n);
    if s >= m {
        assert(m * m <= s * s) by (nonlinear_arith)
            requires
                0 <= m <= s,
        ;
    }
}

/// Squared length of a vector, as an unbounded integer.
pub open spec fn len_sq(v: Vec3Fixed) -> int {
    v.x * v.x + v.y * v.y + v.z * v.z
}

/// A magnitude whose square is at most `s` is at most the floor root of `s`.
pub proof fn lemma_abs_le_sqrt(a: int, s: nat)
    requires
        a * a <= s,
    ensures
        -(sqrt_floor(s) as int) <= a <= sqrt_floor(s) as int,
{
    lemma_sqrt_floor_bounds(s);
    let r = sqrt_floor(s) as int;
    assert(-r <= a <= r) by (nonlinear_arith)
        requires
            a * a <= s,
            s < (r + 1) * (r + 1),
            r >= 0,
    ;
}

/// Bound on a coordinate for vectors that arise as differences of in-bounds
/// points, with room for the cart offset.
pub const MAX_DIFF: i64 = 2_100_000;

pub open spec fn diff_in_bounds(v: Vec3Fixed) -> bool {
    &&& -MAX_DIFF <= v.x <= MAX_DIFF
    &&& -MAX_DIFF <= v.y <= MAX_DIFF
    &&& -MAX_DIFF <= v.z <= MAX_DIFF
}

/// Direction of `v` scaled to length (about) a thousand: each component is
/// `v_i * 1000 / |v|` truncated, and the zero vector stays zero.
pub open spec fn normalized_milli(v: Vec3Fixed) -> Vec3Fixed {
    let len = sqrt_floor(len_sq(v) as nat) as int;
    if len == 0 {
        Vec3Fixed { x: 0, y: 0, z: 0 }
    } else {
        Vec3Fixed {
            x: div_trunc(v.x * 1000, len) as i64,
            y: div_trunc(v.y * 1000, len) as i64,
            z: div_trunc(v.z * 1000, len) as i64,
        }
    }
}

/// One normalized component stays within the unit scale.
proof fn lemma_normalized_component(c: int, len: int)
    requires
        1 <= len,
        -len <= c <= len,
    ensures
        -1000 <= div_trunc(c * 1000, len) <= 1000,
{
    if c >= 0 {
        assert(c * 1000 <= len * 1000) by (nonlinear_arith)
            requires
                c <= len,
        ;
        lemma_div_le(c * 1000, len, 1000);
    } else {
        assert((-c) * 1000 <= len * 1000) by (nonlinear_arith)
            requires
                -c <= len,
        ;
        lemma_div_le((-c) * 1000, len, 1000);
        assert(c * 1000 == -((-c) * 1000)) by (nonlinear_arith);
    }
}

impl Vec3Fixed {
    /// Direction of `self` at the unit scale (length about a thousand), or
    /// the zero vector when `self` is zero — exactly `normalized_milli`.
    pub fn normalize_or_zero_milli(&self) -> (r: Vec3Fixed)
        requires
            diff_in_bounds(*self),
        ensures
            r == normalized_milli(*self),
            -1000 <= r.x <= 1000,
            -1000 <= r.y <= 1000,
            -1000 <= r.z <= 1000,
    {
        proof {
            lemma_square_bound(self.x as int, 2_100_000);
            lemma_square_bound(self.y as int, 2_100_000);
            lemma_square_bound(self.z as int, 2_100_000);
        }
        let sq = self.x * self.x + self.y * self.y + self.z * self.z;
        let len = isqrt(sq);
        if len == 0 {
            Vec3Fixed { x: 0, y: 0, z: 0 }
        } else {
            proof {
                lemma_abs_le_sqrt(self.x as int, sq as nat);
                lemma_abs_le_sqrt(self.y as int, sq as nat);
                lemma_abs_le_sqrt(self.z as int, sq as nat);
                lemma_normalized_component(self.x as int, len as int);
                lemma_normalized_component(self.y as int, len as int);
                lemma_normalized_component(self.z as int, len as int);
            }
            Vec3Fixed {
                x: div_trunc_i64(self.x * 1000, len),
                y: div_trunc_i64(self.y * 1000, len),
                z: div_trunc_i64(self.z * 1000, len),
            }
        }
    }
}

} // verus!
