//! Fixed-point 3D vectors and the exact integer arithmetic the slicer and the
//! impulse planner build on.

use vstd::prelude::*;

verus! {

/// Largest magnitude a fixed-point coordinate may have (`2^29`). Chosen so
/// that a cross product of two coordinate differences fits in `i64`:
/// differences stay below `2^30`, each product below `2^60`, and a difference
/// of two products below `2^61`.
pub const COORD_LIMIT: i64 = 536870912;

/// Largest magnitude a cut-plane normal component may have (`2^61`), the
/// bound that a cross product of two in-range coordinate differences obeys.
pub const NORMAL_LIMIT: i64 = 2305843009213693952;

/// The mathematical value of a `Vec3i`, used by every geometric
/// specification.
pub ghost struct V3 {
    pub x: int,
    pub y: int,
    pub z: int,
}

/// A position or direction in fixed-point world or local coordinates.
#[derive(Clone, Copy, Debug, PartialEq, Eq, Structural)]
pub struct Vec3i {
    pub x: i64,
    pub y: i64,
    pub z: i64,
}

impl View for Vec3i {
    type V = V3;

    open spec fn view(&self) -> V3 {
        V3 { x: self.x as int, y: self.y as int, z: self.z as int }
    }
}

pub open spec fn in_box(a: V3, b: int) -> bool {
    &&& -b <= a.x <= b
    &&& -b <= a.y <= b
    &&& -b <= a.z <= b
}

pub open spec fn sub3(a: V3, b: V3) -> V3 {
    V3 { x: a.x - b.x, y: a.y - b.y, z: a.z - b.z }
}

pub open spec fn add3(a: V3, b: V3) -> V3 {
    V3 { x: a.x + b.x, y: a.y + b.y, z: a.z + b.z }
}

pub open spec fn cross3(a: V3, b: V3) -> V3 {
    V3 {
        x: a.y * b.z - a.z * b.y,
        y: a.z * b.x - a.x * b.z,
        z: a.x * b.y - a.y * b.x,
    }
}

pub open spec fn dot3(a: V3, b: V3) -> int {
    a.x * b.x + a.y * b.y + a.z * b.z
}

pub open spec fn scale3(k: int, a: V3) -> V3 {
    V3 { x: k * a.x, y: k * a.y, z: k * a.z }
}

/// Componentwise midpoint, each coordinate rounded down.
pub open spec fn mid3(a: V3, b: V3) -> V3 {
    V3 { x: (a.x + b.x) / 2, y: (a.y + b.y) / 2, z: (a.z + b.z) / 2 }
}

/// Halves a coordinate sum, rounding down.
fn half_floor(s: i64) -> (r: i64)
    requires
        -2147483648 <= s <= 2147483648,
    ensures
        r as int == (s as int) / 2,
{
    if s >= 0 {
        ((s as u64) / 2) as i64
    } else {
        let m = (-s) as u64;
        let q = (m + 1) / 2;
        proof {
            vstd::arithmetic::div_mod::lemma_fundamental_div_mod((m + 1) as int, 2);
            let r2 = ((m + 1) as int) % 2;
            vstd::arithmetic::div_mod::lemma_fundamental_div_mod_converse(
                s as int,
                2,
                -(q as int),
                1 - r2,
            );
        }
        -(q as i64)
    }
}

pub open spec fn zero3(a: V3) -> bool {
    a.x == 0 && a.y == 0 && a.z == 0
}

/// `|x * y| <= bx * by` whenever `|x| <= bx` and `|y| <= by`.
pub proof fn lemma_mul_bound(x: int, y: int, bx: int, by: int)
    requires
        -bx <= x <= bx,
        -by <= y <= by,
        0 <= bx,
        0 <= by,
    ensures
        -(bx * by) <= x * y <= bx * by,
{
    assert(-(bx * by) <= x * y <= bx * by) by (nonlinear_arith)
        requires
            -bx <= x <= bx,
            -by <= y <= by,
            0 <= bx,
            0 <= by,
    ;
}

/// A cross-product component `x1 * y1 - x2 * y2` of coordinate differences
/// stays within `NORMAL_LIMIT` (`2^61`), each product within `2^60`.
pub proof fn lemma_cross_component_bound(x1: int, y1: int, x2: int, y2: int)
    requires
        -1073741824 <= x1 <= 1073741824,
        -1073741824 <= y1 <= 1073741824,
        -1073741824 <= x2 <= 1073741824,
        -1073741824 <= y2 <= 1073741824,
    ensures
        -1152921504606846976 <= x1 * y1 <= 1152921504606846976,
        -1152921504606846976 <= x2 * y2 <= 1152921504606846976,
        -2305843009213693952 <= x1 * y1 - x2 * y2 <= 2305843009213693952,
{
    assert(-1152921504606846976 <= x1 * y1 <= 1152921504606846976) by (nonlinear_arith)
        requires
            -1073741824 <= x1 <= 1073741824,
            -1073741824 <= y1 <= 1073741824,
    ;
    assert(-1152921504606846976 <= x2 * y2 <= 1152921504606846976) by (nonlinear_arith)
        requires
            -1073741824 <= x2 <= 1073741824,
            -1073741824 <= y2 <= 1073741824,
    ;
}

/// Half of a coordinate sum within twice the limit stays within the limit.
proof fn lemma_half_in_range(s: int)
    requires
        -1073741824 <= s <= 1073741824,
    ensures
        -536870912 <= s / 2 <= 536870912,
{
    vstd::arithmetic::div_mod::lemma_div_is_ordered(-1073741824, s, 2);
    vstd::arithmetic::div_mod::lemma_div_is_ordered(s, 1073741824, 2);
    vstd::arithmetic::div_mod::lemma_fundamental_div_mod_converse(-1073741824, 2, -536870912, 0);
    vstd::arithmetic::div_mod::lemma_fundamental_div_mod_converse(1073741824, 2, 536870912, 0);
}

impl Vec3i {
    /// All three coordinates within `COORD_LIMIT` in magnitude.
    pub open spec fn bounded(self) -> bool {
        in_box(self@, COORD_LIMIT as int)
    }

    pub fn new(x: i64, y: i64, z: i64) -> (r: Vec3i)
        ensures
            r == (Vec3i { x, y, z }),
    {
        Vec3i { x, y, z }
    }

    pub open spec fn is_zero(self) -> bool {
        zero3(self@)
    }

    pub fn zero() -> (r: Vec3i)
        ensures
            r.is_zero(),
            r.bounded(),
    {
        Vec3i { x: 0, y: 0, z: 0 }
    }

    /// Componentwise difference; the result of subtracting in-range positions
    /// stays within twice the coordinate limit.
    pub fn sub(self, other: Vec3i) -> (r: Vec3i)
        requires
            self.bounded(),
            other.bounded(),
        ensures
            r@ == sub3(self@, other@),
            in_box(r@, 2 * COORD_LIMIT as int),
    {
        Vec3i { x: self.x - other.x, y: self.y - other.y, z: self.z - other.z }
    }

    /// Componentwise sum of two in-range positions; out-of-range sums are
    /// clamped nowhere because the requirement keeps them representable.
    pub fn add(self, other: Vec3i) -> (r: Vec3i)
        requires
            self.bounded(),
            other.bounded(),
        ensures
            r@ == add3(self@, other@),
            in_box(r@, 2 * COORD_LIMIT as int),
    {
        Vec3i { x: self.x + other.x, y: self.y + other.y, z: self.z + other.z }
    }

    /// Exact cross product of two difference vectors. The bound on the inputs
    /// is what `sub` guarantees, and keeps every component within
    /// `NORMAL_LIMIT`.
    pub fn cross(self, other: Vec3i) -> (r: Vec3i)
        requires
            in_box(self@, 2 * COORD_LIMIT as int),
            in_box(other@, 2 * COORD_LIMIT as int),
        ensures
            r@ == cross3(self@, other@),
            in_box(r@, NORMAL_LIMIT as int),
    {
        proof {
            lemma_cross_component_bound(self@.y, other@.z, self@.z, other@.y);
            lemma_cross_component_bound(self@.z, other@.x, self@.x, other@.z);
            lemma_cross_component_bound(self@.x, other@.y, self@.y, other@.x);
        }
        let x = (self.y as i128 * other.z as i128 - self.z as i128 * other.y as i128) as i64;
        let y = (self.z as i128 * other.x as i128 - self.x as i128 * other.z as i128) as i64;
        let z = (self.x as i128 * other.y as i128 - self.y as i128 * other.x as i128) as i64;
        Vec3i { x, y, z }
    }

    /// Componentwise midpoint of two in-range positions, rounded down; it
    /// stays in range.
    pub fn midpoint(self, other: Vec3i) -> (r: Vec3i)
        requires
            self.bounded(),
            other.bounded(),
        ensures
            r@ == mid3(self@, other@),
            r.bounded(),
    {
        let x = half_floor(self.x + other.x);
        let y = half_floor(self.y + other.y);
        let z = half_floor(self.z + other.z);
        proof {
            lemma_half_in_range(self@.x + other@.x);
            lemma_half_in_range(self@.y + other@.y);
            lemma_half_in_range(self@.z + other@.z);
        }
        Vec3i { x, y, z }
    }

    /// Scale by a small integer factor; used for impulse magnitudes.
    pub fn scale(self, k: i64) -> (r: Vec3i)
        requires
            -32 <= k <= 32,
            in_box(self@, 2 * COORD_LIMIT as int),
        ensures
            r@ == (V3 { x: self@.x * k, y: self@.y * k, z: self@.z * k }),
    {
        proof {
            lemma_mul_bound(self@.x, k as int, 1073741824, 32);
            lemma_mul_bound(self@.y, k as int, 1073741824, 32);
            lemma_mul_bound(self@.z, k as int, 1073741824, 32);
        }
        Vec3i { x: self.x * k, y: self.y * k, z: self.z * k }
    }
}

} // verus!
