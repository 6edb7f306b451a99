//! Cut planes and the exact side-of-plane measure that drives slicing.

use vstd::prelude::*;
use crate::vec3::{Vec3i, V3, in_box, sub3, dot3, COORD_LIMIT, NORMAL_LIMIT};

verus! {

/// A cut plane, usually expressed in the sliced target's local frame: the
/// plane through `point` with (unnormalised) direction `normal`. A valid
/// plane never has a zero normal; degenerate gestures are rejected before a
/// plane is built.
#[derive(Clone, Copy, Debug, PartialEq, Eq, Structural)]
pub struct Plane {
    pub point: Vec3i,
    pub normal: Vec3i,
}

/// `|n * d| <= 2^91` whenever `|n| <= NORMAL_LIMIT` and `|d| <= 2^30`; one
/// term of the side-of-plane dot product.
pub proof fn lemma_side_term_bound(n: int, d: int)
    requires
        -2305843009213693952 <= n <= 2305843009213693952,
        -2147483648 <= d <= 2147483648,
    ensures
        -4951760157141521099596496896 <= n * d <= 4951760157141521099596496896,
{
    assert(-4951760157141521099596496896 <= n * d <= 4951760157141521099596496896)
        by (nonlinear_arith)
        requires
            -2305843009213693952 <= n <= 2305843009213693952,
            -2147483648 <= d <= 2147483648,
    ;
}

/// The exact signed measure of `v` against the plane through `point` with
/// direction `normal`: positive on the side the normal points to, negative
/// opposite, zero on the plane. The value is the true signed distance scaled
/// by the normal's length.
pub open spec fn plane_side(point: V3, normal: V3, v: V3) -> int {
    dot3(normal, sub3(v, point))
}

impl Plane {
    /// A usable plane: an anchor point in the range a local-frame transform
    /// can produce, a normal that a cross product of in-range differences
    /// can produce, and a normal that is not zero.
    pub open spec fn wf(self) -> bool {
        &&& in_box(self.point@, 2 * COORD_LIMIT as int)
        &&& in_box(self.normal@, NORMAL_LIMIT as int)
        &&& !self.normal.is_zero()
    }

    /// The signed side measure of `v` against this plane.
    pub open spec fn side(self, v: V3) -> int {
        plane_side(self.point@, self.normal@, v)
    }

    /// Builds a plane, refusing a zero normal (a degenerate cut).
    pub fn from_point_normal(point: Vec3i, normal: Vec3i) -> (r: Option<Plane>)
        requires
            in_box(point@, 2 * COORD_LIMIT as int),
            in_box(normal@, NORMAL_LIMIT as int),
        ensures
            match r {
                Some(p) => !normal.is_zero() && p == (Plane { point, normal }) && p.wf(),
                None => normal.is_zero(),
            },
    {
        if normal.x == 0 && normal.y == 0 && normal.z == 0 {
            None
        } else {
            Some(Plane { point, normal })
        }
    }

    /// Computes the exact side measure of a vertex.
    pub fn side_value(&self, v: Vec3i) -> (d: i128)
        requires
            self.wf(),
            v.bounded(),
        ensures
            d as int == self.side(v@),
            -14855280471424563298789490688 <= d <= 14855280471424563298789490688,
    {
        let dx = v.x as i128 - self.point.x as i128;
        let dy = v.y as i128 - self.point.y as i128;
        let dz = v.z as i128 - self.point.z as i128;
        proof {
            lemma_side_term_bound(self.normal@.x, v@.x - self.point@.x);
            lemma_side_term_bound(self.normal@.y, v@.y - self.point@.y);
            lemma_side_term_bound(self.normal@.z, v@.z - self.point@.z);
        }
        self.normal.x as i128 * dx + self.normal.y as i128 * dy + self.normal.z as i128 * dz
    }
}

} // verus!
