//! Triangle meshes over fixed-point vertices, their well-formedness, signed
//! volume, and bounding-box centre.

use vstd::prelude::*;
use crate::vec3::{Vec3i, V3, cross3, dot3};
use crate::plane::lemma_side_term_bound;

verus! {

/// One triangle, as indices into a mesh's vertex list.
#[derive(Clone, Copy, Debug, PartialEq, Eq, Structural)]
pub struct Tri {
    pub a: usize,
    pub b: usize,
    pub c: usize,
}

pub open spec fn tri_in_range(t: Tri, n: nat) -> bool {
    t.a < n && t.b < n && t.c < n
}

pub open spec fn tri_uses(t: Tri, i: int) -> bool {
    t.a == i || t.b == i || t.c == i
}

/// A triangle mesh: vertices in fixed-point coordinates and triangles as
/// index triples.
#[derive(Debug)]
pub struct Mesh {
    pub verts: Vec<Vec3i>,
    pub tris: Vec<Tri>,
}

impl Mesh {
    /// Every vertex in coordinate range, every triangle index valid, and both
    /// lists small enough that volume sums stay representable.
    pub open spec fn wf(self) -> bool {
        &&& forall|i: int| 0 <= i < self.verts@.len() ==> (#[trigger] self.verts@[i]).bounded()
        &&& forall|t: int|
            0 <= t < self.tris@.len() ==> tri_in_range(#[trigger] self.tris@[t], self.verts@.len())
        &&& self.verts@.len() <= 0x40000000
        &&& self.tris@.len() <= 0x40000000
    }

    /// Every vertex is referenced by some triangle; watertight meshes have
    /// this shape, and it is what makes both halves of a crossing cut
    /// non-empty.
    pub open spec fn all_verts_used(self) -> bool {
        forall|i: int|
            #![trigger self.verts@[i]]
            0 <= i < self.verts@.len() ==> exists|t: int|
                0 <= t < self.tris@.len() && tri_uses(#[trigger] self.tris@[t], i)
    }

    /// Six times the signed volume contributed by the first `n` triangles,
    /// each as the signed volume of the tetrahedron it spans with the origin.
    pub open spec fn vol_x6_prefix(self, n: int) -> int
        decreases n,
    {
        if n <= 0 {
            0
        } else {
            self.vol_x6_prefix(n - 1) + self.tri_vol_x6(n - 1)
        }
    }

    /// Six times the signed volume of triangle `t`'s tetrahedron with the
    /// origin: `v_a . (v_b x v_c)`.
    pub open spec fn tri_vol_x6(self, t: int) -> int {
        dot3(
            self.verts@[self.tris@[t].a as int]@,
            cross3(self.verts@[self.tris@[t].b as int]@, self.verts@[self.tris@[t].c as int]@),
        )
    }

    /// Six times the signed volume of the whole mesh. For a closed mesh with
    /// outward-oriented triangles this is six times the enclosed volume.
    pub open spec fn signed_volume_x6(self) -> int {
        self.vol_x6_prefix(self.tris@.len() as int)
    }

    /// Computes six times the signed volume exactly.
    pub fn volume_x6(&self) -> (r: i128)
        requires
            self.wf(),
        ensures
            r as int == self.signed_volume_x6(),
    {
        let mut sum: i128 = 0;
        let mut i: usize = 0;
        let n = self.tris.len();
        while i < n
            invariant
                self.wf(),
                n == self.tris@.len(),
                i <= n,
                sum as int == self.vol_x6_prefix(i as int),
                -14855280471424563298789490688 * (i as int) <= sum as int
                    <= 14855280471424563298789490688 * (i as int),
            decreases n - i,
        {
            let t = self.tris[i];
            let va = self.verts[t.a];
            let vb = self.verts[t.b];
            let vc = self.verts[t.c];
            let cr = vb.cross(vc);
            proof {
                lemma_side_term_bound(cr@.x, va@.x);
                lemma_side_term_bound(cr@.y, va@.y);
                lemma_side_term_bound(cr@.z, va@.z);
                assert(cr@.x * va@.x == va@.x * cr@.x) by (nonlinear_arith);
                assert(cr@.y * va@.y == va@.y * cr@.y) by (nonlinear_arith);
                assert(cr@.z * va@.z == va@.z * cr@.z) by (nonlinear_arith);
            }
            let tv: i128 = cr.x as i128 * va.x as i128 + cr.y as i128 * va.y as i128
                + cr.z as i128 * va.z as i128;
            sum = sum + tv;
            i = i + 1;
        }
        sum
    }

    /// Computes the tight axis-aligned bounding box: `lo` and `hi` bound
    /// every vertex componentwise and each bound is attained.
    pub fn aabb(&self) -> (r: (Vec3i, Vec3i))
        requires
            self.wf(),
            self.verts@.len() > 0,
        ensures
            r.0.bounded(),
            r.1.bounded(),
            forall|i: int|
                0 <= i < self.verts@.len() ==> {
                    let v = #[trigger] self.verts@[i];
                    r.0.x <= v.x && v.x <= r.1.x && r.0.y <= v.y && v.y <= r.1.y && r.0.z <= v.z
                        && v.z <= r.1.z
                },
            exists|i: int| 0 <= i < self.verts@.len() && (#[trigger] self.verts@[i]).x == r.0.x,
            exists|i: int| 0 <= i < self.verts@.len() && (#[trigger] self.verts@[i]).y == r.0.y,
            exists|i: int| 0 <= i < self.verts@.len() && (#[trigger] self.verts@[i]).z == r.0.z,
            exists|i: int| 0 <= i < self.verts@.len() && (#[trigger] self.verts@[i]).x == r.1.x,
            exists|i: int| 0 <= i < self.verts@.len() && (#[trigger] self.verts@[i]).y == r.1.y,
            exists|i: int| 0 <= i < self.verts@.len() && (#[trigger] self.verts@[i]).z == r.1.z,
    {
        let v0 = self.verts[0];
        let mut lo = v0;
        let mut hi = v0;
        let mut i: usize = 1;
        let n = self.verts.len();
        while i < n
            invariant
                self.wf(),
                n == self.verts@.len(),
                1 <= i <= n,
                lo.bounded(),
                hi.bounded(),
                forall|j: int|
                    0 <= j < i ==> {
                        let v = #[trigger] self.verts@[j];
                        lo.x <= v.x && v.x <= hi.x && lo.y <= v.y && v.y <= hi.y && lo.z <= v.z
                            && v.z <= hi.z
                    },
                exists|j: int| 0 <= j < i && (#[trigger] self.verts@[j]).x == lo.x,
                exists|j: int| 0 <= j < i && (#[trigger] self.verts@[j]).y == lo.y,
                exists|j: int| 0 <= j < i && (#[trigger] self.verts@[j]).z == lo.z,
                exists|j: int| 0 <= j < i && (#[trigger] self.verts@[j]).x == hi.x,
                exists|j: int| 0 <= j < i && (#[trigger] self.verts@[j]).y == hi.y,
                exists|j: int| 0 <= j < i && (#[trigger] self.verts@[j]).z == hi.z,
            decreases n - i,
        {
            let v = self.verts[i];
            if v.x < lo.x {
                lo.x = v.x;
            }
            if v.y < lo.y {
                lo.y = v.y;
            }
            if v.z < lo.z {
                lo.z = v.z;
            }
            if v.x > hi.x {
                hi.x = v.x;
            }
            if v.y > hi.y {
                hi.y = v.y;
            }
            if v.z > hi.z {
                hi.z = v.z;
            }
            i = i + 1;
        }
        (lo, hi)
    }

    /// Centre of the bounding box, each coordinate the midpoint of the tight
    /// bounds rounded toward the lower bound.
    pub fn aabb_center(&self) -> (r: Vec3i)
        requires
            self.wf(),
            self.verts@.len() > 0,
        ensures
            r.bounded(),
            exists|lo: Vec3i, hi: Vec3i| self.is_aabb(lo, hi) && r@ == aabb_center_of(lo, hi),
    {
        let (lo, hi) = self.aabb();
        let cx = lo.x + (((hi.x - lo.x) as u64) / 2) as i64;
        let cy = lo.y + (((hi.y - lo.y) as u64) / 2) as i64;
        let cz = lo.z + (((hi.z - lo.z) as u64) / 2) as i64;
        let c = Vec3i { x: cx, y: cy, z: cz };
        proof {
            assert(self.is_aabb(lo, hi));
            assert(c@ == aabb_center_of(lo, hi));
        }
        c
    }

    /// `lo` and `hi` are the tight componentwise bounds of the vertices.
    pub open spec fn is_aabb(self, lo: Vec3i, hi: Vec3i) -> bool {
        &&& forall|i: int|
            0 <= i < self.verts@.len() ==> {
                let v = #[trigger] self.verts@[i];
                lo.x <= v.x && v.x <= hi.x && lo.y <= v.y && v.y <= hi.y && lo.z <= v.z && v.z
                    <= hi.z
            }
        &&& exists|i: int| 0 <= i < self.verts@.len() && (#[trigger] self.verts@[i]).x == lo.x
        &&& exists|i: int| 0 <= i < self.verts@.len() && (#[trigger] self.verts@[i]).y == lo.y
        &&& exists|i: int| 0 <= i < self.verts@.len() && (#[trigger] self.verts@[i]).z == lo.z
        &&& exists|i: int| 0 <= i < self.verts@.len() && (#[trigger] self.verts@[i]).x == hi.x
        &&& exists|i: int| 0 <= i < self.verts@.len() && (#[trigger] self.verts@[i]).y == hi.y
        &&& exists|i: int| 0 <= i < self.verts@.len() && (#[trigger] self.verts@[i]).z == hi.z
    }
}

/// Midpoint of two corner points, rounded toward the lower corner.
pub open spec fn aabb_center_of(lo: Vec3i, hi: Vec3i) -> V3 {
    V3 {
        x: lo@.x + (hi@.x - lo@.x) / 2,
        y: lo@.y + (hi@.y - lo@.y) / 2,
        z: lo@.z + (hi@.z - lo@.z) / 2,
    }
}

} // verus!
