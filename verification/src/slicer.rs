//! Splitting a mesh in two along a cut plane.
//!
//! Every vertex is classified exactly against the plane. If no two vertices
//! lie strictly on opposite sides, the plane misses the mesh and nothing is
//! produced. Otherwise each triangle goes whole to the side it lies on, and
//! triangles straddling the plane are retriangulated around the two points
//! where their edges meet the plane. Both halves are closed again with a fan
//! of cap triangles around the centroid of the cut.

use vstd::prelude::*;
use vstd::arithmetic::div_mod::lemma_multiply_divide_le;
use vstd::arithmetic::mul::{lemma_mul_inequality, lemma_mul_is_commutative};
use crate::vec3::{Vec3i, V3, COORD_LIMIT};
use crate::plane::Plane;
use crate::mesh::{Mesh, Tri, tri_in_range, tri_uses};

verus! {

/// Which side of the cut plane a vertex lies on.
#[derive(Clone, Copy, Debug, PartialEq, Eq, Structural)]
pub enum SideTag {
    Above,
    On,
    Below,
}

pub open spec fn side_tag_of(d: int) -> SideTag {
    if d > 0 {
        SideTag::Above
    } else if d < 0 {
        SideTag::Below
    } else {
        SideTag::On
    }
}

/// Some vertex lies strictly on the normal's side of the plane given by
/// `point` and `normal`.
pub open spec fn has_pos_vert_at(point: V3, normal: V3, m: Mesh) -> bool {
    exists|i: int|
        0 <= i < m.verts@.len() && crate::plane::plane_side(point, normal, (#[trigger] m.verts@[i])@)
            > 0
}

/// Some vertex lies strictly on the side away from that normal.
pub open spec fn has_neg_vert_at(point: V3, normal: V3, m: Mesh) -> bool {
    exists|i: int|
        0 <= i < m.verts@.len() && crate::plane::plane_side(point, normal, (#[trigger] m.verts@[i])@)
            < 0
}

/// The plane given by `point` and `normal` separates the mesh's vertices:
/// some strictly above and some strictly below. Only then does a cut
/// produce two pieces.
pub open spec fn crosses_at(point: V3, normal: V3, m: Mesh) -> bool {
    has_pos_vert_at(point, normal, m) && has_neg_vert_at(point, normal, m)
}

/// Some vertex lies strictly on the normal's side of the plane.
pub open spec fn has_pos_vert(plane: Plane, m: Mesh) -> bool {
    has_pos_vert_at(plane.point@, plane.normal@, m)
}

/// Some vertex lies strictly on the side away from the normal.
pub open spec fn has_neg_vert(plane: Plane, m: Mesh) -> bool {
    has_neg_vert_at(plane.point@, plane.normal@, m)
}

/// The plane separates the mesh's vertices: some strictly above and some
/// strictly below. Only then does a cut produce two pieces.
pub open spec fn crosses(plane: Plane, m: Mesh) -> bool {
    crosses_at(plane.point@, plane.normal@, m)
}

/// Triangle `t` of mesh `m` has a vertex strictly above the plane.
pub open spec fn tri_has_pos(plane: Plane, m: Mesh, t: Tri) -> bool {
    ||| plane.side(m.verts@[t.a as int]@) > 0
    ||| plane.side(m.verts@[t.b as int]@) > 0
    ||| plane.side(m.verts@[t.c as int]@) > 0
}

/// Triangle `t` of mesh `m` has a vertex strictly below the plane.
pub open spec fn tri_has_neg(plane: Plane, m: Mesh, t: Tri) -> bool {
    ||| plane.side(m.verts@[t.a as int]@) < 0
    ||| plane.side(m.verts@[t.b as int]@) < 0
    ||| plane.side(m.verts@[t.c as int]@) < 0
}

/// Every original vertex the triangle references lies on or above the
/// plane given by `point` and `normal`; vertices the cut itself created
/// (indices at or past the original vertex count) are new points on the
/// plane or the cap centroid, and carry no constraint.
pub open spec fn tri_from_above_at(point: V3, normal: V3, m: Mesh, t: Tri) -> bool {
    &&& t.a < m.verts@.len() ==> crate::plane::plane_side(point, normal, m.verts@[t.a as int]@)
        >= 0
    &&& t.b < m.verts@.len() ==> crate::plane::plane_side(point, normal, m.verts@[t.b as int]@)
        >= 0
    &&& t.c < m.verts@.len() ==> crate::plane::plane_side(point, normal, m.verts@[t.c as int]@)
        >= 0
}

/// Every original vertex the triangle references lies on or below that
/// plane.
pub open spec fn tri_from_below_at(point: V3, normal: V3, m: Mesh, t: Tri) -> bool {
    &&& t.a < m.verts@.len() ==> crate::plane::plane_side(point, normal, m.verts@[t.a as int]@)
        <= 0
    &&& t.b < m.verts@.len() ==> crate::plane::plane_side(point, normal, m.verts@[t.b as int]@)
        <= 0
    &&& t.c < m.verts@.len() ==> crate::plane::plane_side(point, normal, m.verts@[t.c as int]@)
        <= 0
}

/// Every original vertex the triangle references lies on or above `plane`.
pub open spec fn tri_from_above(plane: Plane, m: Mesh, t: Tri) -> bool {
    tri_from_above_at(plane.point@, plane.normal@, m, t)
}

/// Every original vertex the triangle references lies on or below `plane`.
pub open spec fn tri_from_below(plane: Plane, m: Mesh, t: Tri) -> bool {
    tri_from_below_at(plane.point@, plane.normal@, m, t)
}

/// All three vertices of input triangle `t` lie on or above the plane.
pub open spec fn tri_all_on_or_above(plane: Plane, m: Mesh, t: Tri) -> bool {
    &&& plane.side(m.verts@[t.a as int]@) >= 0
    &&& plane.side(m.verts@[t.b as int]@) >= 0
    &&& plane.side(m.verts@[t.c as int]@) >= 0
}

/// All three vertices of input triangle `t` lie on or below the plane.
pub open spec fn tri_all_on_or_below(plane: Plane, m: Mesh, t: Tri) -> bool {
    &&& plane.side(m.verts@[t.a as int]@) <= 0
    &&& plane.side(m.verts@[t.b as int]@) <= 0
    &&& plane.side(m.verts@[t.c as int]@) <= 0
}

/// A cut-boundary segment: each endpoint is either a vertex the cut
/// created, or an original vertex lying exactly on the plane.
spec fn seg_on_plane(plane: Plane, m: Mesh, s: (usize, usize)) -> bool {
    &&& s.0 < m.verts@.len() ==> plane.side(m.verts@[s.0 as int]@) == 0
    &&& s.1 < m.verts@.len() ==> plane.side(m.verts@[s.1 as int]@) == 0
}

/// An element of a prefix is still an element of the grown sequence.
proof fn lemma_contains_persists(s1: Seq<Tri>, s2: Seq<Tri>, t: Tri)
    requires
        s1.len() <= s2.len(),
        forall|k: int| 0 <= k < s1.len() ==> s1[k] == s2[k],
        s1.contains(t),
    ensures
        s2.contains(t),
{
    let k = choose|k: int| 0 <= k < s1.len() && s1[k] == t;
    assert(s2[k] == t);
}

/// One coordinate of a point on the segment from `pc` to `qc`, at parameter
/// `num_t / den` of the way, rounded toward `pc`. The result always lies
/// between the two endpoints.
fn interp_coord(pc: i64, qc: i64, num_t: u128, den: u128) -> (r: i64)
    requires
        -COORD_LIMIT <= pc <= COORD_LIMIT,
        -COORD_LIMIT <= qc <= COORD_LIMIT,
        0 < den,
        num_t <= den,
        num_t <= 14855280471424563298789490688,
    ensures
        pc <= qc ==> pc <= r <= qc,
        qc <= pc ==> qc <= r <= pc,
{
    let (delta_abs, forward): (u128, bool) = if qc >= pc {
        ((qc - pc) as u128, true)
    } else {
        ((pc - qc) as u128, false)
    };
    proof {
        assert(delta_abs as int * num_t as int <= 31901471898837980949691369446728269824)
            by (nonlinear_arith)
            requires
                0 <= delta_abs as int <= 2147483648,
                0 <= num_t as int <= 14855280471424563298789490688,
        ;
    }
    let num = delta_abs * num_t;
    proof {
        lemma_mul_inequality(num_t as int, den as int, delta_abs as int);
        lemma_mul_is_commutative(delta_abs as int, num_t as int);
        lemma_multiply_divide_le(num as int, den as int, delta_abs as int);
    }
    let step = num / den;
    if forward {
        pc + step as i64
    } else {
        pc - step as i64
    }
}

/// The point where the segment from `p` to `q` meets the plane, rounded to
/// the fixed-point grid; each coordinate lies between the endpoints'.
fn intersect_edge(plane: &Plane, p: Vec3i, q: Vec3i) -> (r: Vec3i)
    requires
        plane.wf(),
        p.bounded(),
        q.bounded(),
        (plane.side(p@) > 0 && plane.side(q@) < 0) || (plane.side(p@) < 0 && plane.side(q@) > 0),
    ensures
        r.bounded(),
{
    let dp = plane.side_value(p);
    let dq = plane.side_value(q);
    let num_t: u128 = if dp >= 0 {
        dp as u128
    } else {
        (-dp) as u128
    };
    let dq_abs: u128 = if dq >= 0 {
        dq as u128
    } else {
        (-dq) as u128
    };
    let den = num_t + dq_abs;
    let x = interp_coord(p.x, q.x, num_t, den);
    let y = interp_coord(p.y, q.y, num_t, den);
    let z = interp_coord(p.z, q.z, num_t, den);
    Vec3i { x, y, z }
}

/// Copies a vertex list; the slicer builds one vertex list and gives each
/// half its own copy.
fn copy_verts(v: &Vec<Vec3i>) -> (r: Vec<Vec3i>)
    ensures
        r@ == v@,
{
    let mut r: Vec<Vec3i> = Vec::new();
    let mut i: usize = 0;
    let n = v.len();
    while i < n
        invariant
            n == v@.len(),
            i <= n,
            r@ == v@.subrange(0, i as int),
        decreases n - i,
    {
        r.push(v[i]);
        proof {
            assert(r@ =~= v@.subrange(0, i + 1 as int));
        }
        i = i + 1;
    }
    proof {
        assert(r@ =~= v@);
    }
    r
}

/// Truncated division of an accumulated coordinate sum by the number of
/// summands; the result stays within the coordinate range the summands obey.
fn avg_coord(s: i128, cnt: usize) -> (r: i64)
    requires
        0 < cnt,
        -(cnt as int * COORD_LIMIT as int) <= s as int <= cnt as int * COORD_LIMIT as int,
    ensures
        -COORD_LIMIT <= r <= COORD_LIMIT,
{
    if s >= 0 {
        proof {
            lemma_mul_is_commutative(cnt as int, COORD_LIMIT as int);
            lemma_multiply_divide_le(s as int, cnt as int, COORD_LIMIT as int);
        }
        ((s as u128) / (cnt as u128)) as i64
    } else {
        let mag = (-s) as u128;
        proof {
            lemma_mul_is_commutative(cnt as int, COORD_LIMIT as int);
            lemma_multiply_divide_le(mag as int, cnt as int, COORD_LIMIT as int);
        }
        -((mag / (cnt as u128)) as i64)
    }
}

/// Cuts `m` along `plane` into the half above the plane and the half below
/// it.
///
/// Returns `None` exactly when the plane does not cross the mesh, that is
/// when no two vertices lie strictly on opposite sides; the mesh is then
/// untouched and no fragments exist. On a crossing cut both halves are
/// well-formed, together they keep at least one triangle per input triangle,
/// and if every vertex of the input is used by some triangle (as in any
/// watertight mesh) neither half is empty.
pub fn slice(plane: &Plane, m: &Mesh) -> (r: Option<(Mesh, Mesh)>)
    requires
        plane.wf(),
        m.wf(),
        m.verts@.len() <= 0x10000000,
        m.tris@.len() <= 0x10000000,
    ensures
        r is None <==> !crosses(*plane, *m),
        match r {
            Some(pair) => {
                &&& pair.0.wf()
                &&& pair.1.wf()
                &&& pair.0.verts@.subrange(0, m.verts@.len() as int) == m.verts@
                &&& pair.1.verts@.subrange(0, m.verts@.len() as int) == m.verts@
                &&& forall|k: int|
                    0 <= k < pair.0.tris@.len() ==> tri_from_above(
                        *plane,
                        *m,
                        #[trigger] pair.0.tris@[k],
                    )
                &&& forall|k: int|
                    0 <= k < pair.1.tris@.len() ==> tri_from_below(
                        *plane,
                        *m,
                        #[trigger] pair.1.tris@[k],
                    )
                &&& forall|j: int|
                    0 <= j < m.tris@.len() && tri_all_on_or_above(
                        *plane,
                        *m,
                        #[trigger] m.tris@[j],
                    ) ==> pair.0.tris@.contains(m.tris@[j])
                &&& forall|j: int|
                    0 <= j < m.tris@.len() && tri_all_on_or_below(
                        *plane,
                        *m,
                        #[trigger] m.tris@[j],
                    ) && tri_has_neg(*plane, *m, m.tris@[j]) ==> pair.1.tris@.contains(
                        m.tris@[j],
                    )
                &&& pair.0.tris@.len() + pair.1.tris@.len() >= m.tris@.len()
                &&& m.all_verts_used() ==> pair.0.tris@.len() >= 1 && pair.1.tris@.len() >= 1
            },
            None => true,
        },
{
    let n_verts = m.verts.len();
    let mut sides: Vec<SideTag> = Vec::new();
    let mut has_pos = false;
    let mut has_neg = false;
    let mut i: usize = 0;
    while i < n_verts
        invariant
            plane.wf(),
            m.wf(),
            n_verts == m.verts@.len(),
            i <= n_verts,
            sides@.len() == i,
            forall|k: int|
                0 <= k < i ==> sides@[k] == side_tag_of(plane.side((#[trigger] m.verts@[k])@)),
            has_pos == exists|k: int| 0 <= k < i && plane.side((#[trigger] m.verts@[k])@) > 0,
            has_neg == exists|k: int| 0 <= k < i && plane.side((#[trigger] m.verts@[k])@) < 0,
        decreases n_verts - i,
    {
        let d = plane.side_value(m.verts[i]);
        let tag = if d > 0 {
            SideTag::Above
        } else if d < 0 {
            SideTag::Below
        } else {
            SideTag::On
        };
        if d > 0 {
            has_pos = true;
        }
        if d < 0 {
            has_neg = true;
        }
        sides.push(tag);
        i = i + 1;
    }
    if !(has_pos && has_neg) {
        return None;
    }

    let mut verts = copy_verts(&m.verts);
    let mut top: Vec<Tri> = Vec::new();
    let mut bot: Vec<Tri> = Vec::new();
    let mut segs: Vec<(usize, usize)> = Vec::new();
    let mut sx: i128 = 0;
    let mut sy: i128 = 0;
    let mut sz: i128 = 0;
    let mut cnt: usize = 0;

    let n_tris = m.tris.len();
    let mut ti: usize = 0;
    while ti < n_tris
        invariant
            plane.wf(),
            m.wf(),
            m.verts@.len() <= 0x10000000,
            n_tris == m.tris@.len(),
            n_tris <= 0x10000000,
            n_verts == m.verts@.len(),
            ti <= n_tris,
            sides@.len() == n_verts,
            forall|k: int|
                0 <= k < n_verts ==> sides@[k] == side_tag_of(
                    plane.side((#[trigger] m.verts@[k])@),
                ),
            verts@.len() >= n_verts,
            verts@.len() <= n_verts + 2 * ti,
            forall|k: int| 0 <= k < n_verts ==> #[trigger] verts@[k] == m.verts@[k],
            forall|k: int| 0 <= k < verts@.len() ==> (#[trigger] verts@[k]).bounded(),
            forall|k: int| 0 <= k < top@.len() ==> tri_in_range(#[trigger] top@[k], verts@.len()),
            forall|k: int| 0 <= k < bot@.len() ==> tri_in_range(#[trigger] bot@[k], verts@.len()),
            top@.len() + bot@.len() >= ti,
            top@.len() <= 2 * ti,
            bot@.len() <= 2 * ti,
            segs@.len() <= ti,
            forall|k: int|
                0 <= k < segs@.len() ==> (#[trigger] segs@[k]).0 < verts@.len() && segs@[k].1
                    < verts@.len(),
            forall|j: int|
                0 <= j < ti && tri_has_pos(*plane, *m, #[trigger] m.tris@[j]) ==> top@.len() >= 1,
            forall|j: int|
                0 <= j < ti && tri_has_neg(*plane, *m, #[trigger] m.tris@[j]) ==> bot@.len() >= 1,
            forall|k: int|
                0 <= k < top@.len() ==> tri_from_above(*plane, *m, #[trigger] top@[k]),
            forall|k: int|
                0 <= k < bot@.len() ==> tri_from_below(*plane, *m, #[trigger] bot@[k]),
            forall|k: int| 0 <= k < segs@.len() ==> seg_on_plane(*plane, *m, #[trigger] segs@[k]),
            forall|j: int|
                0 <= j < ti && tri_all_on_or_above(*plane, *m, #[trigger] m.tris@[j])
                    ==> top@.contains(m.tris@[j]),
            forall|j: int|
                0 <= j < ti && tri_all_on_or_below(*plane, *m, #[trigger] m.tris@[j])
                    && tri_has_neg(*plane, *m, m.tris@[j]) ==> bot@.contains(m.tris@[j]),
            cnt <= 2 * ti,
            -(cnt as int * COORD_LIMIT as int) <= sx as int <= cnt as int * COORD_LIMIT as int,
            -(cnt as int * COORD_LIMIT as int) <= sy as int <= cnt as int * COORD_LIMIT as int,
            -(cnt as int * COORD_LIMIT as int) <= sz as int <= cnt as int * COORD_LIMIT as int,
        decreases n_tris - ti,
    {
        let ghost top0 = top@;
        let ghost bot0 = bot@;
        let t = m.tris[ti];
        let sa = sides[t.a];
        let sb = sides[t.b];
        let sc = sides[t.c];
        if sa != SideTag::Below && sb != SideTag::Below && sc != SideTag::Below {
            // Wholly on or above the plane.
            top.push(t);
        } else if sa != SideTag::Above && sb != SideTag::Above && sc != SideTag::Above {
            // Wholly on or below the plane, with at least one vertex strictly
            // below.
            bot.push(t);
        } else {
            // The triangle straddles the plane: it has a vertex strictly
            // above and one strictly below. Rotate it so that the special
            // vertex (on the plane, or alone on its side) comes first;
            // cyclic rotation preserves orientation.
            let (ia, ib, ic): (usize, usize, usize) = if sa == SideTag::On {
                (t.a, t.b, t.c)
            } else if sb == SideTag::On {
                (t.b, t.c, t.a)
            } else if sc == SideTag::On {
                (t.c, t.a, t.b)
            } else if sb == sc {
                (t.a, t.b, t.c)
            } else if sa == sc {
                (t.b, t.c, t.a)
            } else {
                (t.c, t.a, t.b)
            };
            let ra = sides[ia];
            let va = verts[ia];
            let vb = verts[ib];
            let vc = verts[ic];
            if ra == SideTag::On {
                // One vertex on the plane, the other two strictly apart:
                // split the opposite edge once.
                let u_v = intersect_edge(plane, vb, vc);
                let u = verts.len();
                verts.push(u_v);
                sx = sx + u_v.x as i128;
                sy = sy + u_v.y as i128;
                sz = sz + u_v.z as i128;
                cnt = cnt + 1;
                if sides[ib] == SideTag::Above {
                    top.push(Tri { a: ia, b: ib, c: u });
                    bot.push(Tri { a: ia, b: u, c: ic });
                    segs.push((u, ia));
                } else {
                    top.push(Tri { a: ia, b: u, c: ic });
                    bot.push(Tri { a: ia, b: ib, c: u });
                    segs.push((ia, u));
                }
            } else {
                // One vertex alone on its strict side: split both edges that
                // leave it, giving a triangle and a quad.
                let u_v = intersect_edge(plane, va, vb);
                let w_v = intersect_edge(plane, va, vc);
                let u = verts.len();
                verts.push(u_v);
                let w = verts.len();
                verts.push(w_v);
                sx = sx + u_v.x as i128 + w_v.x as i128;
                sy = sy + u_v.y as i128 + w_v.y as i128;
                sz = sz + u_v.z as i128 + w_v.z as i128;
                cnt = cnt + 2;
                if ra == SideTag::Above {
                    top.push(Tri { a: ia, b: u, c: w });
                    bot.push(Tri { a: u, b: ib, c: ic });
                    bot.push(Tri { a: u, b: ic, c: w });
                    segs.push((u, w));
                } else {
                    top.push(Tri { a: u, b: ib, c: ic });
                    top.push(Tri { a: u, b: ic, c: w });
                    bot.push(Tri { a: ia, b: u, c: w });
                    segs.push((w, u));
                }
            }
        }
        proof {
            assert forall|j: int|
                0 <= j < ti + 1 && tri_all_on_or_above(
                    *plane,
                    *m,
                    #[trigger] m.tris@[j],
                ) implies top@.contains(m.tris@[j]) by {
                if j < ti {
                    lemma_contains_persists(top0, top@, m.tris@[j]);
                } else {
                    assert(top@[top0.len() as int] == t);
                }
            }
            assert forall|j: int|
                0 <= j < ti + 1 && tri_all_on_or_below(*plane, *m, #[trigger] m.tris@[j])
                    && tri_has_neg(*plane, *m, m.tris@[j]) implies bot@.contains(m.tris@[j]) by {
                if j < ti {
                    lemma_contains_persists(bot0, bot@, m.tris@[j]);
                } else {
                    assert(bot@[bot0.len() as int] == t);
                }
            }
        }
        ti = ti + 1;
    }

    // Close both halves with a fan around the centroid of the cut points.
    if cnt > 0 {
        let cx = avg_coord(sx, cnt);
        let cy = avg_coord(sy, cnt);
        let cz = avg_coord(sz, cnt);
        let ci = verts.len();
        verts.push(Vec3i { x: cx, y: cy, z: cz });
        let ghost top_before = top@.len();
        let ghost bot_before = bot@.len();
        let n_segs = segs.len();
        let mut si: usize = 0;
        while si < n_segs
            invariant
                plane.wf(),
                m.wf(),
                n_verts == m.verts@.len(),
                n_segs == segs@.len(),
                si <= n_segs,
                n_verts <= ci < verts@.len(),
                forall|k: int|
                    0 <= k < segs@.len() ==> (#[trigger] segs@[k]).0 < verts@.len() && segs@[k].1
                        < verts@.len(),
                forall|k: int|
                    0 <= k < segs@.len() ==> seg_on_plane(*plane, *m, #[trigger] segs@[k]),
                forall|k: int|
                    0 <= k < top@.len() ==> tri_in_range(#[trigger] top@[k], verts@.len()),
                forall|k: int|
                    0 <= k < bot@.len() ==> tri_in_range(#[trigger] bot@[k], verts@.len()),
                forall|k: int|
                    0 <= k < top@.len() ==> tri_from_above(*plane, *m, #[trigger] top@[k]),
                forall|k: int|
                    0 <= k < bot@.len() ==> tri_from_below(*plane, *m, #[trigger] bot@[k]),
                forall|j: int|
                    0 <= j < m.tris@.len() && tri_all_on_or_above(*plane, *m, #[trigger] m.tris@[j])
                        ==> top@.contains(m.tris@[j]),
                forall|j: int|
                    0 <= j < m.tris@.len() && tri_all_on_or_below(*plane, *m, #[trigger] m.tris@[j])
                        && tri_has_neg(*plane, *m, m.tris@[j]) ==> bot@.contains(m.tris@[j]),
                top@.len() == top_before + si,
                bot@.len() == bot_before + si,
            decreases n_segs - si,
        {
            let ghost top0 = top@;
            let ghost bot0 = bot@;
            let s = segs[si];
            top.push(Tri { a: s.1, b: s.0, c: ci });
            bot.push(Tri { a: s.0, b: s.1, c: ci });
            si = si + 1;
            proof {
                assert forall|j: int|
                    0 <= j < m.tris@.len() && tri_all_on_or_above(
                        *plane,
                        *m,
                        #[trigger] m.tris@[j],
                    ) implies top@.contains(m.tris@[j]) by {
                    lemma_contains_persists(top0, top@, m.tris@[j]);
                }
                assert forall|j: int|
                    0 <= j < m.tris@.len() && tri_all_on_or_below(*plane, *m, #[trigger] m.tris@[j])
                        && tri_has_neg(*plane, *m, m.tris@[j]) implies bot@.contains(
                    m.tris@[j],
                ) by {
                    lemma_contains_persists(bot0, bot@, m.tris@[j]);
                }
            }
        }
    }

    proof {
        if m.all_verts_used() {
            let vi = choose|k: int| 0 <= k < m.verts@.len() && plane.side(
                (#[trigger] m.verts@[k])@,
            ) > 0;
            let tp = choose|j: int|
                0 <= j < m.tris@.len() && tri_uses(#[trigger] m.tris@[j], vi);
            assert(tri_has_pos(*plane, *m, m.tris@[tp]));
            let vj = choose|k: int| 0 <= k < m.verts@.len() && plane.side(
                (#[trigger] m.verts@[k])@,
            ) < 0;
            let tn = choose|j: int|
                0 <= j < m.tris@.len() && tri_uses(#[trigger] m.tris@[j], vj);
            assert(tri_has_neg(*plane, *m, m.tris@[tn]));
        }
    }
    proof {
        assert(verts@.subrange(0, m.verts@.len() as int) =~= m.verts@);
    }
    let verts2 = copy_verts(&verts);
    Some((Mesh { verts, tris: top }, Mesh { verts: verts2, tris: bot }))
}

} // verus!
