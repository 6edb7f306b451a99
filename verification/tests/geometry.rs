use arena_core::vec3::Vec3i;
use arena_core::mesh::{Mesh, Tri};
use arena_core::plane::Plane;
use arena_core::slicer::slice;

fn v(x: i64, y: i64, z: i64) -> Vec3i {
    Vec3i { x, y, z }
}

fn tri(a: usize, b: usize, c: usize) -> Tri {
    Tri { a, b, c }
}

/// A closed cube of half-extent `h` centred on the origin, with outward
/// oriented triangles.
fn cube(h: i64) -> Mesh {
    let verts = vec![
        v(-h, -h, -h),
        v(h, -h, -h),
        v(h, h, -h),
        v(-h, h, -h),
        v(-h, -h, h),
        v(h, -h, h),
        v(h, h, h),
        v(-h, h, h),
    ];
    let tris = vec![
        tri(0, 3, 2),
        tri(0, 2, 1),
        tri(4, 5, 6),
        tri(4, 6, 7),
        tri(0, 1, 5),
        tri(0, 5, 4),
        tri(2, 3, 7),
        tri(2, 7, 6),
        tri(0, 4, 7),
        tri(0, 7, 3),
        tri(1, 2, 6),
        tri(1, 6, 5),
    ];
    Mesh { verts, tris }
}

#[test]
fn cube_volume_is_exact() {
    let m = cube(1000);
    // Six times the volume of a cube with side 2000.
    assert_eq!(m.volume_x6(), 6 * 2000 * 2000 * 2000);
}

#[test]
fn slice_through_cube_gives_two_halves() {
    let m = cube(1000);
    let plane = Plane { point: v(0, 0, 0), normal: v(0, 0, 1) };
    let result = slice(&plane, &m);
    let (top, bottom) = result.expect("a plane through the middle must cut");
    assert!(top.tris.len() > 0);
    assert!(bottom.tris.len() > 0);
    let total = 6i128 * 2000 * 2000 * 2000;
    let vt = top.volume_x6();
    let vb = bottom.volume_x6();
    // The two halves together keep the original volume; the cut here lands
    // exactly on the fixed-point grid, so no tolerance is needed.
    assert_eq!(vt + vb, total);
    assert_eq!(vt, total / 2);
    assert_eq!(vb, total / 2);
}

#[test]
fn each_half_references_only_its_side_of_the_plane() {
    let m = cube(1000);
    let plane = Plane { point: v(0, 0, 0), normal: v(0, 0, 1) };
    let (top, bottom) = slice(&plane, &m).expect("the plane crosses the cube");
    let n = m.verts.len();
    for t in &top.tris {
        for idx in [t.a, t.b, t.c] {
            if idx < n {
                assert!(m.verts[idx].z >= 0, "upper half must not reach below the plane");
            }
        }
    }
    for t in &bottom.tris {
        for idx in [t.a, t.b, t.c] {
            if idx < n {
                assert!(m.verts[idx].z <= 0, "lower half must not reach above the plane");
            }
        }
    }
    // Faces wholly on one side are carried over whole to that side.
    assert!(top.tris.contains(&tri(4, 5, 6)));
    assert!(top.tris.contains(&tri(4, 6, 7)));
    assert!(bottom.tris.contains(&tri(0, 3, 2)));
    assert!(bottom.tris.contains(&tri(0, 2, 1)));
}

#[test]
fn slice_off_grid_keeps_volume_within_epsilon() {
    let m = cube(1000);
    // A slanted plane that misses every vertex and cuts edges off-grid.
    let plane = Plane { point: v(1, 3, 7), normal: v(3, 5, 11) };
    let (top, bottom) = slice(&plane, &m).expect("the plane crosses the cube");
    assert!(top.tris.len() > 0);
    assert!(bottom.tris.len() > 0);
    let total = 6i128 * 2000 * 2000 * 2000;
    let sum = top.volume_x6() + bottom.volume_x6();
    let error = (sum - total).abs();
    // Cut vertices are rounded to the integer grid: the combined volume may
    // drift by a sliver, far below one percent.
    assert!(error * 100 < total, "volume error too large: {error}");
}

#[test]
fn slice_misses_when_all_vertices_on_one_side() {
    let m = cube(1000);
    let above = Plane { point: v(0, 0, 2000), normal: v(0, 0, 1) };
    assert!(slice(&above, &m).is_none());
    let below = Plane { point: v(0, 0, -5000), normal: v(0, 0, 1) };
    assert!(slice(&below, &m).is_none());
}

#[test]
fn slice_misses_on_tangent_plane() {
    let m = cube(1000);
    // The plane touches the cube's top face: every vertex is on or below
    // it, none strictly above, so no cut happens.
    let tangent = Plane { point: v(0, 0, 1000), normal: v(0, 0, 1) };
    assert!(slice(&tangent, &m).is_none());
}

#[test]
fn degenerate_normal_gives_no_plane() {
    assert!(Plane::from_point_normal(v(0, 0, 0), v(0, 0, 0)).is_none());
    assert!(Plane::from_point_normal(v(1, 2, 3), v(0, 0, 5)).is_some());
}

#[test]
fn aabb_center_of_cube_is_origin() {
    let m = cube(1000);
    let c = m.aabb_center();
    assert_eq!(c, v(0, 0, 0));
}

#[test]
fn vector_ops_are_exact() {
    let a = v(2, -3, 4);
    let b = v(5, 7, -1);
    let d = a.sub(b);
    assert_eq!(d, v(-3, -10, 5));
    let c = a.cross(b);
    // (2,-3,4) x (5,7,-1) = (3 - 28, 20 + 2, 14 + 15)
    assert_eq!(c, v(-25, 22, 29));
    assert_eq!(a.midpoint(b), v(3, 2, 1));
    // Midpoints round down.
    assert_eq!(v(0, 0, 0).midpoint(v(3, -3, 1)), v(1, -2, 0));
}
