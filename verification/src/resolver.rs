//! Resolving a completed slice gesture into an actual cut: derive the cut
//! plane from the gesture endpoints and the camera, slice the target's mesh,
//! and on success strip the target's sliceable tag, emit the sliced
//! notification and queue the delayed fragmentation.

use vstd::prelude::*;
use crate::vec3::{Vec3i, V3, sub3, cross3, zero3};
use crate::plane::Plane;
use crate::mesh::Mesh;
use crate::slicer::{slice, crosses_at, tri_from_above_at, tri_from_below_at};
use crate::gesture::SliceAttempt;
use crate::fragments::{
    FragmentationQueue,
    FragmentSpawnJob,
    SliceEvent,
    PLAYER_SLICE_FRAGMENTATION_DELAY_MS,
};

verus! {

/// A sliceable target as the resolver sees it: its id, its world transform
/// as a translation, its mesh in local coordinates, and whether it still
/// carries the sliceable tag.
///
/// Only the translation of the world transform is modelled here; a rotated
/// or scaled target is handled by the shell, which must carry gesture and
/// camera points into the target's axis-aligned local frame when it
/// converts them to fixed-point coordinates.
#[derive(Debug)]
pub struct Target {
    pub entity: u64,
    pub translation: Vec3i,
    pub mesh: Mesh,
    pub sliceable: bool,
}

impl Target {
    /// In-range transform and a well-formed mesh small enough to slice.
    pub open spec fn wf(self) -> bool {
        &&& self.translation.bounded()
        &&& self.mesh.wf()
        &&& self.mesh.verts@.len() <= 0x10000000
        &&& self.mesh.tris@.len() <= 0x10000000
    }
}

/// The normal of the cut plane a gesture defines: the cross product of the
/// two view rays from the camera to the gesture's endpoints.
pub open spec fn gesture_normal(begin: V3, end: V3, camera: V3) -> V3 {
    cross3(sub3(begin, camera), sub3(end, camera))
}

/// Derives the cut plane of a gesture, in the target's local frame: the
/// plane through the begin point whose normal is the cross product of the
/// camera-to-begin and camera-to-end rays. A degenerate gesture — endpoints
/// equal, or collinear with the camera — yields no plane.
pub fn derive_cut_plane(begin: Vec3i, end: Vec3i, camera_pos: Vec3i, translation: Vec3i) -> (r:
    Option<Plane>)
    requires
        begin.bounded(),
        end.bounded(),
        camera_pos.bounded(),
        translation.bounded(),
    ensures
        match r {
            None => zero3(gesture_normal(begin@, end@, camera_pos@)),
            Some(p) => {
                &&& !zero3(gesture_normal(begin@, end@, camera_pos@))
                &&& p.point@ == sub3(begin@, translation@)
                &&& p.normal@ == gesture_normal(begin@, end@, camera_pos@)
                &&& p.wf()
            },
        },
{
    let qr = begin.sub(camera_pos);
    let qs = end.sub(camera_pos);
    let normal = qr.cross(qs);
    let point = begin.sub(translation);
    Plane::from_point_normal(point, normal)
}

/// Resolves a slice attempt against its target.
///
/// The cut happens exactly when the attempt addresses this target, the
/// target still carries the sliceable tag, the gesture is not degenerate,
/// and the derived plane crosses the target's mesh. Then the tag is
/// stripped (so the target cannot be sliced twice), a job holding the two
/// fragment halves joins the fragmentation queue with the fixed delay —
/// each half keeping the original vertices and referencing only original
/// vertices from its own side of the plane — and the sliced notification
/// is returned. In every other case nothing
/// changes: the target stays as it was and the queue is untouched.
pub fn resolve_slice_attempt(
    attempt: &SliceAttempt,
    camera_pos: Vec3i,
    target: &mut Target,
    queue: &mut FragmentationQueue,
) -> (r: Option<SliceEvent>)
    requires
        old(target).wf(),
        old(queue).wf(),
        attempt.begin.bounded(),
        attempt.end.bounded(),
        camera_pos.bounded(),
    ensures
        final(target).wf(),
        final(queue).wf(),
        ({
            let normal = gesture_normal(attempt.begin@, attempt.end@, camera_pos@);
            let local_point = sub3(attempt.begin@, old(target).translation@);
            let success = attempt.target == old(target).entity && old(target).sliceable && !zero3(
                normal,
            ) && crosses_at(local_point, normal, old(target).mesh);
            &&& (r is Some <==> success)
            &&& (!success ==> *final(target) == *old(target) && final(queue).jobs@ == old(
                queue,
            ).jobs@ && final(queue).timers@ == old(queue).timers@)
            &&& (success ==> {
                let job = final(queue).jobs@.last();
                &&& r == Some(
                    SliceEvent { entity: old(target).entity, pos: old(target).translation },
                )
                &&& final(target).entity == old(target).entity
                &&& final(target).translation == old(target).translation
                &&& final(target).mesh == old(target).mesh
                &&& !final(target).sliceable
                &&& final(queue).jobs@ == old(queue).jobs@.push(job)
                &&& final(queue).timers@ == old(queue).timers@.push(
                    PLAYER_SLICE_FRAGMENTATION_DELAY_MS,
                )
                &&& job.sliced_entity == old(target).entity
                &&& job.sliced_object_translation == old(target).translation
                &&& job.slice_begin == attempt.begin
                &&& job.slice_end == attempt.end
                &&& job.frag_top.wf()
                &&& job.frag_bottom.wf()
                &&& job.frag_top.verts@.subrange(0, old(target).mesh.verts@.len() as int) == old(
                    target,
                ).mesh.verts@
                &&& job.frag_bottom.verts@.subrange(0, old(target).mesh.verts@.len() as int)
                    == old(target).mesh.verts@
                &&& forall|k: int|
                    0 <= k < job.frag_top.tris@.len() ==> tri_from_above_at(
                        local_point,
                        normal,
                        old(target).mesh,
                        #[trigger] job.frag_top.tris@[k],
                    )
                &&& forall|k: int|
                    0 <= k < job.frag_bottom.tris@.len() ==> tri_from_below_at(
                        local_point,
                        normal,
                        old(target).mesh,
                        #[trigger] job.frag_bottom.tris@[k],
                    )
                &&& (old(target).mesh.all_verts_used() ==> job.frag_top.tris@.len() >= 1
                    && job.frag_bottom.tris@.len() >= 1)
            })
        }),
{
    if attempt.target != target.entity {
        return None;
    }
    if !target.sliceable {
        return None;
    }
    let plane = match derive_cut_plane(
        attempt.begin,
        attempt.end,
        camera_pos,
        target.translation,
    ) {
        None => {
            return None;
        },
        Some(p) => p,
    };
    match slice(&plane, &target.mesh) {
        None => None,
        Some((top, bottom)) => {
            target.sliceable = false;
            let job = FragmentSpawnJob {
                sliced_entity: target.entity,
                sliced_object_translation: target.translation,
                slice_begin: attempt.begin,
                slice_end: attempt.end,
                frag_top: top,
                frag_bottom: bottom,
            };
            queue.push(job, PLAYER_SLICE_FRAGMENTATION_DELAY_MS);
            Some(SliceEvent { entity: target.entity, pos: target.translation })
        },
    }
}

} // verus!
