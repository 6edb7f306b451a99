use arena_core::vec3::Vec3i;
use arena_core::gesture::{RayHit, SliceAttempt, SlicerState};

fn v(x: i64, y: i64, z: i64) -> Vec3i {
    Vec3i { x, y, z }
}

fn hit(entity: u64, point: Vec3i) -> Option<RayHit> {
    Some(RayHit { entity, point, sliceable: true })
}

#[test]
fn drag_on_one_target_emits_exactly_one_attempt() {
    let p1 = v(1, 2, 3);
    let p2 = v(4, 5, 6);
    let mut state = SlicerState::Idle;
    assert_eq!(state.observe(true, hit(7, p1)), None);
    assert_eq!(state.observe(true, hit(7, p2)), None);
    let attempt = state.observe(false, None);
    assert_eq!(attempt, Some(SliceAttempt { begin: p1, end: p2, target: 7 }));
    assert_eq!(state, SlicerState::Idle);
    // The release consumed the gesture: another release emits nothing.
    assert_eq!(state.observe(false, None), None);
}

#[test]
fn switching_targets_emits_nothing() {
    let p1 = v(1, 2, 3);
    let p3 = v(9, 9, 9);
    let mut state = SlicerState::Idle;
    assert_eq!(state.observe(true, hit(7, p1)), None);
    assert_eq!(state.observe(true, hit(8, p3)), None);
    assert_eq!(state.observe(false, None), None);
    assert_eq!(state, SlicerState::Idle);
}

#[test]
fn single_hit_emits_nothing() {
    let mut state = SlicerState::Idle;
    assert_eq!(state.observe(true, hit(7, v(1, 2, 3))), None);
    assert_eq!(state.observe(false, None), None);
}

#[test]
fn same_point_twice_is_not_a_drag() {
    let p = v(1, 2, 3);
    let mut state = SlicerState::Idle;
    assert_eq!(state.observe(true, hit(7, p)), None);
    assert_eq!(state.observe(true, hit(7, p)), None);
    assert_eq!(state.observe(false, None), None);
}

#[test]
fn unsliceable_hits_are_ignored() {
    let mut state = SlicerState::Idle;
    let h = Some(RayHit { entity: 7, point: v(1, 2, 3), sliceable: false });
    assert_eq!(state.observe(true, h), None);
    assert_eq!(state, SlicerState::Idle);
}

#[test]
fn losing_the_target_falls_back_to_no_target() {
    let mut state = SlicerState::Idle;
    state.observe(true, hit(7, v(1, 2, 3)));
    state.observe(true, None);
    assert_eq!(state, SlicerState::NoTarget);
    // Hitting the target again restarts from the new first hit.
    state.observe(true, hit(7, v(4, 5, 6)));
    assert_eq!(state, SlicerState::FirstHit { point: v(4, 5, 6), entity: 7 });
}

#[test]
fn empty_hit_mid_drag_abandons_the_drag() {
    let mut state = SlicerState::Idle;
    state.observe(true, hit(7, v(0, 0, 0)));
    state.observe(true, hit(7, v(1, 0, 0)));
    // No hit at all: back to no-target, the drag is gone.
    state.observe(true, None);
    assert_eq!(state, SlicerState::NoTarget);
    assert_eq!(state.observe(false, None), None);
}

#[test]
fn drag_keeps_following_the_start_target() {
    let p1 = v(0, 0, 0);
    let p2 = v(1, 0, 0);
    let p3 = v(2, 0, 0);
    let mut state = SlicerState::Idle;
    state.observe(true, hit(7, p1));
    state.observe(true, hit(7, p2));
    state.observe(true, hit(7, p3));
    let attempt = state.observe(false, None);
    assert_eq!(attempt, Some(SliceAttempt { begin: p1, end: p3, target: 7 }));
}

#[test]
fn switching_mid_drag_restarts_on_the_new_target() {
    let mut state = SlicerState::Idle;
    state.observe(true, hit(7, v(0, 0, 0)));
    state.observe(true, hit(7, v(1, 0, 0)));
    state.observe(true, hit(8, v(5, 5, 5)));
    assert_eq!(state, SlicerState::FirstHit { point: v(5, 5, 5), entity: 8 });
    state.observe(true, hit(8, v(6, 5, 5)));
    let attempt = state.observe(false, None);
    assert_eq!(
        attempt,
        Some(SliceAttempt { begin: v(5, 5, 5), end: v(6, 5, 5), target: 8 })
    );
}
