//! The slice-gesture state machine: it watches the pointer ray while the
//! trigger button is held, and on release emits a slice attempt if, and only
//! if, the drag hit the same sliceable target at two distinct points.

use vstd::prelude::*;
use crate::vec3::Vec3i;

verus! {

/// Tag marking an entity as a valid target for the slicing gesture.
#[derive(Clone, Copy, Debug, PartialEq, Eq, Structural)]
pub struct Sliceable;

/// One ray-cast result per tick: the entity hit nearest to the camera,
/// where it was hit, and whether it carries the sliceable tag.
#[derive(Clone, Copy, Debug, PartialEq, Eq, Structural)]
pub struct RayHit {
    pub entity: u64,
    pub point: Vec3i,
    pub sliceable: bool,
}

/// A completed drag over one target, ready to be resolved into a cut.
#[derive(Clone, Copy, Debug, PartialEq, Eq, Structural)]
pub struct SliceAttempt {
    pub begin: Vec3i,
    pub end: Vec3i,
    pub target: u64,
}

/// The gesture detector's state while the trigger button is held.
#[derive(Clone, Copy, Debug, PartialEq, Eq, Structural)]
pub enum SlicerState {
    /// The button is not held, or was just released.
    Idle,
    /// Held, but the ray hit nothing last tick.
    NoTarget,
    /// One hit on a sliceable target so far.
    FirstHit { point: Vec3i, entity: u64 },
    /// Two or more hits on the same target at distinct points: a drag.
    Slicing { start_point: Vec3i, start_entity: u64, last_hit: Vec3i },
}

impl Default for SlicerState {
    fn default() -> (r: Self)
        ensures
            r == SlicerState::Idle,
    {
        SlicerState::Idle
    }
}

/// The state after one held-button tick that saw `hit`. A tick whose ray
/// hit nothing always falls back to `NoTarget`, a running drag included.
pub open spec fn gesture_next_state(s: SlicerState, hit: Option<RayHit>) -> SlicerState {
    match s {
        SlicerState::Idle => match hit {
            None => SlicerState::NoTarget,
            Some(h) => if h.sliceable {
                SlicerState::FirstHit { point: h.point, entity: h.entity }
            } else {
                SlicerState::Idle
            },
        },
        SlicerState::NoTarget => match hit {
            None => SlicerState::NoTarget,
            Some(h) => if h.sliceable {
                SlicerState::FirstHit { point: h.point, entity: h.entity }
            } else {
                SlicerState::NoTarget
            },
        },
        SlicerState::FirstHit { point, entity } => match hit {
            None => SlicerState::NoTarget,
            Some(h) => if h.entity == entity && h.point != point {
                SlicerState::Slicing { start_point: point, start_entity: entity, last_hit: h.point }
            } else if h.entity != entity && h.sliceable {
                SlicerState::FirstHit { point: h.point, entity: h.entity }
            } else {
                s
            },
        },
        SlicerState::Slicing { start_point, start_entity, last_hit } => match hit {
            None => SlicerState::NoTarget,
            Some(h) => if h.entity == start_entity && h.point != start_point {
                SlicerState::Slicing { start_point, start_entity, last_hit: h.point }
            } else if h.entity != start_entity && h.sliceable {
                SlicerState::FirstHit { point: h.point, entity: h.entity }
            } else {
                s
            },
        },
    }
}

/// What a release emits: a slice attempt exactly from the `Slicing` state,
/// running from the drag's start to its last hit on the start target.
pub open spec fn gesture_release_attempt(s: SlicerState) -> Option<SliceAttempt> {
    match s {
        SlicerState::Slicing { start_point, start_entity, last_hit } => Some(
            SliceAttempt { begin: start_point, end: last_hit, target: start_entity },
        ),
        _ => None,
    }
}

impl SlicerState {
    /// One simulation tick of the gesture detector. While the button is
    /// held the state follows the hit as `gesture_next_state` says and
    /// nothing is emitted; on a tick without the button the detector emits
    /// what `gesture_release_attempt` says of the state and resets to idle.
    pub fn observe(&mut self, pressed: bool, hit: Option<RayHit>) -> (attempt: Option<
        SliceAttempt,
    >)
        ensures
            pressed ==> *final(self) == gesture_next_state(*old(self), hit) && attempt is None,
            !pressed ==> *final(self) == SlicerState::Idle && attempt == gesture_release_attempt(
                *old(self),
            ),
    {
        if pressed {
            match *self {
                SlicerState::Idle | SlicerState::NoTarget => {
                    match hit {
                        None => {
                            if let SlicerState::Idle = *self {
                                *self = SlicerState::NoTarget;
                            }
                        },
                        Some(h) => {
                            if h.sliceable {
                                *self = SlicerState::FirstHit { point: h.point, entity: h.entity };
                            }
                        },
                    }
                },
                SlicerState::FirstHit { point, entity } => {
                    match hit {
                        None => {
                            *self = SlicerState::NoTarget;
                        },
                        Some(h) => {
                            if h.entity == entity {
                                if h.point != point {
                                    *self = SlicerState::Slicing {
                                        start_point: point,
                                        start_entity: entity,
                                        last_hit: h.point,
                                    };
                                }
                            } else if h.sliceable {
                                *self = SlicerState::FirstHit { point: h.point, entity: h.entity };
                            }
                        },
                    }
                },
                SlicerState::Slicing { start_point, start_entity, last_hit: _ } => {
                    match hit {
                        None => {
                            *self = SlicerState::NoTarget;
                        },
                        Some(h) => {
                            if h.entity == start_entity {
                                if h.point != start_point {
                                    *self = SlicerState::Slicing {
                                        start_point,
                                        start_entity,
                                        last_hit: h.point,
                                    };
                                }
                            } else if h.sliceable {
                                *self = SlicerState::FirstHit { point: h.point, entity: h.entity };
                            }
                        },
                    }
                },
            }
            None
        } else {
            let attempt = match *self {
                SlicerState::Slicing { start_point, start_entity, last_hit } => Some(
                    SliceAttempt { begin: start_point, end: last_hit, target: start_entity },
                ),
                _ => None,
            };
            *self = SlicerState::Idle;
            attempt
        }
    }
}

/// A drag across one target emits exactly one attempt: from idle, two held
/// ticks hitting the same sliceable target at two distinct points and then
/// a release yield the attempt from the first point to the second on that
/// target.
pub proof fn lemma_gesture_drag_emits_once(p1: Vec3i, p2: Vec3i, e: u64)
    requires
        p1 != p2,
    ensures
        ({
            let h1 = RayHit { entity: e, point: p1, sliceable: true };
            let h2 = RayHit { entity: e, point: p2, sliceable: true };
            let s1 = gesture_next_state(SlicerState::Idle, Some(h1));
            let s2 = gesture_next_state(s1, Some(h2));
            gesture_release_attempt(s2) == Some(
                SliceAttempt { begin: p1, end: p2, target: e },
            )
        }),
{
}

/// Switching targets mid-gesture emits nothing: from idle, a held tick on
/// one target and a held tick on a different target leave no completed drag,
/// so the release emits no attempt.
pub proof fn lemma_gesture_switched_target_emits_none(p1: Vec3i, p3: Vec3i, e1: u64, e2: u64)
    requires
        e1 != e2,
    ensures
        ({
            let h1 = RayHit { entity: e1, point: p1, sliceable: true };
            let h2 = RayHit { entity: e2, point: p3, sliceable: true };
            let s1 = gesture_next_state(SlicerState::Idle, Some(h1));
            let s2 = gesture_next_state(s1, Some(h2));
            gesture_release_attempt(s2) is None
        }),
{
}

} // verus!
