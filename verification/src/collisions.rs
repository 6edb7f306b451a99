//! Shield-mode collision rules: a jug on the shield scores and shatters
//! away from the shield, a jug on the player costs points and shatters
//! toward the impact.

use vstd::prelude::*;
use crate::vec3::{Vec3i, V3, sub3, scale3};
use crate::score::{ScoreAction, ScoreActionType};
use crate::shatter::ShatterEntity;

verus! {

/// Scale on the raw impact direction that shattered jugs fly off with.
pub const SHATTER_IMPULSE_FACTOR: i64 = 2;

/// A physics collision that just started between two entities.
#[derive(Clone, Copy, Debug, PartialEq, Eq, Structural)]
pub struct CollisionStarted {
    pub e1: u64,
    pub e2: u64,
}

/// The outcome of a handled collision: the score it earns and the shatter
/// it triggers.
#[derive(Clone, Copy, Debug, PartialEq, Eq, Structural)]
pub struct CollisionOutcome {
    pub action: ScoreAction,
    pub shatter: ShatterEntity,
}

/// The impulse a shattered jug receives: the raw direction from the jug to
/// the body it hit, scaled, positive toward the body and negated away from
/// it.
pub open spec fn impact_impulse(body_pos: V3, jug_pos: V3, factor: int) -> V3 {
    scale3(factor, sub3(body_pos, jug_pos))
}

/// A collision involving the shield: the other entity is a deflected jug.
/// It scores as a good action at the shield and shatters away from the
/// shield. A collision not involving the shield is not this rule's.
pub fn handle_shield_collision(
    event: CollisionStarted,
    shield_entity: u64,
    shield_pos: Vec3i,
    other_pos: Vec3i,
) -> (r: Option<CollisionOutcome>)
    requires
        shield_pos.bounded(),
        other_pos.bounded(),
    ensures
        r is Some <==> (event.e1 == shield_entity || event.e2 == shield_entity),
        match r {
            Some(out) => {
                &&& out.action.action == ScoreActionType::Good
                &&& out.action.pos == shield_pos
                &&& out.shatter.entity == (if event.e1 == shield_entity {
                    event.e2
                } else {
                    event.e1
                })
                &&& out.shatter.impulse@ == impact_impulse(
                    shield_pos@,
                    other_pos@,
                    -SHATTER_IMPULSE_FACTOR as int,
                )
            },
            None => true,
        },
{
    let jug = if event.e1 == shield_entity {
        event.e2
    } else if event.e2 == shield_entity {
        event.e1
    } else {
        return None;
    };
    let direction = shield_pos.sub(other_pos);
    let impulse = direction.scale(-SHATTER_IMPULSE_FACTOR);
    Some(
        CollisionOutcome {
            action: ScoreAction { action: ScoreActionType::Good, pos: shield_pos },
            shatter: ShatterEntity { entity: jug, impulse },
        },
    )
}

/// A collision involving the player: the other entity is a jug that got
/// through. It scores as a miss at the player and shatters onward through
/// the impact. A collision not involving the player is not this rule's.
pub fn handle_player_collision(
    event: CollisionStarted,
    player_entity: u64,
    player_pos: Vec3i,
    other_pos: Vec3i,
) -> (r: Option<CollisionOutcome>)
    requires
        player_pos.bounded(),
        other_pos.bounded(),
    ensures
        r is Some <==> (event.e1 == player_entity || event.e2 == player_entity),
        match r {
            Some(out) => {
                &&& out.action.action == ScoreActionType::Bad
                &&& out.action.pos == player_pos
                &&& out.shatter.entity == (if event.e1 == player_entity {
                    event.e2
                } else {
                    event.e1
                })
                &&& out.shatter.impulse@ == impact_impulse(
                    player_pos@,
                    other_pos@,
                    SHATTER_IMPULSE_FACTOR as int,
                )
            },
            None => true,
        },
{
    let jug = if event.e1 == player_entity {
        event.e2
    } else if event.e2 == player_entity {
        event.e1
    } else {
        return None;
    };
    let direction = player_pos.sub(other_pos);
    let impulse = direction.scale(SHATTER_IMPULSE_FACTOR);
    Some(
        CollisionOutcome {
            action: ScoreAction { action: ScoreActionType::Bad, pos: player_pos },
            shatter: ShatterEntity { entity: jug, impulse },
        },
    )
}

} // verus!
