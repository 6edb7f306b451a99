//! The jug throwers of shield mode: a jittered throw timer picks a random
//! thrower and has it hurl a jug at the gladiator.

use vstd::prelude::*;
use crate::vec3::Vec3i;
use crate::rng::{random_below, random_in_range};

verus! {

/// Shortest jittered delay between two throws, at the start.
pub const INITIAL_MIN_THROW_INTERVAL_MS: u64 = 500;

/// Longest jittered delay between two throws (exclusive), at the start.
pub const INITIAL_MAX_THROW_INTERVAL_MS: u64 = 1500;

/// Event: spawn the ring of jug throwers.
#[derive(Clone, Copy, Debug, PartialEq, Eq, Structural)]
pub struct SpawnJugThrowers;

/// Marker for one jug thrower.
#[derive(Clone, Copy, Debug, PartialEq, Eq, Structural)]
pub struct Thrower;

/// Command to a thrower: throw a jug at this point.
#[derive(Clone, Copy, Debug, PartialEq, Eq, Structural)]
pub struct ThrowJug {
    pub at: Vec3i,
}

/// Radius of the ring the jug throwers stand on, in fixed-point units of a
/// thousandth of a world unit.
pub const JUG_SPAWN_RADIUS: i64 = 12000;

/// The eight positions of the thrower ring: the four axis points at the
/// full radius and the four diagonals at three quarters of it.
pub open spec fn jug_thrower_positions_seq() -> Seq<Vec3i> {
    seq![
        (Vec3i { x: -12000i64, y: 0, z: 0 }),
        (Vec3i { x: 12000, y: 0, z: 0 }),
        (Vec3i { x: 9000, y: 0, z: 9000 }),
        (Vec3i { x: -9000i64, y: 0, z: 9000 }),
        (Vec3i { x: -9000i64, y: 0, z: -9000i64 }),
        (Vec3i { x: 9000, y: 0, z: -9000i64 }),
        (Vec3i { x: 0, y: 0, z: 12000 }),
        (Vec3i { x: 0, y: 0, z: -12000i64 }),
    ]
}

/// The eight thrower positions, as a vector.
pub fn jug_thrower_positions() -> (r: Vec<Vec3i>)
    ensures
        r@ == jug_thrower_positions_seq(),
{
    let mut r: Vec<Vec3i> = Vec::new();
    r.push(Vec3i { x: -JUG_SPAWN_RADIUS, y: 0, z: 0 });
    r.push(Vec3i { x: JUG_SPAWN_RADIUS, y: 0, z: 0 });
    r.push(Vec3i { x: 9000, y: 0, z: 9000 });
    r.push(Vec3i { x: -9000, y: 0, z: 9000 });
    r.push(Vec3i { x: -9000, y: 0, z: -9000 });
    r.push(Vec3i { x: 9000, y: 0, z: -9000 });
    r.push(Vec3i { x: 0, y: 0, z: JUG_SPAWN_RADIUS });
    r.push(Vec3i { x: 0, y: 0, z: -JUG_SPAWN_RADIUS });
    proof {
        assert(r@ =~= jug_thrower_positions_seq());
    }
    r
}

/// The throwers' shared state: who can throw, and the jittered countdown
/// to the next throw.
#[derive(Debug)]
pub struct ThrowersData {
    pub throwers: Vec<u64>,
    pub next_throw_remaining_ms: u64,
    pub min_throw_interval_ms: u64,
    pub max_throw_interval_ms: u64,
}

impl Default for ThrowersData {
    /// No throwers yet, the first throw after the longest initial delay,
    /// and the initial jitter range.
    fn default() -> (r: Self)
        ensures
            r.throwers@.len() == 0,
            r.next_throw_remaining_ms == INITIAL_MAX_THROW_INTERVAL_MS,
            r.min_throw_interval_ms == INITIAL_MIN_THROW_INTERVAL_MS,
            r.max_throw_interval_ms == INITIAL_MAX_THROW_INTERVAL_MS,
    {
        ThrowersData {
            throwers: Vec::new(),
            next_throw_remaining_ms: INITIAL_MAX_THROW_INTERVAL_MS,
            min_throw_interval_ms: INITIAL_MIN_THROW_INTERVAL_MS,
            max_throw_interval_ms: INITIAL_MAX_THROW_INTERVAL_MS,
        }
    }
}

impl ThrowersData {
    /// Registers a thrower.
    pub fn add_thrower(&mut self, entity: u64)
        ensures
            final(self).throwers@ == old(self).throwers@.push(entity),
            final(self).next_throw_remaining_ms == old(self).next_throw_remaining_ms,
            final(self).min_throw_interval_ms == old(self).min_throw_interval_ms,
            final(self).max_throw_interval_ms == old(self).max_throw_interval_ms,
    {
        self.throwers.push(entity);
    }

    /// One tick of the throw timer. While it runs it counts down and
    /// nobody throws; when it runs out, a uniformly random thrower is
    /// picked to throw and the countdown restarts with a fresh jittered
    /// interval.
    pub fn throw_jugs(&mut self, dt_ms: u64) -> (thrower: Option<usize>)
        requires
            old(self).throwers@.len() > 0,
            old(self).min_throw_interval_ms < old(self).max_throw_interval_ms,
        ensures
            final(self).throwers@ == old(self).throwers@,
            final(self).min_throw_interval_ms == old(self).min_throw_interval_ms,
            final(self).max_throw_interval_ms == old(self).max_throw_interval_ms,
            old(self).next_throw_remaining_ms > dt_ms ==> thrower is None && final(self).next_throw_remaining_ms == old(self).next_throw_remaining_ms - dt_ms,
            old(self).next_throw_remaining_ms <= dt_ms ==> {
                &&& thrower matches Some(i) && i < old(self).throwers@.len()
                &&& old(self).min_throw_interval_ms <= final(self).next_throw_remaining_ms < old(self).max_throw_interval_ms
            },
    {
        if self.next_throw_remaining_ms > dt_ms {
            self.next_throw_remaining_ms = self.next_throw_remaining_ms - dt_ms;
            return None;
        }
        let index = random_below(self.throwers.len());
        self.next_throw_remaining_ms = random_in_range(
            self.min_throw_interval_ms,
            self.max_throw_interval_ms,
        );
        Some(index)
    }
}

} // verus!
