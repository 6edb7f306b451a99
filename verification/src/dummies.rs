//! The dummy minigame's spawning rules: a fixed ring of spawn slots, a
//! jittered spawn timer, admission through the slot pool, and the dummies'
//! own despawn countdowns.

use vstd::prelude::*;
use crate::vec3::Vec3i;
use crate::arena::ArenaMode;
use crate::slot_pool::{
    SlotPool,
    SlotState,
    PendingRelease,
    contains_idx,
    DUMMY_SLOT_FREE_AFTER_SLICE_DURATION_MS,
    pending_kept,
    pending_fired,
};
use crate::rng::random_in_range;
use crate::score::{ScoreAction, ScoreActionType};

verus! {

/// Shortest jittered delay between two dummy spawns.
pub const DUMMIES_SPAWN_INTERVAL_MIN_MS: u64 = 550;

/// Longest jittered delay between two dummy spawns (exclusive).
pub const DUMMIES_SPAWN_INTERVAL_MAX_MS: u64 = 1450;

/// How many dummies may stand in the arena at once.
pub const MAX_DUMMIES_COUNT: usize = 4;

/// How long a dummy stands before it expires unsliced.
pub const DEFAULT_DUMMY_DESPAWN_TIMER_MS: u64 = 3000;

/// Marker for a dummy spawn slot.
#[derive(Clone, Copy, Debug, PartialEq, Eq, Structural)]
pub struct DummySlot;

/// Event: lay out the dummy spawn slots.
#[derive(Clone, Copy, Debug, PartialEq, Eq, Structural)]
pub struct SpawnDummySlots;

/// Event: start the dummy minigame.
#[derive(Clone, Copy, Debug, PartialEq, Eq, Structural)]
pub struct StartDummiesMinigame;

/// A standing target dummy: which slot it occupies and how long it has
/// left before it expires.
#[derive(Clone, Copy, Debug, PartialEq, Eq, Structural)]
pub struct Dummy {
    pub slot_index: usize,
    pub despawn_remaining_ms: u64,
}

/// Command to spawn a dummy at a slot's position, scoped to a mode.
#[derive(Clone, Copy, Debug, PartialEq, Eq, Structural)]
pub struct SpawnDummy {
    pub pos: Vec3i,
    pub slot_index: usize,
    pub scope: ArenaMode,
}

/// The six spawn positions of sword mode, in fixed-point units of a
/// thousandth of a world unit.
pub open spec fn dummy_positions_seq() -> Seq<Vec3i> {
    seq![
        (Vec3i { x: 4000, y: 0, z: 1000 }),
        (Vec3i { x: 2750, y: 0, z: 2500 }),
        (Vec3i { x: 1500, y: 0, z: 3000 }),
        (Vec3i { x: -1500i64, y: 0, z: 3000 }),
        (Vec3i { x: -2750i64, y: 0, z: 2500 }),
        (Vec3i { x: -4000i64, y: 0, z: 1000 }),
    ]
}

/// The six spawn positions, as a vector.
pub fn dummy_positions() -> (r: Vec<Vec3i>)
    ensures
        r@ == dummy_positions_seq(),
{
    let mut r: Vec<Vec3i> = Vec::new();
    r.push(Vec3i { x: 4000, y: 0, z: 1000 });
    r.push(Vec3i { x: 2750, y: 0, z: 2500 });
    r.push(Vec3i { x: 1500, y: 0, z: 3000 });
    r.push(Vec3i { x: -1500, y: 0, z: 3000 });
    r.push(Vec3i { x: -2750, y: 0, z: 2500 });
    r.push(Vec3i { x: -4000, y: 0, z: 1000 });
    proof {
        assert(r@ =~= dummy_positions_seq());
    }
    r
}

/// Registers the six standard spawn positions as free slots of the pool.
pub fn spawn_dummy_slots(pool: &mut SlotPool)
    requires
        old(pool).wf(),
        old(pool).slot_count() + 6 <= usize::MAX,
    ensures
        final(pool).wf(),
        final(pool).positions@ == old(pool).positions@ + dummy_positions_seq(),
        final(pool).pending@ == old(pool).pending@,
        final(pool).occupied_count == old(pool).occupied_count,
        final(pool).capacity == old(pool).capacity,
{
    let positions = dummy_positions();
    let mut i: usize = 0;
    while i < 6
        invariant
            i <= 6,
            pool.wf(),
            positions@ == dummy_positions_seq(),
            pool.positions@ == old(pool).positions@ + dummy_positions_seq().subrange(0, i as int),
            pool.pending@ == old(pool).pending@,
            pool.occupied_count == old(pool).occupied_count,
            pool.capacity == old(pool).capacity,
            old(pool).slot_count() + 6 <= usize::MAX,
        decreases 6 - i,
    {
        pool.register_slot(positions[i]);
        proof {
            assert(pool.positions@ =~= old(pool).positions@ + dummy_positions_seq().subrange(
                0,
                i + 1 as int,
            ));
        }
        i = i + 1;
    }
    proof {
        assert(pool.positions@ =~= old(pool).positions@ + dummy_positions_seq());
    }
}

/// The dummy minigame's mutable state: the slot pool and the jittered
/// spawn timer.
#[derive(Debug)]
pub struct DummiesModeData {
    pub pool: SlotPool,
    pub spawn_timer_remaining_ms: u64,
}

impl Default for DummiesModeData {
    /// A fresh minigame: an empty pool capped at the dummy limit, and the
    /// spawn timer at the shortest interval.
    fn default() -> (r: Self)
        ensures
            r.pool.wf(),
            r.pool.slot_count() == 0,
            r.pool.capacity == MAX_DUMMIES_COUNT,
            r.spawn_timer_remaining_ms == DUMMIES_SPAWN_INTERVAL_MIN_MS,
    {
        DummiesModeData {
            pool: SlotPool::new(MAX_DUMMIES_COUNT),
            spawn_timer_remaining_ms: DUMMIES_SPAWN_INTERVAL_MIN_MS,
        }
    }
}

impl DummiesModeData {
    /// One tick of the spawner. While the spawn timer runs, it just counts
    /// down. Once it has run out, a dummy spawns as soon as the pool admits
    /// one: a random free slot is occupied, the spawn command carries that
    /// slot's position, and the timer restarts with a fresh jittered
    /// interval. While the pool refuses (no free slot, or the dummy limit
    /// reached), the timer stays expired and nothing spawns.
    pub fn spawn_dummies(&mut self, dt_ms: u64, scope: ArenaMode) -> (r: Option<SpawnDummy>)
        requires
            old(self).pool.wf(),
        ensures
            final(self).pool.wf(),
            final(self).pool.positions@ == old(self).pool.positions@,
            final(self).pool.capacity == old(self).pool.capacity,
            final(self).pool.pending@ == old(self).pool.pending@,
            old(self).spawn_timer_remaining_ms > dt_ms ==> r is None && final(self).pool == old(self).pool && final(self).spawn_timer_remaining_ms == old(self).spawn_timer_remaining_ms
                - dt_ms,
            old(self).spawn_timer_remaining_ms <= dt_ms && (old(self).pool.free@.len() == 0 || old(self).pool.occupied_count >= old(self).pool.capacity) ==> r is None && final(self).pool
                == old(self).pool && final(self).spawn_timer_remaining_ms == 0,
            old(self).spawn_timer_remaining_ms <= dt_ms && old(self).pool.free@.len() > 0 && old(self).pool.occupied_count < old(self).pool.capacity ==> r is Some,
            match r {
                Some(sd) => {
                    &&& old(self).spawn_timer_remaining_ms <= dt_ms
                    &&& sd.slot_index < old(self).pool.slot_count()
                    &&& contains_idx(old(self).pool.free@, sd.slot_index as int)
                    &&& sd.pos == old(self).pool.positions@[sd.slot_index as int]
                    &&& sd.scope == scope
                    &&& final(self).pool.state@ == old(self).pool.state@.update(
                        sd.slot_index as int,
                        SlotState::Occupied,
                    )
                    &&& final(self).pool.occupied_count == old(self).pool.occupied_count + 1
                    &&& DUMMIES_SPAWN_INTERVAL_MIN_MS <= final(self).spawn_timer_remaining_ms
                        < DUMMIES_SPAWN_INTERVAL_MAX_MS
                },
                None => final(self).pool.state@ == old(self).pool.state@ && final(self).pool.occupied_count == old(self).pool.occupied_count,
            },
    {
        if self.spawn_timer_remaining_ms > dt_ms {
            self.spawn_timer_remaining_ms = self.spawn_timer_remaining_ms - dt_ms;
            return None;
        }
        self.spawn_timer_remaining_ms = 0;
        match self.pool.try_admit() {
            None => None,
            Some(idx) => {
                let pos = self.pool.positions[idx];
                self.spawn_timer_remaining_ms = random_in_range(
                    DUMMIES_SPAWN_INTERVAL_MIN_MS,
                    DUMMIES_SPAWN_INTERVAL_MAX_MS,
                );
                Some(SpawnDummy { pos, slot_index: idx, scope })
            },
        }
    }
}

/// A sliced dummy's slot starts its cooldown: it leaves the occupied set
/// and rejoins the free set only once the cooldown has ticked away.
pub fn queue_dummy_slot_free(pool: &mut SlotPool, slot_index: usize)
    requires
        old(pool).wf(),
        slot_index < old(pool).slot_count(),
        old(pool).state@[slot_index as int] == SlotState::Occupied,
    ensures
        final(pool).wf(),
        final(pool).state@ == old(pool).state@.update(slot_index as int, SlotState::Pending),
        final(pool).pending@ == old(pool).pending@.push(
            PendingRelease {
                index: slot_index,
                remaining_ms: DUMMY_SLOT_FREE_AFTER_SLICE_DURATION_MS,
            },
        ),
        final(pool).free@ == old(pool).free@,
        final(pool).positions@ == old(pool).positions@,
        final(pool).occupied_count == old(pool).occupied_count - 1,
        final(pool).capacity == old(pool).capacity,
{
    pool.queue_release(slot_index, DUMMY_SLOT_FREE_AFTER_SLICE_DURATION_MS)
}

/// One tick of the slot cooldowns: the slots whose cooldown ran out are
/// freed and returned.
pub fn free_dummy_slots(pool: &mut SlotPool, dt_ms: u64) -> (freed: Vec<usize>)
    requires
        old(pool).wf(),
    ensures
        final(pool).wf(),
        final(pool).pending@ == pending_kept(
            old(pool).pending@,
            dt_ms,
            old(pool).pending@.len() as int,
        ),
        freed@ == pending_fired(old(pool).pending@, dt_ms, old(pool).pending@.len() as int),
        final(pool).free@ == old(pool).free@ + freed@,
        final(pool).positions@ == old(pool).positions@,
        final(pool).occupied_count == old(pool).occupied_count,
        final(pool).capacity == old(pool).capacity,
{
    pool.tick(dt_ms)
}

/// A standing dummy with its identity and position, as the despawn rule
/// sees it.
#[derive(Clone, Copy, Debug, PartialEq, Eq, Structural)]
pub struct ActiveDummy {
    pub entity: u64,
    pub pos: Vec3i,
    pub slot_index: usize,
    pub despawn_remaining_ms: u64,
}

/// The dummies among the first `n` still standing after a tick of `dt`.
pub open spec fn dummies_kept(s: Seq<ActiveDummy>, dt: u64, n: int) -> Seq<ActiveDummy>
    decreases n,
{
    if n <= 0 {
        Seq::empty()
    } else {
        let rest = dummies_kept(s, dt, n - 1);
        let e = s[n - 1];
        if e.despawn_remaining_ms > dt {
            rest.push(
                ActiveDummy { despawn_remaining_ms: (e.despawn_remaining_ms - dt) as u64, ..e },
            )
        } else {
            rest
        }
    }
}

/// The dummies among the first `n` that a tick of `dt` expires, in order.
pub open spec fn dummies_expired(s: Seq<ActiveDummy>, dt: u64, n: int) -> Seq<ActiveDummy>
    decreases n,
{
    if n <= 0 {
        Seq::empty()
    } else {
        let rest = dummies_expired(s, dt, n - 1);
        let e = s[n - 1];
        if e.despawn_remaining_ms > dt {
            rest
        } else {
            rest.push(e)
        }
    }
}

/// One tick of the dummies' despawn countdowns: the dummies whose time ran
/// out leave the list and are returned; `handle_expired_dummies` then
/// despawn-scores them and sends their slots through the release cooldown.
pub fn despawn_dummies(dummies: &mut Vec<ActiveDummy>, dt_ms: u64) -> (expired: Vec<ActiveDummy>)
    ensures
        final(dummies)@ == dummies_kept(old(dummies)@, dt_ms, old(dummies)@.len() as int),
        expired@ == dummies_expired(old(dummies)@, dt_ms, old(dummies)@.len() as int),
{
    let ghost old_l = dummies@;
    let mut kept: Vec<ActiveDummy> = Vec::new();
    let mut expired: Vec<ActiveDummy> = Vec::new();
    let n = dummies.len();
    let mut i: usize = 0;
    while i < n
        invariant
            i <= n,
            n == old_l.len(),
            dummies@ == old_l,
            kept@ == dummies_kept(old_l, dt_ms, i as int),
            expired@ == dummies_expired(old_l, dt_ms, i as int),
        decreases n - i,
    {
        let e = dummies[i];
        if e.despawn_remaining_ms > dt_ms {
            kept.push(
                ActiveDummy {
                    entity: e.entity,
                    pos: e.pos,
                    slot_index: e.slot_index,
                    despawn_remaining_ms: e.despawn_remaining_ms - dt_ms,
                },
            );
        } else {
            expired.push(e);
        }
        i = i + 1;
    }
    *dummies = kept;
    expired
}

/// The pending entries a batch of expired dummies adds: one per dummy among
/// the first `n`, in order, each with the standard release cooldown.
pub open spec fn expired_releases(s: Seq<ActiveDummy>, n: int) -> Seq<PendingRelease>
    decreases n,
{
    if n <= 0 {
        Seq::empty()
    } else {
        expired_releases(s, n - 1).push(
            PendingRelease {
                index: s[n - 1].slot_index,
                remaining_ms: DUMMY_SLOT_FREE_AFTER_SLICE_DURATION_MS,
            },
        )
    }
}

/// `j` is the slot of one of the first `n` dummies in `s`.
pub open spec fn expired_has_slot(s: Seq<ActiveDummy>, j: int, n: int) -> bool {
    exists|k: int| 0 <= k < n && (#[trigger] s[k]).slot_index as int == j
}

/// Routes a tick's expired dummies onward: every removed occupant — expired
/// just like sliced — goes through the release cooldown before its slot can
/// host again, and each expiry scores a miss at the dummy's position. The
/// shell despawns the dummy entities themselves.
pub fn handle_expired_dummies(pool: &mut SlotPool, expired: &Vec<ActiveDummy>) -> (actions: Vec<
    ScoreAction,
>)
    requires
        old(pool).wf(),
        forall|k: int|
            0 <= k < expired@.len() ==> (#[trigger] expired@[k]).slot_index < old(
                pool,
            ).slot_count() && old(pool).state@[expired@[k].slot_index as int]
                == SlotState::Occupied,
        forall|k1: int, k2: int|
            0 <= k1 < k2 < expired@.len() ==> expired@[k1].slot_index != expired@[k2].slot_index,
    ensures
        final(pool).wf(),
        final(pool).positions@ == old(pool).positions@,
        final(pool).capacity == old(pool).capacity,
        final(pool).free@ == old(pool).free@,
        final(pool).pending@ == old(pool).pending@ + expired_releases(
            expired@,
            expired@.len() as int,
        ),
        final(pool).occupied_count == old(pool).occupied_count - expired@.len(),
        forall|j: int|
            0 <= j < old(pool).slot_count() ==> final(pool).state@[j] == (if expired_has_slot(
                expired@,
                j,
                expired@.len() as int,
            ) {
                SlotState::Pending
            } else {
                old(pool).state@[j]
            }),
        actions@.len() == expired@.len(),
        forall|k: int|
            0 <= k < expired@.len() ==> actions@[k] == (ScoreAction {
                action: ScoreActionType::Bad,
                pos: (#[trigger] expired@[k]).pos,
            }),
{
    let ghost old_state = pool.state@;
    let ghost old_pending = pool.pending@;
    let ghost n = pool.slot_count();
    let mut actions: Vec<ScoreAction> = Vec::new();
    let m = expired.len();
    let mut i: usize = 0;
    while i < m
        invariant
            pool.wf(),
            m == expired@.len(),
            i <= m,
            n == old(pool).slot_count(),
            old_state == old(pool).state@,
            old_pending == old(pool).pending@,
            forall|k: int|
                0 <= k < m ==> (#[trigger] expired@[k]).slot_index < n && old_state[expired@[
                    k
                ].slot_index as int] == SlotState::Occupied,
            forall|k1: int, k2: int|
                0 <= k1 < k2 < m ==> expired@[k1].slot_index != expired@[k2].slot_index,
            pool.positions@ == old(pool).positions@,
            pool.capacity == old(pool).capacity,
            pool.free@ == old(pool).free@,
            pool.pending@ == old_pending + expired_releases(expired@, i as int),
            pool.occupied_count == old(pool).occupied_count - i,
            pool.slot_count() == n,
            forall|j: int|
                0 <= j < n ==> pool.state@[j] == (if expired_has_slot(expired@, j, i as int) {
                    SlotState::Pending
                } else {
                    old_state[j]
                }),
            actions@.len() == i,
            forall|k: int|
                0 <= k < i ==> actions@[k] == (ScoreAction {
                    action: ScoreActionType::Bad,
                    pos: (#[trigger] expired@[k]).pos,
                }),
        decreases m - i,
    {
        let d = expired[i];
        proof {
            assert(!expired_has_slot(expired@, d.slot_index as int, i as int)) by {
                if expired_has_slot(expired@, d.slot_index as int, i as int) {
                    let k = choose|k: int|
                        0 <= k < i && (#[trigger] expired@[k]).slot_index as int == d.slot_index
                            as int;
                    assert(expired@[k].slot_index != expired@[i as int].slot_index);
                }
            }
            assert(pool.state@[d.slot_index as int] == SlotState::Occupied);
        }
        pool.queue_release(d.slot_index, DUMMY_SLOT_FREE_AFTER_SLICE_DURATION_MS);
        actions.push(ScoreAction { action: ScoreActionType::Bad, pos: d.pos });
        i = i + 1;
        proof {
            assert(pool.pending@ =~= old_pending + expired_releases(expired@, i as int));
            assert forall|j: int|
                0 <= j < n implies pool.state@[j] == (if expired_has_slot(
                expired@,
                j,
                i as int,
            ) {
                SlotState::Pending
            } else {
                old_state[j]
            }) by {
                if j == expired@[i - 1].slot_index as int {
                    assert(expired@[i - 1].slot_index as int == j);
                    assert(expired_has_slot(expired@, j, i as int));
                } else {
                    if expired_has_slot(expired@, j, i as int) {
                        let k = choose|k: int|
                            0 <= k < i && (#[trigger] expired@[k]).slot_index as int == j;
                        assert(k < i - 1);
                        assert(expired_has_slot(expired@, j, i - 1));
                    } else {
                        assert(!expired_has_slot(expired@, j, i - 1)) by {
                            if expired_has_slot(expired@, j, i - 1) {
                                let k = choose|k: int|
                                    0 <= k < i - 1 && (#[trigger] expired@[k]).slot_index as int
                                        == j;
                                assert(expired_has_slot(expired@, j, i as int));
                            }
                        }
                    }
                }
            }
        }
    }
    actions
}

} // verus!
