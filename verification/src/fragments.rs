//! Fragment lifecycle after a successful slice: the delay queue that holds a
//! cut target until its split becomes visible, the impulses the two halves
//! receive, and the shatter countdown each fragment carries.

use vstd::prelude::*;
use crate::vec3::{Vec3i, V3, sub3, add3, scale3, mid3, lemma_mul_bound};
use crate::mesh::Mesh;
use crate::timers::{TimedEntity, timed_kept, timed_fired, tick_timed};

verus! {

/// Delay between a successful cut and the visual split, so that the slash
/// animation can play first.
pub const PLAYER_SLICE_FRAGMENTATION_DELAY_MS: u64 = 85;

/// How long a fragment tumbles before it shatters into shards.
pub const SLICED_FRAGMENTS_SHATTER_DELAY_MS: u64 = 2000;

/// Impulse pushing the two halves of a cut apart.
pub const FRAGMENTS_SEPARATION_IMPULSE_FACTOR: i64 = 12;

/// Impulse along the cut direction, for a consistent follow-through motion.
pub const FRAGMENTS_SLICE_DIRECTION_IMPULSE_FACTOR: i64 = 11;

/// Torque along the source's local right axis, for a consistent spin.
pub const FRAGMENTS_TORQUE_IMPULSE_FACTOR: i64 = 3;

/// A fragment of a sliced target, counting down to its shatter.
#[derive(Clone, Copy, Debug, PartialEq, Eq, Structural)]
pub struct SlicedFragment {
    pub shatter_remaining_ms: u64,
}

impl SlicedFragment {
    /// A fresh fragment with the full shatter countdown.
    pub fn new() -> (r: SlicedFragment)
        ensures
            r.shatter_remaining_ms == SLICED_FRAGMENTS_SHATTER_DELAY_MS,
    {
        SlicedFragment { shatter_remaining_ms: SLICED_FRAGMENTS_SHATTER_DELAY_MS }
    }
}

/// Notification that a target was sliced: its id and where it stood, for
/// scoring and animation hooks.
#[derive(Clone, Copy, Debug, PartialEq, Eq, Structural)]
pub struct SliceEvent {
    pub entity: u64,
    pub pos: Vec3i,
}

/// Everything needed to turn a cut target into two live fragments once the
/// fragmentation delay has passed.
#[derive(Debug)]
pub struct FragmentSpawnJob {
    pub sliced_entity: u64,
    pub sliced_object_translation: Vec3i,
    pub slice_begin: Vec3i,
    pub slice_end: Vec3i,
    pub frag_top: Mesh,
    pub frag_bottom: Mesh,
}

/// The jobs among the first `n` still waiting after a tick of `dt`.
pub open spec fn queue_kept_timers(tm: Seq<u64>, dt: u64, n: int) -> Seq<u64>
    decreases n,
{
    if n <= 0 {
        Seq::empty()
    } else {
        let rest = queue_kept_timers(tm, dt, n - 1);
        if tm[n - 1] > dt {
            rest.push((tm[n - 1] - dt) as u64)
        } else {
            rest
        }
    }
}

/// The jobs among the first `n` kept by a tick of `dt`, in order.
pub open spec fn queue_kept_jobs(jobs: Seq<FragmentSpawnJob>, tm: Seq<u64>, dt: u64, n: int) -> Seq<
    FragmentSpawnJob,
>
    decreases n,
{
    if n <= 0 {
        Seq::empty()
    } else {
        let rest = queue_kept_jobs(jobs, tm, dt, n - 1);
        if tm[n - 1] > dt {
            rest.push(jobs[n - 1])
        } else {
            rest
        }
    }
}

/// The jobs among the first `n` that a tick of `dt` fires, in order.
pub open spec fn queue_fired_jobs(jobs: Seq<FragmentSpawnJob>, tm: Seq<u64>, dt: u64, n: int) -> Seq<
    FragmentSpawnJob,
>
    decreases n,
{
    if n <= 0 {
        Seq::empty()
    } else {
        let rest = queue_fired_jobs(jobs, tm, dt, n - 1);
        if tm[n - 1] > dt {
            rest
        } else {
            rest.push(jobs[n - 1])
        }
    }
}

/// The delay queue of pending fragmentations: each queued job waits out its
/// countdown, then fires.
#[derive(Debug)]
pub struct FragmentationQueue {
    pub jobs: Vec<FragmentSpawnJob>,
    pub timers: Vec<u64>,
}

impl FragmentationQueue {
    /// One timer per queued job.
    pub open spec fn wf(self) -> bool {
        self.jobs@.len() == self.timers@.len()
    }

    pub fn new() -> (q: FragmentationQueue)
        ensures
            q.wf(),
            q.jobs@.len() == 0,
    {
        FragmentationQueue { jobs: Vec::new(), timers: Vec::new() }
    }

    /// Queues a job to fire after `delay_ms`.
    pub fn push(&mut self, job: FragmentSpawnJob, delay_ms: u64)
        requires
            old(self).wf(),
        ensures
            final(self).wf(),
            final(self).jobs@ == old(self).jobs@.push(job),
            final(self).timers@ == old(self).timers@.push(delay_ms),
    {
        self.jobs.push(job);
        self.timers.push(delay_ms);
    }

    /// One tick of the queue: every countdown falls by the tick's delta and
    /// the jobs whose countdown runs out leave the queue and are returned,
    /// in queue order, to be turned into live fragments.
    pub fn tick(&mut self, dt_ms: u64) -> (fired: Vec<FragmentSpawnJob>)
        requires
            old(self).wf(),
        ensures
            final(self).wf(),
            final(self).jobs@ == queue_kept_jobs(
                old(self).jobs@,
                old(self).timers@,
                dt_ms,
                old(self).jobs@.len() as int,
            ),
            final(self).timers@ == queue_kept_timers(
                old(self).timers@,
                dt_ms,
                old(self).timers@.len() as int,
            ),
            fired@ == queue_fired_jobs(
                old(self).jobs@,
                old(self).timers@,
                dt_ms,
                old(self).jobs@.len() as int,
            ),
    {
        let ghost oj = self.jobs@;
        let ghost ot = self.timers@;
        let ghost np = oj.len() as int;
        let mut fired: Vec<FragmentSpawnJob> = Vec::new();
        let mut i: usize = 0;
        let ghost mut pc: int = 0;
        while i < self.jobs.len()
            invariant
                self.wf(),
                oj.len() == ot.len(),
                np == oj.len(),
                0 <= pc <= np,
                i as int == queue_kept_jobs(oj, ot, dt_ms, pc).len(),
                self.jobs@ == queue_kept_jobs(oj, ot, dt_ms, pc) + oj.subrange(pc, np),
                self.timers@ == queue_kept_timers(ot, dt_ms, pc) + ot.subrange(pc, np),
                fired@ == queue_fired_jobs(oj, ot, dt_ms, pc),
            decreases self.jobs@.len() - i,
        {
            proof {
                assert(self.jobs@.len() == i + (np - pc));
                assert(pc < np);
                assert(self.timers@[i as int] == ot[pc]);
            }
            let rem = self.timers[i];
            if rem > dt_ms {
                self.timers[i] = rem - dt_ms;
                i = i + 1;
                proof {
                    pc = pc + 1;
                    assert(self.jobs@ =~= queue_kept_jobs(oj, ot, dt_ms, pc) + oj.subrange(
                        pc,
                        np,
                    ));
                    assert(self.timers@ =~= queue_kept_timers(ot, dt_ms, pc) + ot.subrange(
                        pc,
                        np,
                    ));
                }
            } else {
                self.timers.remove(i);
                let job = self.jobs.remove(i);
                fired.push(job);
                proof {
                    pc = pc + 1;
                    assert(self.jobs@ =~= queue_kept_jobs(oj, ot, dt_ms, pc) + oj.subrange(
                        pc,
                        np,
                    ));
                    assert(self.timers@ =~= queue_kept_timers(ot, dt_ms, pc) + ot.subrange(
                        pc,
                        np,
                    ));
                }
            }
        }
        proof {
            assert(pc == np);
            assert(self.jobs@ =~= queue_kept_jobs(oj, ot, dt_ms, np));
            assert(self.timers@ =~= queue_kept_timers(ot, dt_ms, np));
        }
        fired
    }
}

/// The separation impulse a fragment receives: it pushes the fragment's
/// centre away from the cut's midpoint in the target's local frame. The
/// direction is not normalised; the factor is a tunable scale on the raw
/// offset.
pub open spec fn separation_impulse(frag_center: V3, local_slice_center: V3) -> V3 {
    scale3(FRAGMENTS_SEPARATION_IMPULSE_FACTOR as int, sub3(frag_center, local_slice_center))
}

/// The follow-through impulse every fragment receives along the cut, from
/// its begin point to its end point; again a scale on the raw direction.
pub open spec fn slice_direction_impulse(begin: V3, end: V3) -> V3 {
    scale3(FRAGMENTS_SLICE_DIRECTION_IMPULSE_FACTOR as int, sub3(end, begin))
}

/// The impulse for one fragment of a fired job: the separation impulse from
/// the cut's local midpoint plus the follow-through impulse along the cut.
pub fn fragment_impulse(
    frag_center: Vec3i,
    slice_begin: Vec3i,
    slice_end: Vec3i,
    translation: Vec3i,
) -> (r: Vec3i)
    requires
        frag_center.bounded(),
        slice_begin.bounded(),
        slice_end.bounded(),
        translation.bounded(),
    ensures
        r@ == add3(
            separation_impulse(
                frag_center@,
                sub3(mid3(slice_begin@, slice_end@), translation@),
            ),
            slice_direction_impulse(slice_begin@, slice_end@),
        ),
{
    let slice_center = slice_begin.midpoint(slice_end);
    let sep_x = frag_center.x - (slice_center.x - translation.x);
    let sep_y = frag_center.y - (slice_center.y - translation.y);
    let sep_z = frag_center.z - (slice_center.z - translation.z);
    proof {
        lemma_mul_bound(sep_x as int, 12, 4294967296, 12);
        lemma_mul_bound(sep_y as int, 12, 4294967296, 12);
        lemma_mul_bound(sep_z as int, 12, 4294967296, 12);
        lemma_mul_bound(slice_end@.x - slice_begin@.x, 11, 4294967296, 11);
        lemma_mul_bound(slice_end@.y - slice_begin@.y, 11, 4294967296, 11);
        lemma_mul_bound(slice_end@.z - slice_begin@.z, 11, 4294967296, 11);
    }
    let x = sep_x * 12 + (slice_end.x - slice_begin.x) * 11;
    let y = sep_y * 12 + (slice_end.y - slice_begin.y) * 11;
    let z = sep_z * 12 + (slice_end.z - slice_begin.z) * 11;
    Vec3i { x, y, z }
}

/// The torque impulse every fragment receives: a fixed spin along the
/// source's local right axis.
pub fn fragment_torque_impulse() -> (r: Vec3i)
    ensures
        r@ == (V3 { x: FRAGMENTS_TORQUE_IMPULSE_FACTOR as int, y: 0, z: 0 }),
{
    Vec3i { x: FRAGMENTS_TORQUE_IMPULSE_FACTOR, y: 0, z: 0 }
}

/// One tick of the fragments' shatter countdowns: returns the fragments
/// whose countdown ran out, which are to be shattered and removed.
pub fn shatter_fragments(fragments: &mut Vec<TimedEntity>, dt_ms: u64) -> (to_shatter: Vec<u64>)
    ensures
        final(fragments)@ == timed_kept(old(fragments)@, dt_ms, old(fragments)@.len() as int),
        to_shatter@ == timed_fired(old(fragments)@, dt_ms, old(fragments)@.len() as int),
{
    tick_timed(fragments, dt_ms)
}

} // verus!
