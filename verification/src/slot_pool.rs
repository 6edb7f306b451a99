//! The spawn-slot pool: a fixed set of spawn positions with admission
//! control and deferred release.
//!
//! Every slot is in exactly one of three states — free, pending release, or
//! occupied — and the pool keeps that partition at all times: the free list
//! and the pending queue mirror the per-slot state exactly, hold no
//! duplicates, and the occupied count never passes the capacity. Admission
//! picks a random free slot; releasing a slot parks it in the pending queue
//! until its cooldown has ticked away.

use vstd::prelude::*;
use crate::vec3::Vec3i;
use crate::rng::random_below;

verus! {

/// Cooldown before a released slot — its occupant sliced or expired — can
/// be used again, in milliseconds.
pub const DUMMY_SLOT_FREE_AFTER_SLICE_DURATION_MS: u64 = 3000;

/// State of one spawn slot.
#[derive(Clone, Copy, Debug, PartialEq, Eq, Structural)]
pub enum SlotState {
    /// Eligible for admission.
    Free,
    /// Released, but still cooling down.
    Pending,
    /// Holding an occupant.
    Occupied,
}

/// A queued release: which slot, and how much cooldown is left before it
/// becomes free again.
#[derive(Clone, Copy, Debug, PartialEq, Eq, Structural)]
pub struct PendingRelease {
    pub index: usize,
    pub remaining_ms: u64,
}

/// How many of the first `n` slots are in state `st`.
pub open spec fn count_state(s: Seq<SlotState>, st: SlotState, n: int) -> int
    decreases n,
{
    if n <= 0 {
        0
    } else {
        count_state(s, st, n - 1) + if s[n - 1] == st {
            1int
        } else {
            0int
        }
    }
}

/// Counting only looks at the first `n` elements.
pub proof fn lemma_count_agree(s1: Seq<SlotState>, s2: Seq<SlotState>, st: SlotState, n: int)
    requires
        n <= s1.len(),
        n <= s2.len(),
        forall|k: int| 0 <= k < n ==> s1[k] == s2[k],
    ensures
        count_state(s1, st, n) == count_state(s2, st, n),
    decreases n,
{
    if n > 0 {
        lemma_count_agree(s1, s2, st, n - 1);
    }
}

/// Updating one slot's state moves the count by the difference at that
/// slot.
pub proof fn lemma_count_update(s: Seq<SlotState>, i: int, v: SlotState, st: SlotState, n: int)
    requires
        0 <= i < n <= s.len(),
    ensures
        count_state(s.update(i, v), st, n) == count_state(s, st, n) - (if s[i] == st {
            1int
        } else {
            0int
        }) + (if v == st {
            1int
        } else {
            0int
        }),
    decreases n,
{
    if i == n - 1 {
        lemma_count_agree(s.update(i, v), s, st, n - 1);
    } else {
        lemma_count_update(s, i, v, st, n - 1);
    }
}

/// The count of any state is at most the prefix length.
pub proof fn lemma_count_bound(s: Seq<SlotState>, st: SlotState, n: int)
    requires
        0 <= n <= s.len(),
    ensures
        0 <= count_state(s, st, n) <= n,
    decreases n,
{
    if n > 0 {
        lemma_count_bound(s, st, n - 1);
    }
}

/// A prefix holding a slot in state `st` counts at least one.
pub proof fn lemma_count_at_least_one(s: Seq<SlotState>, st: SlotState, i: int, n: int)
    requires
        0 <= i < n <= s.len(),
        s[i] == st,
    ensures
        count_state(s, st, n) >= 1,
    decreases n,
{
    if i == n - 1 {
        lemma_count_bound(s, st, n - 1);
    } else {
        lemma_count_at_least_one(s, st, i, n - 1);
    }
}

/// `i` occurs among the indices in `s`.
pub open spec fn contains_idx(s: Seq<usize>, i: int) -> bool {
    exists|k: int| 0 <= k < s.len() && s[k] as int == i
}

/// `i` occurs among the slot indices of the pending queue.
pub open spec fn pending_has(p: Seq<PendingRelease>, i: int) -> bool {
    exists|k: int| 0 <= k < p.len() && p[k].index as int == i
}

pub open spec fn distinct_indices(s: Seq<usize>) -> bool {
    forall|k1: int, k2: int| 0 <= k1 < k2 < s.len() ==> s[k1] != s[k2]
}

pub open spec fn distinct_pending(p: Seq<PendingRelease>) -> bool {
    forall|k1: int, k2: int| 0 <= k1 < k2 < p.len() ==> p[k1].index != p[k2].index
}

/// The pending entries still cooling after a tick of `dt`, looking at the
/// first `n` queue entries: those with more than `dt` left, their remaining
/// cooldown reduced by `dt`, in queue order.
pub open spec fn pending_kept(p: Seq<PendingRelease>, dt: u64, n: int) -> Seq<PendingRelease>
    decreases n,
{
    if n <= 0 {
        Seq::empty()
    } else {
        let rest = pending_kept(p, dt, n - 1);
        let e = p[n - 1];
        if e.remaining_ms > dt {
            rest.push(PendingRelease { index: e.index, remaining_ms: (e.remaining_ms - dt) as u64 })
        } else {
            rest
        }
    }
}

/// The slots a tick of `dt` frees among the first `n` queue entries: those
/// whose cooldown has run out, in queue order.
pub open spec fn pending_fired(p: Seq<PendingRelease>, dt: u64, n: int) -> Seq<usize>
    decreases n,
{
    if n <= 0 {
        Seq::empty()
    } else {
        let rest = pending_fired(p, dt, n - 1);
        let e = p[n - 1];
        if e.remaining_ms > dt {
            rest
        } else {
            rest.push(e.index)
        }
    }
}

/// Every kept entry descends from a queue entry with cooldown left, and
/// every fired index from one whose cooldown ran out.
#[verifier::rlimit(40)]
#[verifier::spinoff_prover]
pub proof fn lemma_pending_sources(p: Seq<PendingRelease>, dt: u64, n: int)
    requires
        0 <= n <= p.len(),
    ensures
        forall|k: int|
            0 <= k < pending_kept(p, dt, n).len() ==> exists|j: int|
                #![trigger p[j].index]
                0 <= j < n && (#[trigger] pending_kept(p, dt, n)[k]).index == p[j].index && p[j].remaining_ms > dt && pending_kept(p, dt, n)[k].remaining_ms == p[j].remaining_ms
                    - dt,
        forall|k: int|
            0 <= k < pending_fired(p, dt, n).len() ==> exists|j: int|
                #![trigger p[j].index]
                0 <= j < n && (#[trigger] pending_fired(p, dt, n)[k]) == p[j].index && p[j].remaining_ms <= dt,
    decreases n,
{
    if n > 0 {
        lemma_pending_sources(p, dt, n - 1);
        let kn = pending_kept(p, dt, n);
        let kp = pending_kept(p, dt, n - 1);
        let fn_ = pending_fired(p, dt, n);
        let fp = pending_fired(p, dt, n - 1);
        assert forall|k: int|
            0 <= k < kn.len() implies exists|j: int|
            #![trigger p[j].index]
            0 <= j < n && (#[trigger] kn[k]).index == p[j].index && p[j].remaining_ms > dt && kn[
            k].remaining_ms == p[j].remaining_ms - dt by {
            if p[n - 1].remaining_ms > dt && k == kn.len() - 1 {
                assert(0 <= n - 1 < n && kn[k].index == p[n - 1].index && p[n - 1].remaining_ms
                    > dt && kn[k].remaining_ms == p[n - 1].remaining_ms - dt);
            } else {
                assert(kn[k] == kp[k]);
                let j = choose|j: int|
                    0 <= j < n - 1 && (#[trigger] kp[k]).index == p[j].index && p[j].remaining_ms
                        > dt && kp[k].remaining_ms == p[j].remaining_ms - dt;
                assert(0 <= j < n && kn[k].index == p[j].index && p[j].remaining_ms > dt && kn[
                k].remaining_ms == p[j].remaining_ms - dt);
            }
        }
        assert forall|k: int|
            0 <= k < pending_fired(p, dt, n).len() implies exists|j: int|
            #![trigger p[j].index]
            0 <= j < n && (#[trigger] pending_fired(p, dt, n)[k]) == p[j].index
                && p[j].remaining_ms <= dt by {
            if p[n - 1].remaining_ms <= dt && k == fn_.len() - 1 {
                assert(0 <= n - 1 < n && fn_[k] == p[n - 1].index && p[n - 1].remaining_ms <= dt);
            } else {
                assert(fn_[k] == fp[k]);
                let j = choose|j: int|
                    0 <= j < n - 1 && (#[trigger] fp[k]) == p[j].index && p[j].remaining_ms <= dt;
                assert(0 <= j < n && fn_[k] == p[j].index && p[j].remaining_ms <= dt);
            }
        }
    } else {
        assert(pending_kept(p, dt, n).len() == 0);
        assert(pending_fired(p, dt, n).len() == 0);
    }
}

/// An entry with cooldown left is kept; one whose cooldown ran out fires.
pub proof fn lemma_pending_membership(p: Seq<PendingRelease>, dt: u64, n: int, j: int)
    requires
        0 <= j < n <= p.len(),
    ensures
        p[j].remaining_ms > dt ==> pending_has(pending_kept(p, dt, n), p[j].index as int),
        p[j].remaining_ms <= dt ==> contains_idx(pending_fired(p, dt, n), p[j].index as int),
    decreases n,
{
    if j < n - 1 {
        lemma_pending_membership(p, dt, n - 1, j);
        if p[j].remaining_ms > dt {
            let k = choose|k: int|
                0 <= k < pending_kept(p, dt, n - 1).len() && (#[trigger] pending_kept(
                    p,
                    dt,
                    n - 1,
                )[k]).index as int == p[j].index as int;
            assert(pending_kept(p, dt, n)[k].index as int == p[j].index as int);
        } else {
            let k = choose|k: int|
                0 <= k < pending_fired(p, dt, n - 1).len() && (#[trigger] pending_fired(
                    p,
                    dt,
                    n - 1,
                )[k]) as int == p[j].index as int;
            assert(pending_fired(p, dt, n)[k] as int == p[j].index as int);
        }
    } else {
        if p[j].remaining_ms > dt {
            let kk = pending_kept(p, dt, n);
            assert(kk[kk.len() - 1].index as int == p[j].index as int);
        } else {
            let ff = pending_fired(p, dt, n);
            assert(ff[ff.len() - 1] as int == p[j].index as int);
        }
    }
}

/// A queue without duplicate indices keeps that shape on both sides of a
/// tick.
pub proof fn lemma_pending_distinct(p: Seq<PendingRelease>, dt: u64, n: int)
    requires
        0 <= n <= p.len(),
        forall|j1: int, j2: int| 0 <= j1 < j2 < n ==> p[j1].index != p[j2].index,
    ensures
        distinct_pending(pending_kept(p, dt, n)),
        distinct_indices(pending_fired(p, dt, n)),
    decreases n,
{
    if n > 0 {
        lemma_pending_distinct(p, dt, n - 1);
        lemma_pending_sources(p, dt, n - 1);
    }
}

/// How often index `i` occurs among the first `n` elements of `s`.
pub open spec fn count_idx(s: Seq<usize>, i: int, n: int) -> int
    decreases n,
{
    if n <= 0 {
        0
    } else {
        count_idx(s, i, n - 1) + if s[n - 1] as int == i {
            1int
        } else {
            0int
        }
    }
}

/// How many of the first `n` pending entries carry slot index `i`.
pub open spec fn count_pending_idx(p: Seq<PendingRelease>, i: int, n: int) -> int
    decreases n,
{
    if n <= 0 {
        0
    } else {
        count_pending_idx(p, i, n - 1) + if p[n - 1].index as int == i {
            1int
        } else {
            0int
        }
    }
}

pub proof fn lemma_count_idx_nonneg(s: Seq<usize>, i: int, n: int)
    ensures
        count_idx(s, i, n) >= 0,
    decreases n,
{
    if n > 0 {
        lemma_count_idx_nonneg(s, i, n - 1);
    }
}

pub proof fn lemma_count_pending_idx_nonneg(p: Seq<PendingRelease>, i: int, n: int)
    ensures
        count_pending_idx(p, i, n) >= 0,
    decreases n,
{
    if n > 0 {
        lemma_count_pending_idx_nonneg(p, i, n - 1);
    }
}

/// An entry with index `i` among the first `n` makes the count positive.
pub proof fn lemma_count_pending_idx_pos(p: Seq<PendingRelease>, i: int, k: int, n: int)
    requires
        0 <= k < n <= p.len(),
        p[k].index as int == i,
    ensures
        count_pending_idx(p, i, n) >= 1,
    decreases n,
{
    if k == n - 1 {
        lemma_count_pending_idx_nonneg(p, i, n - 1);
    } else {
        lemma_count_pending_idx_pos(p, i, k, n - 1);
    }
}

pub proof fn lemma_count_idx_pos(s: Seq<usize>, i: int, k: int, n: int)
    requires
        0 <= k < n <= s.len(),
        s[k] as int == i,
    ensures
        count_idx(s, i, n) >= 1,
    decreases n,
{
    if k == n - 1 {
        lemma_count_idx_nonneg(s, i, n - 1);
    } else {
        lemma_count_idx_pos(s, i, k, n - 1);
    }
}

/// Counting only looks at the first `n` elements.
pub proof fn lemma_count_idx_agree(s1: Seq<usize>, s2: Seq<usize>, i: int, n: int)
    requires
        n <= s1.len(),
        n <= s2.len(),
        forall|k: int| 0 <= k < n ==> s1[k] == s2[k],
    ensures
        count_idx(s1, i, n) == count_idx(s2, i, n),
    decreases n,
{
    if n > 0 {
        lemma_count_idx_agree(s1, s2, i, n - 1);
    }
}

pub proof fn lemma_count_pending_idx_agree(
    p1: Seq<PendingRelease>,
    p2: Seq<PendingRelease>,
    i: int,
    n: int,
)
    requires
        n <= p1.len(),
        n <= p2.len(),
        forall|k: int| 0 <= k < n ==> p1[k] == p2[k],
    ensures
        count_pending_idx(p1, i, n) == count_pending_idx(p2, i, n),
    decreases n,
{
    if n > 0 {
        lemma_count_pending_idx_agree(p1, p2, i, n - 1);
    }
}

/// Occurrences in a concatenation add up.
pub proof fn lemma_count_idx_concat(a: Seq<usize>, b: Seq<usize>, i: int)
    ensures
        count_idx(a + b, i, (a + b).len() as int) == count_idx(a, i, a.len() as int) + count_idx(
            b,
            i,
            b.len() as int,
        ),
    decreases b.len(),
{
    if b.len() == 0 {
        assert(a + b =~= a);
        lemma_count_idx_agree(a + b, a, i, a.len() as int);
    } else {
        let b0 = b.drop_last();
        lemma_count_idx_concat(a, b0, i);
        assert(a + b0 =~= (a + b).subrange(0, (a + b).len() - 1));
        lemma_count_idx_agree(a + b0, a + b, i, (a + b0).len() as int);
        lemma_count_idx_agree(b0, b, i, b0.len() as int);
        assert((a + b)[(a + b).len() - 1] == b[b.len() - 1]);
    }
}

/// One tick conserves index occurrences: every entry either stays pending
/// or fires, so the kept count and the fired count add up to the original.
pub proof fn lemma_tick_count(p: Seq<PendingRelease>, dt: u64, i: int, n: int)
    requires
        0 <= n <= p.len(),
    ensures
        count_pending_idx(pending_kept(p, dt, n), i, pending_kept(p, dt, n).len() as int)
            + count_idx(pending_fired(p, dt, n), i, pending_fired(p, dt, n).len() as int)
            == count_pending_idx(p, i, n),
    decreases n,
{
    if n > 0 {
        lemma_tick_count(p, dt, i, n - 1);
        let kp = pending_kept(p, dt, n - 1);
        let fp = pending_fired(p, dt, n - 1);
        let kn = pending_kept(p, dt, n);
        let fn_ = pending_fired(p, dt, n);
        lemma_count_pending_idx_agree(kn, kp, i, kp.len() as int);
        lemma_count_idx_agree(fn_, fp, i, fp.len() as int);
    }
}

/// An entry whose cooldown outlasts the tick survives it, with the tick's
/// delta taken off.
pub proof fn lemma_kept_entry(p: Seq<PendingRelease>, dt: u64, n: int, j: int)
    requires
        0 <= j < n <= p.len(),
        p[j].remaining_ms > dt,
    ensures
        exists|k: int|
            0 <= k < pending_kept(p, dt, n).len() && #[trigger] pending_kept(p, dt, n)[k] == (
            PendingRelease { index: p[j].index, remaining_ms: (p[j].remaining_ms - dt) as u64 }),
    decreases n,
{
    let target = PendingRelease { index: p[j].index, remaining_ms: (p[j].remaining_ms - dt) as u64 };
    if j == n - 1 {
        let kn = pending_kept(p, dt, n);
        assert(kn[kn.len() - 1] == target);
    } else {
        lemma_kept_entry(p, dt, n - 1, j);
        let kp = pending_kept(p, dt, n - 1);
        let k = choose|k: int| 0 <= k < kp.len() && #[trigger] kp[k] == target;
        assert(pending_kept(p, dt, n)[k] == target);
    }
}

/// Total of a sequence of tick deltas.
pub open spec fn sum_dts(dts: Seq<u64>) -> int
    decreases dts.len(),
{
    if dts.len() == 0 {
        0
    } else {
        dts[0] + sum_dts(dts.drop_first())
    }
}

/// The pending queue after a whole sequence of ticks.
pub open spec fn pending_after(p: Seq<PendingRelease>, dts: Seq<u64>) -> Seq<PendingRelease>
    decreases dts.len(),
{
    if dts.len() == 0 {
        p
    } else {
        pending_after(pending_kept(p, dts[0], p.len() as int), dts.drop_first())
    }
}

/// Every slot freed during a whole sequence of ticks, in order.
pub open spec fn fired_after(p: Seq<PendingRelease>, dts: Seq<u64>) -> Seq<usize>
    decreases dts.len(),
{
    if dts.len() == 0 {
        Seq::empty()
    } else {
        pending_fired(p, dts[0], p.len() as int) + fired_after(
            pending_kept(p, dts[0], p.len() as int),
            dts.drop_first(),
        )
    }
}

/// A queue with no entry for slot `i` never frees `i`, however many ticks
/// pass.
pub proof fn lemma_no_entry_never_fires(p: Seq<PendingRelease>, dts: Seq<u64>, i: int)
    requires
        count_pending_idx(p, i, p.len() as int) == 0,
    ensures
        count_idx(fired_after(p, dts), i, fired_after(p, dts).len() as int) == 0,
    decreases dts.len(),
{
    if dts.len() > 0 {
        let kept = pending_kept(p, dts[0], p.len() as int);
        let fired = pending_fired(p, dts[0], p.len() as int);
        lemma_tick_count(p, dts[0], i, p.len() as int);
        lemma_count_pending_idx_nonneg(kept, i, kept.len() as int);
        lemma_count_idx_nonneg(fired, i, fired.len() as int);
        lemma_no_entry_never_fires(kept, dts.drop_first(), i);
        lemma_count_idx_concat(fired, fired_after(kept, dts.drop_first()), i);
    }
}

/// Deferred release holds the slot: while the ticks' total stays below the
/// cooldown of the single pending entry for slot `i`, the slot is never
/// freed, and its entry waits on with the total taken off.
pub proof fn lemma_deferred_release_holds(p: Seq<PendingRelease>, dts: Seq<u64>, j: int)
    requires
        0 <= j < p.len(),
        count_pending_idx(p, p[j].index as int, p.len() as int) == 1,
        sum_dts(dts) < p[j].remaining_ms,
    ensures
        count_idx(fired_after(p, dts), p[j].index as int, fired_after(p, dts).len() as int) == 0,
        exists|k: int|
            0 <= k < pending_after(p, dts).len() && #[trigger] pending_after(p, dts)[k] == (
            PendingRelease {
                index: p[j].index,
                remaining_ms: (p[j].remaining_ms - sum_dts(dts)) as u64,
            }),
    decreases dts.len(),
{
    let i = p[j].index as int;
    if dts.len() == 0 {
        assert(sum_dts(dts) == 0);
        assert(pending_after(p, dts) == p);
        assert((p[j].remaining_ms - sum_dts(dts)) as u64 == p[j].remaining_ms);
        assert(pending_after(p, dts)[j] == (PendingRelease {
            index: p[j].index,
            remaining_ms: (p[j].remaining_ms - sum_dts(dts)) as u64,
        }));
    } else {
        let dt = dts[0];
        let kept = pending_kept(p, dt, p.len() as int);
        let fired = pending_fired(p, dt, p.len() as int);
        assert(sum_dts(dts.drop_first()) >= 0) by {
            lemma_sum_dts_nonneg(dts.drop_first());
        }
        assert(p[j].remaining_ms > dt);
        lemma_kept_entry(p, dt, p.len() as int, j);
        let k = choose|k: int|
            0 <= k < kept.len() && #[trigger] kept[k] == (PendingRelease {
                index: p[j].index,
                remaining_ms: (p[j].remaining_ms - dt) as u64,
            });
        lemma_tick_count(p, dt, i, p.len() as int);
        lemma_count_pending_idx_pos(kept, i, k, kept.len() as int);
        lemma_count_idx_nonneg(fired, i, fired.len() as int);
        lemma_count_pending_idx_nonneg(kept, i, kept.len() as int);
        assert(count_pending_idx(kept, i, kept.len() as int) == 1);
        assert(count_idx(fired, i, fired.len() as int) == 0);
        lemma_deferred_release_holds(kept, dts.drop_first(), k);
        lemma_count_idx_concat(fired, fired_after(kept, dts.drop_first()), i);
        assert(fired_after(p, dts) == fired + fired_after(kept, dts.drop_first()));
        assert(pending_after(p, dts) == pending_after(kept, dts.drop_first()));
        assert(sum_dts(dts) == dt + sum_dts(dts.drop_first()));
        let k2 = choose|k2: int|
            0 <= k2 < pending_after(kept, dts.drop_first()).len() && #[trigger] pending_after(
                kept,
                dts.drop_first(),
            )[k2] == (PendingRelease {
                index: kept[k].index,
                remaining_ms: (kept[k].remaining_ms - sum_dts(dts.drop_first())) as u64,
            });
        assert(pending_after(p, dts)[k2] == (PendingRelease {
            index: p[j].index,
            remaining_ms: (p[j].remaining_ms - sum_dts(dts)) as u64,
        }));
    }
}

pub proof fn lemma_sum_dts_nonneg(dts: Seq<u64>)
    ensures
        sum_dts(dts) >= 0,
    decreases dts.len(),
{
    if dts.len() > 0 {
        lemma_sum_dts_nonneg(dts.drop_first());
    }
}

/// Deferred release frees the slot exactly once: as soon as the ticks'
/// total reaches the cooldown of the single pending entry for slot `i`,
/// the slot appears exactly once among everything those ticks freed.
pub proof fn lemma_deferred_release_fires_once(p: Seq<PendingRelease>, dts: Seq<u64>, j: int)
    requires
        0 <= j < p.len(),
        dts.len() >= 1,
        count_pending_idx(p, p[j].index as int, p.len() as int) == 1,
        sum_dts(dts) >= p[j].remaining_ms,
    ensures
        count_idx(fired_after(p, dts), p[j].index as int, fired_after(p, dts).len() as int) == 1,
    decreases dts.len(),
{
    let i = p[j].index as int;
    let dt = dts[0];
    let kept = pending_kept(p, dt, p.len() as int);
    let fired = pending_fired(p, dt, p.len() as int);
    lemma_tick_count(p, dt, i, p.len() as int);
    lemma_count_pending_idx_nonneg(kept, i, kept.len() as int);
    lemma_count_idx_nonneg(fired, i, fired.len() as int);
    lemma_count_idx_concat(fired, fired_after(kept, dts.drop_first()), i);
    if p[j].remaining_ms > dt {
        lemma_kept_entry(p, dt, p.len() as int, j);
        let k = choose|k: int|
            0 <= k < kept.len() && #[trigger] kept[k] == (PendingRelease {
                index: p[j].index,
                remaining_ms: (p[j].remaining_ms - dt) as u64,
            });
        lemma_count_pending_idx_pos(kept, i, k, kept.len() as int);
        assert(count_pending_idx(kept, i, kept.len() as int) == 1);
        assert(count_idx(fired, i, fired.len() as int) == 0);
        lemma_sum_dts_nonneg(dts.drop_first());
        assert(dts.drop_first().len() >= 1) by {
            if dts.drop_first().len() == 0 {
                assert(sum_dts(dts) == dt);
            }
        }
        lemma_deferred_release_fires_once(kept, dts.drop_first(), k);
        assert(fired_after(p, dts) == fired + fired_after(kept, dts.drop_first()));
    } else {
        lemma_pending_membership(p, dt, p.len() as int, j);
        let k = choose|k: int| 0 <= k < fired.len() && fired[k] as int == i;
        lemma_count_idx_pos(fired, i, k, fired.len() as int);
        assert(count_idx(fired, i, fired.len() as int) == 1);
        assert(count_pending_idx(kept, i, kept.len() as int) == 0);
        lemma_no_entry_never_fires(kept, dts.drop_first(), i);
        assert(fired_after(p, dts) == fired + fired_after(kept, dts.drop_first()));
    }
}

/// The spawn-slot pool. `state` is the ground truth per slot; the free list
/// and the pending queue mirror it so that admission can draw a random free
/// slot and release cooldowns can tick.
#[derive(Debug)]
pub struct SlotPool {
    pub positions: Vec<Vec3i>,
    pub state: Vec<SlotState>,
    pub free: Vec<usize>,
    pub pending: Vec<PendingRelease>,
    pub occupied_count: usize,
    pub capacity: usize,
}

impl SlotPool {
    pub open spec fn slot_count(self) -> int {
        self.positions@.len() as int
    }

    /// The pool's invariant: the lists mirror the per-slot states exactly
    /// and without duplicates, the occupied count is the number of occupied
    /// slots, and it never exceeds the capacity. Since `state` gives each
    /// slot exactly one of the three states, every slot is free, pending,
    /// or occupied — never two of these at once.
    pub open spec fn wf(self) -> bool {
        let n = self.slot_count();
        &&& self.state@.len() == n
        &&& forall|k: int|
            0 <= k < self.free@.len() ==> (#[trigger] self.free@[k]) < n
                && self.state@[self.free@[k] as int] == SlotState::Free
        &&& forall|i: int|
            0 <= i < n && #[trigger] self.state@[i] == SlotState::Free ==> contains_idx(
                self.free@,
                i,
            )
        &&& distinct_indices(self.free@)
        &&& forall|k: int|
            0 <= k < self.pending@.len() ==> (#[trigger] self.pending@[k]).index < n
                && self.state@[self.pending@[k].index as int] == SlotState::Pending
        &&& forall|i: int|
            0 <= i < n && #[trigger] self.state@[i] == SlotState::Pending ==> pending_has(
                self.pending@,
                i,
            )
        &&& distinct_pending(self.pending@)
        &&& self.occupied_count == count_state(self.state@, SlotState::Occupied, n)
        &&& self.occupied_count <= self.capacity
    }

    /// Every slot of a well-formed pool is in exactly one place: on the
    /// free list exactly when its state is free, in the pending queue
    /// exactly when its state is pending, and otherwise occupied — never
    /// in two of these at once. The occupied count never exceeds the
    /// capacity.
    pub proof fn lemma_slot_in_exactly_one(self, i: int)
        requires
            self.wf(),
            0 <= i < self.slot_count(),
        ensures
            contains_idx(self.free@, i) <==> self.state@[i] == SlotState::Free,
            pending_has(self.pending@, i) <==> self.state@[i] == SlotState::Pending,
            !(contains_idx(self.free@, i) && pending_has(self.pending@, i)),
            self.state@[i] == SlotState::Occupied <==> (!contains_idx(self.free@, i)
                && !pending_has(self.pending@, i)),
            self.occupied_count <= self.capacity,
    {
        if contains_idx(self.free@, i) {
            let k = choose|k: int| 0 <= k < self.free@.len() && self.free@[k] as int == i;
            assert(self.state@[self.free@[k] as int] == SlotState::Free);
        }
        if pending_has(self.pending@, i) {
            let k = choose|k: int|
                0 <= k < self.pending@.len() && self.pending@[k].index as int == i;
            assert(self.state@[self.pending@[k].index as int] == SlotState::Pending);
        }
    }

    /// An empty pool that will admit at most `capacity` occupants at once.
    pub fn new(capacity: usize) -> (p: SlotPool)
        ensures
            p.wf(),
            p.slot_count() == 0,
            p.capacity == capacity,
            p.free@.len() == 0,
            p.pending@.len() == 0,
            p.occupied_count == 0,
    {
        SlotPool {
            positions: Vec::new(),
            state: Vec::new(),
            free: Vec::new(),
            pending: Vec::new(),
            occupied_count: 0,
            capacity,
        }
    }

    /// Adds a spawn position as a new, free slot and returns its index.
    pub fn register_slot(&mut self, position: Vec3i) -> (idx: usize)
        requires
            old(self).wf(),
            old(self).slot_count() < usize::MAX,
        ensures
            final(self).wf(),
            idx as int == old(self).slot_count(),
            final(self).positions@ == old(self).positions@.push(position),
            final(self).state@ == old(self).state@.push(SlotState::Free),
            final(self).free@ == old(self).free@.push(idx),
            final(self).pending@ == old(self).pending@,
            final(self).occupied_count == old(self).occupied_count,
            final(self).capacity == old(self).capacity,
    {
        let idx = self.positions.len();
        self.positions.push(position);
        self.state.push(SlotState::Free);
        self.free.push(idx);
        proof {
            lemma_count_agree(
                self.state@,
                old(self).state@,
                SlotState::Occupied,
                old(self).slot_count(),
            );
            assert forall|i: int|
                0 <= i < self.slot_count() && #[trigger] self.state@[i]
                    == SlotState::Free implies contains_idx(self.free@, i) by {
                if i < old(self).slot_count() {
                    assert(contains_idx(old(self).free@, i));
                    let k = choose|k: int|
                        0 <= k < old(self).free@.len() && old(self).free@[k] as int == i;
                    assert(self.free@[k] as int == i);
                } else {
                    assert(self.free@[self.free@.len() - 1] as int == i);
                }
            }
        }
        idx
    }

    /// Admission control: when a free slot exists and the capacity allows
    /// another occupant, a uniformly random free slot becomes occupied and
    /// its index is returned; otherwise nothing changes and `None` comes
    /// back, so the pool never holds more occupants than its capacity.
    pub fn try_admit(&mut self) -> (r: Option<usize>)
        requires
            old(self).wf(),
        ensures
            final(self).wf(),
            final(self).positions@ == old(self).positions@,
            final(self).pending@ == old(self).pending@,
            final(self).capacity == old(self).capacity,
            r is None <==> (old(self).free@.len() == 0 || old(self).occupied_count >= old(self).capacity),
            r is None ==> *final(self) == *old(self),
            match r {
                Some(idx) => {
                    &&& idx < old(self).slot_count()
                    &&& contains_idx(old(self).free@, idx as int)
                    &&& final(self).state@ == old(self).state@.update(
                        idx as int,
                        SlotState::Occupied,
                    )
                    &&& final(self).occupied_count == old(self).occupied_count + 1
                    &&& exists|k: int|
                        0 <= k < old(self).free@.len() && old(self).free@[k] == idx && final(self).free@ == old(self).free@.update(k, old(self).free@.last()).drop_last()
                },
                None => true,
            },
    {
        if self.free.len() == 0 || self.occupied_count >= self.capacity {
            return None;
        }
        let k = random_below(self.free.len());
        let idx = self.free[k];
        let ghost old_free = self.free@;
        self.free.swap_remove(k);
        proof {
            lemma_count_update(
                old(self).state@,
                idx as int,
                SlotState::Occupied,
                SlotState::Occupied,
                old(self).slot_count(),
            );
        }
        self.state[idx] = SlotState::Occupied;
        self.occupied_count = self.occupied_count + 1;
        proof {
            let n = self.slot_count();
            assert forall|kk: int|
                0 <= kk < self.free@.len() implies (#[trigger] self.free@[kk]) < n
                && self.state@[self.free@[kk] as int] == SlotState::Free by {
                if kk == k {
                    assert(self.free@[kk] == old_free[old_free.len() - 1]);
                } else {
                    assert(self.free@[kk] == old_free[kk]);
                }
                assert(self.free@[kk] != idx);
            }
            assert forall|i: int|
                0 <= i < n && #[trigger] self.state@[i] == SlotState::Free implies contains_idx(
                self.free@,
                i,
            ) by {
                assert(i != idx);
                assert(old(self).state@[i] == SlotState::Free);
                let kk = choose|kk: int| 0 <= kk < old_free.len() && old_free[kk] as int == i;
                if kk == old_free.len() - 1 {
                    assert(kk != k);
                    assert(self.free@[k as int] as int == i);
                } else if kk == k {
                    assert(false);
                } else {
                    assert(self.free@[kk] as int == i);
                }
            }
            assert forall|k1: int, k2: int|
                0 <= k1 < k2 < self.free@.len() implies self.free@[k1] != self.free@[k2] by {
                let v1: int = if k1 == k {
                    old_free.len() - 1
                } else {
                    k1
                };
                let v2: int = if k2 == k {
                    old_free.len() - 1
                } else {
                    k2
                };
                assert(self.free@[k1] == old_free[v1]);
                assert(self.free@[k2] == old_free[v2]);
            }
        }
        Some(idx)
    }

    /// One tick of the release cooldowns: every pending entry's remaining
    /// time falls by the tick's delta, and the entries that run out leave
    /// the queue and their slots rejoin the free list, in queue order.
    pub fn tick(&mut self, dt_ms: u64) -> (freed: Vec<usize>)
        requires
            old(self).wf(),
        ensures
            final(self).wf(),
            final(self).positions@ == old(self).positions@,
            final(self).capacity == old(self).capacity,
            final(self).occupied_count == old(self).occupied_count,
            final(self).pending@ == pending_kept(
                old(self).pending@,
                dt_ms,
                old(self).pending@.len() as int,
            ),
            freed@ == pending_fired(old(self).pending@, dt_ms, old(self).pending@.len() as int),
            final(self).free@ == old(self).free@ + freed@,
            final(self).state@.len() == old(self).state@.len(),
            forall|i: int|
                0 <= i < old(self).slot_count() ==> final(self).state@[i] == (if contains_idx(
                    freed@,
                    i,
                ) {
                    SlotState::Free
                } else {
                    old(self).state@[i]
                }),
    {
        let ghost old_p = self.pending@;
        let ghost old_state = self.state@;
        let ghost old_free = self.free@;
        let ghost n = self.slot_count();
        let mut new_pending: Vec<PendingRelease> = Vec::new();
        let mut freed: Vec<usize> = Vec::new();
        let np = self.pending.len();
        let mut i: usize = 0;
        while i < np
            invariant
                old(self).wf(),
                i <= np,
                np == old_p.len(),
                old_p == old(self).pending@,
                n == old(self).slot_count(),
                self.pending@ == old_p,
                self.positions@ == old(self).positions@,
                self.capacity == old(self).capacity,
                self.occupied_count == old(self).occupied_count,
                self.state@.len() == n,
                old_state == old(self).state@,
                old_free == old(self).free@,
                new_pending@ == pending_kept(old_p, dt_ms, i as int),
                freed@ == pending_fired(old_p, dt_ms, i as int),
                self.free@ == old_free + freed@,
                forall|j: int|
                    0 <= j < n ==> self.state@[j] == (if contains_idx(freed@, j) {
                        SlotState::Free
                    } else {
                        old_state[j]
                    }),
                count_state(self.state@, SlotState::Occupied, n) == count_state(
                    old_state,
                    SlotState::Occupied,
                    n,
                ),
            decreases np - i,
        {
            let e = self.pending[i];
            if e.remaining_ms > dt_ms {
                new_pending.push(
                    PendingRelease { index: e.index, remaining_ms: e.remaining_ms - dt_ms },
                );
                proof {
                    assert(new_pending@ == pending_kept(old_p, dt_ms, i as int + 1));
                    assert(freed@ == pending_fired(old_p, dt_ms, i as int + 1));
                }
            } else {
                let idx = e.index;
                proof {
                    lemma_pending_sources(old_p, dt_ms, i as int);
                    assert forall|kk: int|
                        0 <= kk < freed@.len() implies freed@[kk] as int != idx as int by {
                        let j = choose|j: int|
                            0 <= j < i && (#[trigger] freed@[kk]) == old_p[j].index && old_p[j].remaining_ms <= dt_ms;
                        assert(old_p[j].index != old_p[i as int].index);
                    }
                    assert(self.state@[idx as int] == old_state[idx as int]);
                    assert(old_state[idx as int] == SlotState::Pending);
                    lemma_count_update(
                        self.state@,
                        idx as int,
                        SlotState::Free,
                        SlotState::Occupied,
                        n,
                    );
                }
                let ghost prev_state = self.state@;
                let ghost f1 = freed@;
                self.state[idx] = SlotState::Free;
                self.free.push(idx);
                freed.push(idx);
                proof {
                    let f2 = freed@;
                    assert(f2 == f1.push(idx));
                    assert(f2 == pending_fired(old_p, dt_ms, i as int + 1));
                    assert(new_pending@ == pending_kept(old_p, dt_ms, i as int + 1));
                    assert(self.free@ =~= old_free + f2);
                    assert forall|j: int|
                        0 <= j < n implies self.state@[j] == (if contains_idx(f2, j) {
                        SlotState::Free
                    } else {
                        old_state[j]
                    }) by {
                        if j == idx as int {
                            assert(f2[f2.len() - 1] as int == j);
                            assert(contains_idx(f2, j));
                        } else {
                            assert(self.state@[j] == prev_state[j]);
                            if contains_idx(f2, j) {
                                let kk = choose|kk: int|
                                    0 <= kk < f2.len() && f2[kk] as int == j;
                                assert(kk < f2.len() - 1);
                                assert(f1[kk] as int == j);
                                assert(contains_idx(f1, j));
                            } else {
                                assert(!contains_idx(f1, j)) by {
                                    if contains_idx(f1, j) {
                                        let kk = choose|kk: int|
                                            0 <= kk < f1.len() && f1[kk] as int == j;
                                        assert(f2[kk] as int == j);
                                    }
                                }
                            }
                        }
                    }
                }
            }
            i = i + 1;
        }
        self.pending = new_pending;
        proof {
            let fseq = freed@;
            let kseq = self.pending@;
            lemma_pending_sources(old_p, dt_ms, np as int);
            lemma_pending_distinct(old_p, dt_ms, np as int);
            // Free-list entries point at free slots.
            assert forall|k: int|
                0 <= k < self.free@.len() implies (#[trigger] self.free@[k]) < n
                && self.state@[self.free@[k] as int] == SlotState::Free by {
                if k < old_free.len() {
                    assert(self.free@[k] == old_free[k]);
                    assert(old_state[old_free[k] as int] == SlotState::Free);
                    if contains_idx(fseq, old_free[k] as int) {
                        let kk = choose|kk: int|
                            0 <= kk < fseq.len() && fseq[kk] as int == old_free[k] as int;
                        let j = choose|j: int|
                            0 <= j < np && (#[trigger] fseq[kk]) == old_p[j].index && old_p[j].remaining_ms <= dt_ms;
                        assert(old_state[old_p[j].index as int] == SlotState::Pending);
                    }
                } else {
                    assert(self.free@[k] == fseq[k - old_free.len()]);
                }
            }
            // Every free slot is on the free list.
            assert forall|i2: int|
                0 <= i2 < n && #[trigger] self.state@[i2] == SlotState::Free implies contains_idx(
                self.free@,
                i2,
            ) by {
                if contains_idx(fseq, i2) {
                    let kk = choose|kk: int| 0 <= kk < fseq.len() && fseq[kk] as int == i2;
                    assert(self.free@[old_free.len() + kk] as int == i2);
                } else {
                    assert(old_state[i2] == SlotState::Free);
                    let kk = choose|kk: int|
                        0 <= kk < old_free.len() && old_free[kk] as int == i2;
                    assert(self.free@[kk] as int == i2);
                }
            }
            // No duplicates on the free list.
            assert forall|k1: int, k2: int|
                0 <= k1 < k2 < self.free@.len() implies self.free@[k1] != self.free@[k2] by {
                if k1 < old_free.len() && k2 >= old_free.len() {
                    let kk = k2 - old_free.len();
                    let j = choose|j: int|
                        0 <= j < np && (#[trigger] fseq[kk]) == old_p[j].index && old_p[j].remaining_ms <= dt_ms;
                    assert(old_state[old_p[j].index as int] == SlotState::Pending);
                    assert(old_state[old_free[k1] as int] == SlotState::Free);
                }
            }
            // Pending entries point at pending slots.
            assert forall|k: int|
                0 <= k < kseq.len() implies (#[trigger] kseq[k]).index < n
                && self.state@[kseq[k].index as int] == SlotState::Pending by {
                let j = choose|j: int|
                    0 <= j < np && (#[trigger] kseq[k]).index == old_p[j].index && old_p[j].remaining_ms > dt_ms && kseq[k].remaining_ms == old_p[j].remaining_ms
                        - dt_ms;
                assert(old_state[old_p[j].index as int] == SlotState::Pending);
                if contains_idx(fseq, kseq[k].index as int) {
                    let kk = choose|kk: int|
                        0 <= kk < fseq.len() && fseq[kk] as int == kseq[k].index as int;
                    let j2 = choose|j2: int|
                        0 <= j2 < np && (#[trigger] fseq[kk]) == old_p[j2].index && old_p[j2].remaining_ms <= dt_ms;
                    assert(old_p[j2].index == old_p[j].index);
                    assert(j2 == j);
                }
            }
            // Every pending slot has a queue entry.
            assert forall|i2: int|
                0 <= i2 < n && #[trigger] self.state@[i2]
                    == SlotState::Pending implies pending_has(kseq, i2) by {
                assert(!contains_idx(fseq, i2));
                assert(old_state[i2] == SlotState::Pending);
                let j = choose|j: int| 0 <= j < np && old_p[j].index as int == i2;
                lemma_pending_membership(old_p, dt_ms, np as int, j);
            }
        }
        freed
    }

    /// Parks an occupied slot in the pending queue: it stops being occupied
    /// at once, but only becomes free after `cooldown_ms` of ticking.
    pub fn queue_release(&mut self, index: usize, cooldown_ms: u64)
        requires
            old(self).wf(),
            index < old(self).slot_count(),
            old(self).state@[index as int] == SlotState::Occupied,
        ensures
            final(self).wf(),
            final(self).state@ == old(self).state@.update(index as int, SlotState::Pending),
            final(self).pending@ == old(self).pending@.push(
                PendingRelease { index, remaining_ms: cooldown_ms },
            ),
            final(self).free@ == old(self).free@,
            final(self).positions@ == old(self).positions@,
            final(self).occupied_count == old(self).occupied_count - 1,
            final(self).capacity == old(self).capacity,
    {
        self.state[index] = SlotState::Pending;
        self.pending.push(PendingRelease { index, remaining_ms: cooldown_ms });
        proof {
            lemma_count_at_least_one(
                old(self).state@,
                SlotState::Occupied,
                index as int,
                old(self).slot_count(),
            );
            lemma_count_update(
                old(self).state@,
                index as int,
                SlotState::Pending,
                SlotState::Occupied,
                old(self).slot_count(),
            );
        }
        self.occupied_count = self.occupied_count - 1;
        proof {
            assert forall|i: int|
                0 <= i < self.slot_count() && #[trigger] self.state@[i]
                    == SlotState::Pending implies pending_has(self.pending@, i) by {
                if i == index as int {
                    assert(self.pending@[self.pending@.len() - 1].index as int == i);
                } else {
                    assert(pending_has(old(self).pending@, i));
                    let k = choose|k: int|
                        0 <= k < old(self).pending@.len() && old(self).pending@[k].index as int
                            == i;
                    assert(self.pending@[k].index as int == i);
                }
            }
        }
    }

}

} // verus!
