//! Countdown lists: entities that each carry a timer and leave the list the
//! tick their time runs out. Fragments waiting to shatter, shards waiting to
//! despawn and target dummies waiting to expire all age this way.

use vstd::prelude::*;

verus! {

/// An entity with the milliseconds left until its timer fires.
#[derive(Clone, Copy, Debug, PartialEq, Eq, Structural)]
pub struct TimedEntity {
    pub entity: u64,
    pub remaining_ms: u64,
}

/// The entries still waiting after a tick of `dt`, among the first `n`:
/// those with more than `dt` left, reduced by `dt`, in order.
pub open spec fn timed_kept(s: Seq<TimedEntity>, dt: u64, n: int) -> Seq<TimedEntity>
    decreases n,
{
    if n <= 0 {
        Seq::empty()
    } else {
        let rest = timed_kept(s, dt, n - 1);
        let e = s[n - 1];
        if e.remaining_ms > dt {
            rest.push(TimedEntity { entity: e.entity, remaining_ms: (e.remaining_ms - dt) as u64 })
        } else {
            rest
        }
    }
}

/// The entities whose timers a tick of `dt` fires, among the first `n`, in
/// order.
pub open spec fn timed_fired(s: Seq<TimedEntity>, dt: u64, n: int) -> Seq<u64>
    decreases n,
{
    if n <= 0 {
        Seq::empty()
    } else {
        let rest = timed_fired(s, dt, n - 1);
        let e = s[n - 1];
        if e.remaining_ms > dt {
            rest
        } else {
            rest.push(e.entity)
        }
    }
}

/// One tick over a countdown list: every entry's remaining time falls by
/// `dt`; the entries that run out leave the list and their entities are
/// returned, in list order.
pub fn tick_timed(list: &mut Vec<TimedEntity>, dt_ms: u64) -> (fired: Vec<u64>)
    ensures
        final(list)@ == timed_kept(old(list)@, dt_ms, old(list)@.len() as int),
        fired@ == timed_fired(old(list)@, dt_ms, old(list)@.len() as int),
{
    let ghost old_l = list@;
    let mut kept: Vec<TimedEntity> = Vec::new();
    let mut fired: Vec<u64> = Vec::new();
    let n = list.len();
    let mut i: usize = 0;
    while i < n
        invariant
            i <= n,
            n == old_l.len(),
            list@ == old_l,
            kept@ == timed_kept(old_l, dt_ms, i as int),
            fired@ == timed_fired(old_l, dt_ms, i as int),
        decreases n - i,
    {
        let e = list[i];
        if e.remaining_ms > dt_ms {
            kept.push(TimedEntity { entity: e.entity, remaining_ms: e.remaining_ms - dt_ms });
        } else {
            fired.push(e.entity);
        }
        i = i + 1;
    }
    *list = kept;
    fired
}

} // verus!
