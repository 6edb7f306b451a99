//! Randomness for slot admission, shatter planes, shard masses and throw
//! jitter, behind one trusted wrapper around the `rand` crate.

use vstd::prelude::*;

verus! {

/// Relies on `rand::Rng::gen_range` over a half-open `u64` range, on the
/// thread-local generator from `rand::thread_rng`: it panics on an empty
/// range and otherwise returns a value of the range. Nothing more is
/// assumed of the outcome; every caller states what holds whatever value
/// comes back.
#[verifier::external_body]
pub(crate) fn random_in_range(lo: u64, hi: u64) -> (r: u64)
    requires
        lo < hi,
    ensures
        lo <= r < hi,
{
    rand::Rng::gen_range(&mut rand::thread_rng(), lo..hi)
}

/// A random index below `n`, for picking a free slot or a thrower.
pub(crate) fn random_below(n: usize) -> (r: usize)
    requires
        n > 0,
    ensures
        r < n,
{
    let r = random_in_range(0, n as u64);
    r as usize
}

} // verus!
