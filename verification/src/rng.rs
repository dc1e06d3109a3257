//! Trusted boundary to the `rand` crate. The simulation's randomized policy
//! draws integers through the wrappers here; nothing about a drawn value is
//! assumed beyond the range it falls in.
use vstd::prelude::*;

use rand::Rng;

verus! {

/// rand's handle to the thread-local generator, opaque to verification.
#[verifier::external_type_specification]
#[verifier::external_body]
pub struct ExThreadRng(rand::rngs::ThreadRng);

/// Relies on rand::thread_rng: returns a handle to the lazily-initialized
/// thread-local generator. Nothing is promised of the handle itself; every
/// draw made through it is specified only by its range.
#[verifier::external_body]
pub(crate) fn rng_new() -> rand::rngs::ThreadRng {
    rand::thread_rng()
}

/// Relies on rand::Rng::gen_range on an inclusive integer range: for
/// `lo <= hi` the range is non-empty, so the call does not panic, and the
/// value drawn lies within the range. Which value comes back is chance, so
/// no more is stated.
#[verifier::external_body]
pub(crate) fn gen_in(rng: &mut rand::rngs::ThreadRng, lo: i64, hi: i64) -> (r: i64)
    requires
        lo <= hi,
    ensures
        lo <= r <= hi,
{
    rng.gen_range(lo..=hi)
}

} // verus!
