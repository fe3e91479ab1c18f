//! Trusted boundary to the `rand` crate: the random attributes that a
//! pointer-placed circle receives come from these wrappers, and nothing is
//! assumed of them beyond their documented ranges.

use rand::Rng;
use vstd::prelude::*;

verus! {

#[verifier::external_type_specification]
#[verifier::external_body]
pub struct ExThreadRng(rand::rngs::ThreadRng);

/// Relies on rand::thread_rng: a handle to the thread-local generator.
#[verifier::external_body]
pub(crate) fn rng_new() -> rand::rngs::ThreadRng {
    rand::thread_rng()
}

/// Relies on rand::Rng::gen_range on an `i32` range, which panics on an
/// empty range and otherwise samples uniformly from `[lo, hi)`.
#[verifier::external_body]
pub(crate) fn rng_range_i32(rng: &mut rand::rngs::ThreadRng, lo: i32, hi: i32) -> (r: i32)
    requires
        lo < hi,
    ensures
        lo <= r < hi,
{
    rng.gen_range(lo..hi)
}

/// Relies on rand::random for `u8`: some byte; nothing more is assumed.
#[verifier::external_body]
pub(crate) fn random_u8() -> u8 {
    rand::random::<u8>()
}

} // verus!
