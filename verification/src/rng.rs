//! Trusted boundary to the `rand` crate: the only unverified calls in the
//! library. Every draw states only the range that holds of any outcome.

use vstd::prelude::*;

verus! {

/// Declares `rand::rngs::ThreadRng` so that it can stand in signatures;
/// values of it are opaque to the verifier.
#[verifier::external_type_specification]
#[verifier::external_body]
pub struct ExThreadRng(rand::rngs::ThreadRng);

/// Relies on `rand::thread_rng`: hands out the thread-local generator.
/// Nothing is promised of the value; each draw states its own range.
pub assume_specification[ rand::thread_rng ]() -> rand::rngs::ThreadRng;

/// Relies on `rand::Rng::gen_range` over `lo..hi`: the result lies in that
/// half-open range. Of the call's panics, the empty-range assert is ruled
/// out by the precondition; what remains is a failure of the operating
/// system's entropy source during a periodic reseed, an environmental
/// fault of the same kind as running out of memory.
#[verifier::external_body]
pub(crate) fn gen_range_i64(rng: &mut rand::rngs::ThreadRng, lo: i64, hi: i64) -> (r: i64)
    requires
        lo < hi,
    ensures
        lo <= r < hi,
{
    rand::Rng::gen_range(rng, lo..hi)
}

} // verus!
