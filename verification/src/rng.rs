//! The crate's single trusted boundary to the random number generator.

use rand::Rng;
use vstd::prelude::*;

verus! {

/// Relies on `rand::Rng::gen_range` on the thread-local generator: it
/// returns a value uniformly distributed in `[lo, hi)`, and panics only on
/// an empty range, which the precondition rules out. Nothing more is assumed
/// of the outcome.
#[verifier::external_body]
pub(crate) fn rand_range_i64(lo: i64, hi: i64) -> (r: i64)
    requires
        lo < hi,
    ensures
        lo <= r < hi,
{
    rand::thread_rng().gen_range(lo..hi)
}

} // verus!
