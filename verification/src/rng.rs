//! The random generator injected by the host.
//!
//! The core never seeds or owns entropy itself: every function that needs
//! randomness takes a mutable reference to the caller's generator.  Seeding
//! the same generator twice replays the same session.

use vstd::prelude::*;

verus! {

#[verifier::external_type_specification]
#[verifier::external_body]
pub struct ExStdRng(rand::rngs::StdRng);

/// Relies on rand's `RngExt::random_range` over an `i64` range: the sample
/// lies within the given range, which must not be empty.
#[verifier::external_body]
pub fn random_in_range(rng: &mut rand::rngs::StdRng, lo: i64, hi: i64) -> (r: i64)
    requires
        lo < hi,
    ensures
        lo <= r < hi,
{
    rand::RngExt::random_range(rng, lo..hi)
}

} // verus!
