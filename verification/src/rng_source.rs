//! The source of randomness threaded through every generation call.
//!
//! The library owns no hidden global generator: a `RandomSource` value is
//! passed by reference into every operation that draws, and its internal
//! state advances monotonically with each draw. The draws themselves are
//! performed by the rand crate behind the trusted items below; nothing is
//! claimed of a drawn value beyond what rand documents.

use rand::RngExt;
use rand::SeedableRng;
use vstd::prelude::*;

verus! {

#[verifier::external_type_specification]
#[verifier::external_body]
pub struct ExStdRng(rand::rngs::StdRng);

/// A stateful pseudorandom generator, seedable for deterministic tests.
pub struct RandomSource {
    inner: rand::rngs::StdRng,
}

impl RandomSource {
    /// Relies on rand's `SeedableRng::seed_from_u64` for `StdRng`: builds a
    /// generator whose draw sequence is a function of the seed alone.
    #[verifier::external_body]
    pub fn from_seed(seed: u64) -> RandomSource {
        RandomSource { inner: rand::rngs::StdRng::seed_from_u64(seed) }
    }

    /// Relies on rand's `make_rng`: builds a `StdRng` seeded from the
    /// thread-local generator; nothing is promised of its draws.
    #[verifier::external_body]
    pub fn from_entropy() -> RandomSource {
        RandomSource { inner: rand::make_rng() }
    }

    /// Relies on rand's `RngExt::random_range` over `lo..=hi`: a uniform draw
    /// from the inclusive range. It panics only on an empty range, which the
    /// precondition rules out.
    #[verifier::external_body]
    pub(crate) fn next_in_range(&mut self, lo: usize, hi: usize) -> (r: usize)
        requires
            lo <= hi,
        ensures
            lo <= r <= hi,
    {
        self.inner.random_range(lo..=hi)
    }

    /// Relies on rand's `RngExt::random::<u8>`: one byte drawn uniformly from
    /// the full byte range; nothing can be promised of its value.
    #[verifier::external_body]
    pub(crate) fn next_byte(&mut self) -> u8 {
        self.inner.random()
    }

    /// Relies on rand's `RngExt::random::<char>`: one uniformly drawn Unicode
    /// scalar value; any `char` is a valid one, so nothing more is claimed.
    #[verifier::external_body]
    pub(crate) fn next_char(&mut self) -> char {
        self.inner.random()
    }
}

} // verus!
