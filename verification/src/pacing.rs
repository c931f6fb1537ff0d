//! Randomised pauses. The harvest is deliberately slow: between requests it
//! waits for a time drawn from a range, so that the registry is not flooded.

use vstd::prelude::*;
use rand::Rng;

verus! {

/// Calls `rand::rng` and `Rng::random_range` on the inclusive range from
/// `low` to `high`. The call panics on an empty range, which the
/// precondition excludes, and returns a number of the range. Which one is
/// left open: two calls may differ. Verus does not check this against the
/// generator. The thread's generator is seeded from the operating system
/// when it is first used, and panics if the system gives it no seed.
#[verifier::external_body]
pub(crate) fn random_in_range(low: u64, high: u64) -> (drawn: u64)
    requires
        low <= high,
    ensures
        low <= drawn <= high,
{
    rand::rng().random_range(low..=high)
}

/// The places at which a harvest pauses.
#[derive(Debug, Clone, Copy, PartialEq, Eq, Structural)]
pub enum Pacing {
    /// After a county whose search ran out of attempts.
    AfterFailedSearch,
    /// After each settlement of a county.
    BetweenRecords,
    /// After each county that was searched.
    BetweenCounties,
    /// After each request of a retry sweep.
    BetweenRetries,
    /// After each retry sweep.
    BetweenSweeps,
}

impl Pacing {
    /// The shortest pause at this place, in milliseconds.
    pub open spec fn spec_min_ms(self) -> u64 {
        match self {
            Pacing::AfterFailedSearch => 2000,
            Pacing::BetweenRecords => 800,
            Pacing::BetweenCounties => 3000,
            Pacing::BetweenRetries => 1000,
            Pacing::BetweenSweeps => 5000,
        }
    }

    /// The longest pause at this place, in milliseconds.
    pub open spec fn spec_max_ms(self) -> u64 {
        match self {
            Pacing::AfterFailedSearch => 5000,
            Pacing::BetweenRecords => 2000,
            Pacing::BetweenCounties => 8000,
            Pacing::BetweenRetries => 3000,
            Pacing::BetweenSweeps => 10000,
        }
    }

    /// The shortest pause at this place, in milliseconds.
    pub fn min_ms(&self) -> (ms: u64)
        ensures
            ms == self.spec_min_ms(),
    {
        match self {
            Pacing::AfterFailedSearch => 2000,
            Pacing::BetweenRecords => 800,
            Pacing::BetweenCounties => 3000,
            Pacing::BetweenRetries => 1000,
            Pacing::BetweenSweeps => 5000,
        }
    }

    /// The longest pause at this place, in milliseconds.
    pub fn max_ms(&self) -> (ms: u64)
        ensures
            ms == self.spec_max_ms(),
    {
        match self {
            Pacing::AfterFailedSearch => 5000,
            Pacing::BetweenRecords => 2000,
            Pacing::BetweenCounties => 8000,
            Pacing::BetweenRetries => 3000,
            Pacing::BetweenSweeps => 10000,
        }
    }

    /// Draws the length of one pause at this place, in milliseconds.
    pub fn draw_ms(&self) -> (ms: u64)
        ensures
            self.spec_min_ms() <= ms <= self.spec_max_ms(),
    {
        random_in_range(self.min_ms(), self.max_ms())
    }
}

} // verus!
