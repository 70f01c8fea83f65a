//! Reading the clocks.

use std::time::{Instant, SystemTime, UNIX_EPOCH};
use vstd::prelude::*;

verus! {

/// `std::time::Instant`, a reading of the monotonic clock.
#[verifier::external_type_specification]
#[verifier::external_body]
pub struct ExInstant(Instant);

/// Measures time from the moment it was started.
#[derive(Debug)]
pub struct Clock {
    epoch: Instant,
}

impl Clock {
    /// `Instant::now`: starts a clock. Nothing is claimed of the reading.
    #[verifier::external_body]
    pub(crate) fn start() -> (r: Self) {
        Clock { epoch: Instant::now() }
    }

    /// `Instant::elapsed`: nanoseconds since the start, saturating. Nothing is
    /// claimed of the reading.
    #[verifier::external_body]
    pub(crate) fn elapsed_nanos(&self) -> (r: u64) {
        u64::try_from(self.epoch.elapsed().as_nanos()).unwrap_or(u64::MAX)
    }
}

/// `SystemTime::now`: seconds since the Unix epoch, saturating, and 0 when the
/// wall clock stands before it.
#[verifier::external_body]
pub(crate) fn unix_now_secs() -> (r: i64)
    ensures
        r >= 0,
{
    SystemTime::now().duration_since(UNIX_EPOCH).map_or(
        0,
        |d| i64::try_from(d.as_secs()).unwrap_or(i64::MAX),
    )
}

} // verus!
