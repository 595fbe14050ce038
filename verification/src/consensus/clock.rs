//! The two clocks of the library: a stopwatch for mining and the wall clock
//! for header timestamps.

use std::time::{Duration, Instant, SystemTime, UNIX_EPOCH};
use vstd::prelude::*;

verus! {

/// `std::time::Instant`, an opaque point in time.
#[verifier::external_type_specification]
#[verifier::external_body]
pub struct ExInstant(Instant);

/// `Instant::now` of std. Nothing is claimed of the instant it returns.
pub assume_specification[ Instant::now ]() -> Instant;

/// `Instant::elapsed` of std. Nothing is claimed of the duration it returns.
pub assume_specification[ Instant::elapsed ](start: &Instant) -> Duration;

/// Reads `SystemTime::now` of std as whole seconds since the Unix epoch, or
/// zero where the clock stands before the epoch. Nothing is claimed of the
/// number: callers hold for every value of it.
#[verifier::external_body]
pub(crate) fn unix_time() -> (seconds: u64) {
    match SystemTime::now().duration_since(UNIX_EPOCH) {
        Ok(elapsed) => elapsed.as_secs(),
        Err(_) => 0,
    }
}

} // verus!
