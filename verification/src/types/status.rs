use std::time::Instant;
use vstd::prelude::*;

verus! {

/// A point in time of the machine's monotonic clock. Nothing is known of
/// what a value holds.
#[verifier::external_type_specification]
#[verifier::external_body]
pub struct ExInstant(Instant);

/// For how many seconds a status message counts as fresh.
pub const FRESH_SECONDS: u64 = 3;

/// A message for the status line, with the time at which it was made.
#[derive(Debug)]
pub struct Status {
    pub text: String,
    pub timestamp: Instant,
}

/// Calls `Instant::now` of std. Trusted, and nothing is claimed: the result
/// is whatever the clock says.
#[verifier::external_body]
fn now() -> Instant {
    Instant::now()
}

/// Calls `Instant::elapsed` of std and hands back the whole seconds of the
/// duration. Trusted, and nothing is claimed: the result depends on the
/// clock.
#[verifier::external_body]
fn seconds_since(start: &Instant) -> u64 {
    start.elapsed().as_secs()
}

impl Status {
    /// A status with the text `text`, made now.
    pub fn new(text: String) -> (status: Self)
        ensures
            status.text == text,
    {
        Status { text, timestamp: now() }
    }

    /// Whether a status that was made `elapsed_seconds` whole seconds ago
    /// is still fresh.
    pub fn is_fresh_after(elapsed_seconds: u64) -> (fresh: bool)
        ensures
            fresh == (elapsed_seconds < FRESH_SECONDS),
    {
        elapsed_seconds < FRESH_SECONDS
    }

    /// Whether the status is still fresh by the clock: less than
    /// [`FRESH_SECONDS`] old.
    pub fn is_fresh(&self) -> bool {
        Self::is_fresh_after(seconds_since(&self.timestamp))
    }
}

} // verus!
