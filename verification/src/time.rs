//! Points in time.
use vstd::prelude::*;

verus! {

/// A point in time: seconds since the Unix epoch, and nanoseconds past that
/// second.
#[derive(Debug, Clone, Copy, PartialEq, Eq, Structural)]
pub struct Timestamp {
    pub secs: i64,
    pub nanos: u32,
}

impl Timestamp {
    /// The nanoseconds are less than a second.
    pub open spec fn well_formed(self) -> bool {
        self.nanos < 1_000_000_000
    }
}

/// `chrono::Utc::now`, as its seconds since the epoch and the nanoseconds within
/// the second. The time itself is the machine's, and nothing is claimed of it.
#[verifier::external_body]
pub(crate) fn utc_now() -> (now: Timestamp)
    ensures
        now.well_formed(),
{
    let now = chrono::Utc::now();
    Timestamp { secs: now.timestamp(), nanos: now.timestamp_subsec_nanos() }
}

} // verus!
