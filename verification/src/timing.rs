//! Clock-facing helpers.
//!
//! The ledger core never reads the clock itself: every operation takes the
//! current timestamp as an argument, so the chain logic is verified for every
//! possible clock value and tests can use a fixed clock. [`get_timestamp`] is
//! the one place where the wall clock is read.

use vstd::prelude::*;

verus! {

/// A span of time as plain values: whole seconds and the fractional part in
/// whole milliseconds.
#[derive(Debug, Clone, Copy, PartialEq, Eq, Structural)]
pub struct ElapsedTime {
    /// Whole seconds of the span.
    pub secs: u64,
    /// The fractional part of the span, in whole milliseconds (below 1000).
    pub subsec_millis: u32,
}

/// The span expressed in whole milliseconds.
pub fn get_milliseconds(duration: ElapsedTime) -> (r: u64)
    requires
        duration.secs * 1000 + duration.subsec_millis <= u64::MAX,
    ensures
        r == duration.secs * 1000 + duration.subsec_millis,
{
    duration.secs * 1000 + duration.subsec_millis as u64
}

/// Milliseconds of wall-clock time since the Unix epoch.
///
/// Relies on `std::time::SystemTime::now` followed by
/// `SystemTime::duration_since(UNIX_EPOCH)` and `Duration::as_millis`: the
/// current time as a millisecond count; a clock reading from before the
/// epoch is reported as zero rather than aborting. The value depends on the
/// clock at the moment of the call, so nothing is promised of it; the ledger
/// operations take it as an argument and are verified for every value.
#[verifier::external_body]
pub fn get_timestamp() -> u128 {
    std::time::SystemTime::now().duration_since(std::time::UNIX_EPOCH).map_or(
        0,
        |duration| duration.as_millis(),
    )
}

} // verus!
