//! The persisted timer record and the errors the timer can report.

use vstd::prelude::*;

verus! {

/// Default interval length, in minutes.
pub const DEFAULT_MINUTES: i64 = 20;

/// Default interval length, in seconds.
pub const DEFAULT_DURATION_SECONDS: i64 = 1200;

/// Largest number of minutes whose duration in seconds still fits in `i64`.
pub const MAX_MINUTES: i64 = 153722867280912930;

/// The single persisted entity: when the current interval started and how
/// long it is.
#[derive(Clone, Copy, Debug, PartialEq, Eq, Structural)]
pub struct TimerRecord {
    /// Unix epoch seconds at which the current interval began.
    pub started_at: i64,
    /// Length of the interval in seconds.
    pub duration_seconds: i64,
}

impl TimerRecord {
    /// A record is well formed when its start is a real (non-negative) epoch
    /// timestamp and its interval is at least one second long.
    pub open spec fn wf(self) -> bool {
        0 <= self.started_at && 1 <= self.duration_seconds
    }
}

/// The fatal errors the timer can report.
#[derive(Clone, Copy, Debug, PartialEq, Eq, Structural)]
pub enum TimerError {
    /// A reset was requested for zero or a negative number of minutes, or
    /// for one so large that the duration in seconds would not fit.
    InvalidArgument,
    /// The persisted state could not be parsed as two decimal fields.
    ParseError,
}

} // verus!
