//! A small pomodoro timer library.
//!
//! The timer's state is a single record: the Unix timestamp at which the
//! current interval started and the interval's length in seconds.  The
//! library parses and serializes that record, computes the remaining time,
//! decides when an interval has expired (and must be restarted), and formats
//! the remaining time for display.  Reading the clock is delegated to
//! `chrono`; file storage and notification delivery are left to the caller.

pub mod codec;
pub mod digits;
pub mod display;
pub mod engine;
pub mod laws;
pub mod record;

pub use engine::GetOutcome;
pub use record::TimerError;
pub use record::TimerRecord;
