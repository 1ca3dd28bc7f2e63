//! The timer engine: given the persisted record (or its absence), the
//! current time, and the notification message, decide what to display,
//! what to store, and whether to notify.
//!
//! The engine itself is pure: `get` and `reset` take the clock reading as
//! an argument.  `get_now` and `reset_now` sample the clock through
//! `chrono` and are otherwise the same.  The caller owns the state file:
//! it hands `get` the file's contents (or `None` when the file is absent)
//! and persists whatever record the outcome carries.

use vstd::prelude::*;

use crate::codec::parse_record;
use crate::codec::parseable;
use crate::codec::rec_of_line;
use crate::display::format_mmss;
use crate::display::spec_mmss;
use crate::record::TimerError;
use crate::record::TimerRecord;
use crate::record::DEFAULT_DURATION_SECONDS;
use crate::record::DEFAULT_MINUTES;
use crate::record::MAX_MINUTES;

verus! {

/// What a `get` decided.  Whenever the outcome carries a record, the
/// caller must persist it; the text is what to display.
#[derive(Debug, PartialEq, Eq)]
pub enum GetOutcome {
    /// The interval is still running: nothing to store, nothing to notify.
    Running { text: String },
    /// There was no stored record: store this fresh default interval.
    Started { record: TimerRecord, text: String },
    /// The interval expired: store this restarted interval, and deliver
    /// the notification message exactly once if `notify` is set.
    Restarted { record: TimerRecord, text: String, notify: bool },
}

/// Seconds elapsed since the record's start, never negative: a clock
/// reading before the recorded start counts as no time passed.
pub open spec fn elapsed_of(rec: TimerRecord, now: i64) -> int {
    if now >= rec.started_at {
        now - rec.started_at
    } else {
        0
    }
}

/// Whether the interval has expired at `now`.
pub open spec fn expired(rec: TimerRecord, now: i64) -> bool {
    elapsed_of(rec, now) >= rec.duration_seconds
}

/// A record for an interval of `duration_seconds` starting at `now`.
pub open spec fn fresh_record(now: i64, duration_seconds: i64) -> TimerRecord {
    TimerRecord { started_at: now, duration_seconds }
}

/// What `get` decides for a record that was read successfully: while time
/// remains, display the remaining time; on expiry, restart with the same
/// duration (not the default), display the full duration, and notify
/// exactly when the message is non-empty.
pub open spec fn tick_post(rec: TimerRecord, now: i64, msg: Seq<char>, o: GetOutcome) -> bool {
    if expired(rec, now) {
        &&& o matches GetOutcome::Restarted { record, text, notify }
        &&& record == fresh_record(now, rec.duration_seconds)
        &&& text@ == spec_mmss(rec.duration_seconds as nat)
        &&& notify == (msg.len() != 0)
    } else {
        &&& o matches GetOutcome::Running { text }
        &&& text@ == spec_mmss((rec.duration_seconds - elapsed_of(rec, now)) as nat)
    }
}

/// What `get` decides, over the raw file contents: absence initializes a
/// default interval; a parseable line behaves as `tick_post` says; anything
/// else is a `ParseError` and nothing is stored.
pub open spec fn get_post(
    contents: Option<Seq<char>>,
    now: i64,
    msg: Seq<char>,
    r: Result<GetOutcome, TimerError>,
) -> bool {
    match contents {
        None => {
            &&& r matches Ok(o)
            &&& o matches GetOutcome::Started { record, text }
            &&& record == fresh_record(now, DEFAULT_DURATION_SECONDS)
            &&& text@ == spec_mmss(DEFAULT_DURATION_SECONDS as nat)
        },
        Some(s) => {
            if parseable(s) {
                &&& r matches Ok(o)
                &&& tick_post(rec_of_line(s), now, msg, o)
            } else {
                r == Err::<GetOutcome, TimerError>(TimerError::ParseError)
            }
        },
    }
}

/// What `reset` decides: a positive number of minutes whose duration fits
/// an `i64` yields a fresh record starting at `now` and the full-duration
/// display; zero, negative, or over-large minutes are rejected, and
/// nothing is stored.
pub open spec fn reset_post(
    now: i64,
    minutes: Option<i64>,
    r: Result<(TimerRecord, String), TimerError>,
) -> bool {
    let m = match minutes {
        Some(v) => v as int,
        None => DEFAULT_MINUTES as int,
    };
    if 1 <= m && m <= MAX_MINUTES {
        &&& r matches Ok(p)
        &&& p.0 == fresh_record(now, (m * 60) as i64)
        &&& p.1@ == spec_mmss((m * 60) as nat)
    } else {
        r == Err::<(TimerRecord, String), TimerError>(TimerError::InvalidArgument)
    }
}

/// The view of the optional file contents.
pub open spec fn contents_view(contents: Option<&str>) -> Option<Seq<char>> {
    match contents {
        Some(s) => Some(s@),
        None => None,
    }
}

/// One step of the timer for a record that was read successfully.
pub fn tick(record: &TimerRecord, now: i64, message: &str) -> (o: GetOutcome)
    requires
        record.wf(),
        0 <= now,
    ensures
        tick_post(*record, now, message@, o),
{
    let elapsed: i64 = if now >= record.started_at {
        now - record.started_at
    } else {
        0
    };
    if elapsed >= record.duration_seconds {
        let fresh = TimerRecord { started_at: now, duration_seconds: record.duration_seconds };
        let text = format_mmss(record.duration_seconds);
        let notify = !message.is_empty();
        GetOutcome::Restarted { record: fresh, text, notify }
    } else {
        let text = format_mmss(record.duration_seconds - elapsed);
        GetOutcome::Running { text }
    }
}

/// The full `get` decision over the raw file contents (`None` when the
/// state file does not exist) at clock reading `now`.
pub fn get(contents: Option<&str>, now: i64, message: &str) -> (r: Result<GetOutcome, TimerError>)
    requires
        0 <= now,
    ensures
        get_post(contents_view(contents), now, message@, r),
{
    match contents {
        None => {
            let record = TimerRecord {
                started_at: now,
                duration_seconds: DEFAULT_DURATION_SECONDS,
            };
            let text = format_mmss(DEFAULT_DURATION_SECONDS);
            Ok(GetOutcome::Started { record, text })
        },
        Some(s) => {
            match parse_record(s) {
                Ok(rec) => Ok(tick(&rec, now, message)),
                Err(e) => Err(e),
            }
        },
    }
}

/// The `reset` decision at clock reading `now`: the record to store and
/// the display for the brand-new interval, computed without re-reading
/// the store.
pub fn reset(now: i64, minutes: Option<i64>) -> (r: Result<(TimerRecord, String), TimerError>)
    requires
        0 <= now,
    ensures
        reset_post(now, minutes, r),
{
    let m = match minutes {
        Some(v) => v,
        None => DEFAULT_MINUTES,
    };
    if m < 1 || m > MAX_MINUTES {
        return Err(TimerError::InvalidArgument);
    }
    let duration = m * 60;
    let record = TimerRecord { started_at: now, duration_seconds: duration };
    let text = format_mmss(duration);
    Ok((record, text))
}

/// Relies on `chrono::Utc::now` and `chrono::DateTime::timestamp` for the
/// current wall-clock time as Unix epoch seconds.
#[verifier::external_body]
fn epoch_seconds() -> i64 {
    chrono::Utc::now().timestamp()
}

/// `get` at the current wall-clock time.  A clock reading before the Unix
/// epoch counts as the epoch itself.
pub fn get_now(contents: Option<&str>, message: &str) -> (r: Result<GetOutcome, TimerError>)
    ensures
        exists|now: i64| 0 <= now && get_post(contents_view(contents), now, message@, r),
{
    let raw = epoch_seconds();
    let now: i64 = if raw < 0 {
        0
    } else {
        raw
    };
    let r = get(contents, now, message);
    proof {
        assert(0 <= now && get_post(contents_view(contents), now, message@, r));
    }
    r
}

/// `reset` at the current wall-clock time.  A clock reading before the
/// Unix epoch counts as the epoch itself.
pub fn reset_now(minutes: Option<i64>) -> (r: Result<(TimerRecord, String), TimerError>)
    ensures
        exists|now: i64| 0 <= now && reset_post(now, minutes, r),
{
    let raw = epoch_seconds();
    let now: i64 = if raw < 0 {
        0
    } else {
        raw
    };
    let r = reset(now, minutes);
    proof {
        assert(0 <= now && reset_post(now, minutes, r));
    }
    r
}

} // verus!
