use omo::codec::parse_record;
use omo::codec::serialize_record;
use omo::engine::get;
use omo::engine::get_now;
use omo::engine::reset;
use omo::engine::reset_now;
use omo::engine::tick;
use omo::record::MAX_MINUTES;
use omo::GetOutcome;
use omo::TimerError;
use omo::TimerRecord;

#[test]
fn reset_then_immediate_get_shows_full_interval() {
    let (record, text) = reset(1000, Some(5)).unwrap();
    assert_eq!(record, TimerRecord { started_at: 1000, duration_seconds: 300 });
    assert_eq!(text, "05:00");

    let line = serialize_record(&record);
    let outcome = get(Some(&line), 1000, "ping").unwrap();
    match outcome {
        GetOutcome::Running { text } => assert_eq!(text, "05:00"),
        other => panic!("expected Running, got {:?}", other),
    }
}

#[test]
fn repeated_get_with_frozen_clock_is_identical() {
    let first = get(Some("1000 300"), 1100, "msg").unwrap();
    let second = get(Some("1000 300"), 1100, "msg").unwrap();
    assert_eq!(first, second);

    let first = get(None, 77, "msg").unwrap();
    let second = get(None, 77, "msg").unwrap();
    assert_eq!(first, second);
}

#[test]
fn countdown_is_monotonic_in_elapsed_time() {
    // 70 of 300 seconds gone: 230 left.
    match get(Some("1000 300"), 1070, "").unwrap() {
        GetOutcome::Running { text } => assert_eq!(text, "03:50"),
        other => panic!("expected Running, got {:?}", other),
    }
    // One second before expiry.
    match get(Some("1000 300"), 1299, "").unwrap() {
        GetOutcome::Running { text } => assert_eq!(text, "00:01"),
        other => panic!("expected Running, got {:?}", other),
    }
    // No time passed at all.
    match get(Some("1000 300"), 1000, "").unwrap() {
        GetOutcome::Running { text } => assert_eq!(text, "05:00"),
        other => panic!("expected Running, got {:?}", other),
    }
}

#[test]
fn expiry_restart_keeps_expired_duration() {
    // 300 seconds expired exactly: restart with 300 again, not 1200.
    match get(Some("1000 300"), 1300, "time is up").unwrap() {
        GetOutcome::Restarted { record, text, notify } => {
            assert_eq!(record, TimerRecord { started_at: 1300, duration_seconds: 300 });
            assert_eq!(text, "05:00");
            assert!(notify);
        }
        other => panic!("expected Restarted, got {:?}", other),
    }
    // Well past expiry: the new interval starts at the observed now.
    match get(Some("1000 300"), 9999, "").unwrap() {
        GetOutcome::Restarted { record, .. } => {
            assert_eq!(record, TimerRecord { started_at: 9999, duration_seconds: 300 });
        }
        other => panic!("expected Restarted, got {:?}", other),
    }
}

#[test]
fn expiry_notification_follows_message() {
    let rec = TimerRecord { started_at: 50, duration_seconds: 60 };
    match tick(&rec, 110, "break time") {
        GetOutcome::Restarted { notify, .. } => assert!(notify),
        other => panic!("expected Restarted, got {:?}", other),
    }
    match tick(&rec, 110, "") {
        GetOutcome::Restarted { notify, .. } => assert!(!notify),
        other => panic!("expected Restarted, got {:?}", other),
    }
    // No notification decision before expiry.
    match tick(&rec, 100, "break time") {
        GetOutcome::Running { text } => assert_eq!(text, "00:10"),
        other => panic!("expected Running, got {:?}", other),
    }
}

#[test]
fn missing_state_initializes_default_interval() {
    match get(None, 500, "msg").unwrap() {
        GetOutcome::Started { record, text } => {
            assert_eq!(record, TimerRecord { started_at: 500, duration_seconds: 1200 });
            assert_eq!(text, "20:00");
        }
        other => panic!("expected Started, got {:?}", other),
    }
}

#[test]
fn invalid_reset_minutes_are_rejected() {
    assert_eq!(reset(1000, Some(0)), Err(TimerError::InvalidArgument));
    assert_eq!(reset(1000, Some(-3)), Err(TimerError::InvalidArgument));
    assert_eq!(reset(1000, Some(i64::MIN)), Err(TimerError::InvalidArgument));
    // Minutes whose seconds would overflow an i64 are rejected too.
    assert_eq!(reset(1000, Some(MAX_MINUTES + 1)), Err(TimerError::InvalidArgument));
}

#[test]
fn reset_defaults_to_twenty_minutes() {
    let (record, text) = reset(42, None).unwrap();
    assert_eq!(record, TimerRecord { started_at: 42, duration_seconds: 1200 });
    assert_eq!(text, "20:00");

    let (record, text) = reset(0, Some(MAX_MINUTES)).unwrap();
    assert_eq!(record.duration_seconds, MAX_MINUTES * 60);
    assert!(text.ends_with(":00"));
}

#[test]
fn malformed_state_is_a_fatal_parse_error() {
    for bad in [
        "",
        "100",
        "100 ",
        " 300",
        "abc 12",
        "12 abc",
        "12 34 56",
        "100  300",
        "100 300x",
        "-5 300",
        "100 -300",
        "100 0",
        "9223372036854775808 60",
        "60 9223372036854775808",
    ] {
        assert_eq!(
            get(Some(bad), 1000, "msg"),
            Err(TimerError::ParseError),
            "input {:?} should be rejected",
            bad
        );
    }
}

#[test]
fn parse_accepts_what_write_produces() {
    let rec = TimerRecord { started_at: 12, duration_seconds: 300 };
    let line = serialize_record(&rec);
    assert_eq!(line, "12 300");
    assert_eq!(parse_record(&line), Ok(rec));

    let rec = TimerRecord { started_at: 0, duration_seconds: 1 };
    assert_eq!(serialize_record(&rec), "0 1");
    assert_eq!(parse_record("0 1"), Ok(rec));

    let rec = TimerRecord { started_at: i64::MAX, duration_seconds: i64::MAX };
    let line = serialize_record(&rec);
    assert_eq!(line, "9223372036854775807 9223372036854775807");
    assert_eq!(parse_record(&line), Ok(rec));
}

#[test]
fn parse_tolerates_leading_zeros() {
    assert_eq!(
        parse_record("007 060"),
        Ok(TimerRecord { started_at: 7, duration_seconds: 60 })
    );
}

#[test]
fn get_now_initializes_when_state_is_absent() {
    match get_now(None, "msg").unwrap() {
        GetOutcome::Started { record, text } => {
            assert_eq!(record.duration_seconds, 1200);
            assert!(record.started_at >= 0);
            assert_eq!(text, "20:00");
        }
        other => panic!("expected Started, got {:?}", other),
    }
}

#[test]
fn reset_now_uses_the_wall_clock() {
    let (record, text) = reset_now(Some(3)).unwrap();
    assert_eq!(record.duration_seconds, 180);
    // The clock wrapper must hand back a real current timestamp, not a
    // constant: any moment after 2020-01-01 is far above this bound.
    assert!(record.started_at > 1_500_000_000);
    assert_eq!(text, "03:00");
    assert_eq!(reset_now(Some(-1)), Err(TimerError::InvalidArgument));
}
