use omo::display::fmt_dec;
use omo::display::format_mmss;

#[test]
fn mmss_pads_both_fields() {
    assert_eq!(format_mmss(0), "00:00");
    assert_eq!(format_mmss(1), "00:01");
    assert_eq!(format_mmss(59), "00:59");
    assert_eq!(format_mmss(60), "01:00");
    assert_eq!(format_mmss(125), "02:05");
    assert_eq!(format_mmss(599), "09:59");
    assert_eq!(format_mmss(600), "10:00");
    assert_eq!(format_mmss(1200), "20:00");
    assert_eq!(format_mmss(3599), "59:59");
}

#[test]
fn mmss_minutes_do_not_roll_over_into_hours() {
    assert_eq!(format_mmss(3600), "60:00");
    assert_eq!(format_mmss(7205), "120:05");
    assert_eq!(format_mmss(i64::MAX), "153722867280912930:07");
}

#[test]
fn decimal_formatting_is_exact() {
    assert_eq!(fmt_dec(0), "0");
    assert_eq!(fmt_dec(7), "7");
    assert_eq!(fmt_dec(10), "10");
    assert_eq!(fmt_dec(20), "20");
    assert_eq!(fmt_dec(1048576), "1048576");
    assert_eq!(fmt_dec(i64::MAX), "9223372036854775807");
}
