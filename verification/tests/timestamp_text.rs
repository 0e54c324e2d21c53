//! The timestamp text format, including agreement with a reference
//! RFC 3339 implementation.

use chrono::{DateTime, TimeZone, Utc};
use token_store::timestamp::{format_timestamp, parse_timestamp, Timestamp};

fn fmt(secs: u64) -> String {
    String::from_utf8(format_timestamp(Timestamp::new(secs).unwrap())).unwrap()
}

fn parse(text: &str) -> u64 {
    parse_timestamp(&text.as_bytes().to_vec()).secs
}

#[test]
fn epoch_formats_as_the_zero_timestamp() {
    assert_eq!(fmt(0), "1970-01-01T00:00:00+00:00");
}

#[test]
fn known_instants_format_exactly() {
    assert_eq!(fmt(1600000000), "2020-09-13T12:26:40+00:00");
    assert_eq!(fmt(1700000000), "2023-11-14T22:13:20+00:00");
    assert_eq!(fmt(253402300799), "9999-12-31T23:59:59+00:00");
}

#[test]
fn last_representable_second_is_the_end_of_year_9999() {
    assert!(Timestamp::new(253402300799).is_some());
    assert!(Timestamp::new(253402300800).is_none());
}

#[test]
fn leap_day_round_trips() {
    assert_eq!(parse("2000-02-29T00:00:00+00:00"), 951782400);
    assert_eq!(fmt(951782400), "2000-02-29T00:00:00+00:00");
    assert_eq!(fmt(1709208000), "2024-02-29T12:00:00+00:00");
}

#[test]
fn impossible_dates_fall_back_to_the_epoch() {
    // 2100 is not a leap year.
    assert_eq!(parse("2100-02-29T00:00:00+00:00"), 0);
    assert_eq!(parse("2021-04-31T00:00:00+00:00"), 0);
    assert_eq!(parse("2021-00-10T00:00:00+00:00"), 0);
    assert_eq!(parse("2021-13-10T00:00:00+00:00"), 0);
    assert_eq!(parse("2021-05-03T24:00:00+00:00"), 0);
}

#[test]
fn years_before_1970_fall_back_to_the_epoch() {
    assert_eq!(parse("1969-12-31T23:59:59+00:00"), 0);
}

#[test]
fn malformed_text_falls_back_to_the_epoch() {
    assert_eq!(parse(""), 0);
    assert_eq!(parse("not a timestamp"), 0);
    assert_eq!(parse("2021-05-03 10:31:00+00:00"), 0);
    assert_eq!(parse("2021-05-03T10:31:00+01:00"), 0);
    assert_eq!(parse("2021-05-03T10:31:0x+00:00"), 0);
}

#[test]
fn formatting_agrees_with_a_reference_implementation() {
    for &secs in &[0u64, 1u64, 951782400, 1600000000, 1700000000, 4107542400, 253402300799] {
        let ours = fmt(secs);
        let reference: DateTime<Utc> = Utc.timestamp_opt(secs as i64, 0).unwrap();
        assert_eq!(ours, reference.to_rfc3339());
        let parsed = DateTime::parse_from_rfc3339(&ours).unwrap();
        assert_eq!(parsed.timestamp(), secs as i64);
        assert_eq!(parse(&ours), secs);
    }
}

#[test]
fn checked_add_saturating_boundary() {
    let t = Timestamp::new(253402300799).unwrap();
    assert!(t.checked_add(1).is_none());
    assert_eq!(t.checked_add(0).unwrap().secs, 253402300799);
    let early = Timestamp::new(100).unwrap();
    assert_eq!(early.checked_add(23).unwrap().secs, 123);
}
