use notaro_core::error::{ErrorKind, NotaroError};
use notaro_core::time::Timestamp;

#[test]
fn whole_second_is_written_without_fraction() {
    let t = Timestamp::from_parts(1_431_648_000, 0).unwrap();
    assert_eq!(t.to_rfc3339(), "2015-05-15T00:00:00+00:00");
}

#[test]
fn fraction_is_written_in_groups_of_three_digits() {
    let millis = Timestamp::from_parts(1_431_648_000, 500_000_000).unwrap();
    assert_eq!(millis.to_rfc3339(), "2015-05-15T00:00:00.500+00:00");
    let micros = Timestamp::from_parts(1_431_648_000, 1_000).unwrap();
    assert_eq!(micros.to_rfc3339(), "2015-05-15T00:00:00.000001+00:00");
    let nanos = Timestamp::from_parts(1_431_648_000, 1).unwrap();
    assert_eq!(nanos.to_rfc3339(), "2015-05-15T00:00:00.000000001+00:00");
}

#[test]
fn instant_before_the_epoch_has_negative_seconds() {
    let t = Timestamp::from_parts(-1, 0).unwrap();
    assert_eq!(t.secs(), -1);
    assert_eq!(t.to_rfc3339(), "1969-12-31T23:59:59+00:00");
}

#[test]
fn parts_come_back_unchanged() {
    let t = Timestamp::from_parts(851_042_397, 123_456_789).unwrap();
    assert_eq!(t.secs(), 851_042_397);
    assert_eq!(t.nanos(), 123_456_789);
}

#[test]
fn nanoseconds_of_two_seconds_are_refused() {
    assert!(Timestamp::from_parts(0, 2_000_000_000).is_none());
}

#[test]
fn leap_second_is_accepted_only_at_the_end_of_a_minute() {
    assert!(Timestamp::from_parts(59, 1_500_000_000).is_some());
    assert!(Timestamp::from_parts(58, 1_500_000_000).is_none());
}

#[test]
fn seconds_beyond_the_calendar_are_refused() {
    assert!(Timestamp::from_parts(i64::MAX, 0).is_none());
    assert!(Timestamp::from_parts(i64::MIN, 0).is_none());
}

#[test]
fn text_with_an_offset_is_read_as_utc() {
    let t = Timestamp::parse_rfc3339("1996-12-19T16:39:57-08:00").unwrap();
    assert_eq!(t.secs(), 851_042_397);
    assert_eq!(t.nanos(), 0);
    assert_eq!(t.to_rfc3339(), "1996-12-20T00:39:57+00:00");
}

#[test]
fn text_with_zulu_suffix_is_read() {
    let t = Timestamp::parse_rfc3339("2015-05-15T00:00:00.25Z").unwrap();
    assert_eq!(t.secs(), 1_431_648_000);
    assert_eq!(t.nanos(), 250_000_000);
}

#[test]
fn written_text_reads_back_as_the_same_instant() {
    let t = Timestamp::from_parts(1_700_000_000, 987_654_321).unwrap();
    let back = Timestamp::parse_rfc3339(&t.to_rfc3339()).unwrap();
    assert_eq!(back, t);
}

#[test]
fn text_that_is_no_timestamp_is_a_serialization_fault() {
    let err = Timestamp::parse_rfc3339("yesterday").unwrap_err();
    assert!(matches!(err, NotaroError::Timestamp(_)));
    assert_eq!(err.kind(), ErrorKind::SerializationFault);
}

#[test]
fn empty_text_is_a_serialization_fault() {
    assert!(matches!(Timestamp::parse_rfc3339(""), Err(NotaroError::Timestamp(_))));
}

#[test]
fn later_instant_is_at_or_after_earlier_one() {
    let early = Timestamp::from_parts(10, 5).unwrap();
    let late = Timestamp::from_parts(10, 6).unwrap();
    let later = Timestamp::from_parts(11, 0).unwrap();
    assert!(late.is_at_or_after(&early));
    assert!(!early.is_at_or_after(&late));
    assert!(later.is_at_or_after(&late));
    assert!(!late.is_at_or_after(&later));
    assert!(early.is_at_or_after(&early));
}

#[test]
fn clock_reading_is_after_the_year_2020() {
    let now = Timestamp::now();
    assert!(now.secs() > 1_577_836_800);
    assert!(now.nanos() < 1_000_000_000);
}

#[test]
fn clock_reading_can_be_rebuilt_from_its_parts() {
    let now = Timestamp::now();
    assert_eq!(Timestamp::from_parts(now.secs(), now.nanos()), Some(now));
    assert!(Timestamp::parse_rfc3339(&now.to_rfc3339()).is_ok());
}
