use event_assembly::error::EventError;
use event_assembly::event::derive_timestamp;
use event_assembly::timestamp::{parse_epoch_seconds, parse_timestamp, resolve_timestamp, Timestamp};

fn at(secs: i64, nanos: u32) -> Timestamp {
    Timestamp { secs, nanos }
}

#[test]
fn epoch_seconds_are_signed_decimal_integers() {
    assert_eq!(parse_epoch_seconds("0"), Some(0));
    assert_eq!(parse_epoch_seconds("1431648000"), Some(1431648000));
    assert_eq!(parse_epoch_seconds("-5"), Some(-5));
    assert_eq!(parse_epoch_seconds("+7"), Some(7));
    assert_eq!(parse_epoch_seconds("007"), Some(7));
    assert_eq!(parse_epoch_seconds("-0"), Some(0));
}

#[test]
fn epoch_seconds_reject_other_texts() {
    assert_eq!(parse_epoch_seconds(""), None);
    assert_eq!(parse_epoch_seconds("-"), None);
    assert_eq!(parse_epoch_seconds("+"), None);
    assert_eq!(parse_epoch_seconds("12a"), None);
    assert_eq!(parse_epoch_seconds(" 12"), None);
    assert_eq!(parse_epoch_seconds("12 "), None);
    assert_eq!(parse_epoch_seconds("1.5"), None);
    assert_eq!(parse_epoch_seconds("--1"), None);
    assert_eq!(parse_epoch_seconds("1-"), None);
    assert_eq!(parse_epoch_seconds("١٢"), None);
}

#[test]
fn epoch_seconds_stop_at_64_bits() {
    assert_eq!(parse_epoch_seconds("9223372036854775807"), Some(i64::MAX));
    assert_eq!(parse_epoch_seconds("9223372036854775808"), None);
    assert_eq!(parse_epoch_seconds("-9223372036854775808"), Some(i64::MIN));
    assert_eq!(parse_epoch_seconds("-9223372036854775809"), None);
    assert_eq!(parse_epoch_seconds("99999999999999999999999999999999999999999999"), None);
    assert_eq!(parse_epoch_seconds("00000000000000000000000000000000000000000042"), Some(42));
}

#[test]
fn epoch_seconds_agree_with_the_standard_parser() {
    for text in ["0", "-1", "+1", "", "+", "-", "1e3", "0x10", "123456789012345678901", "-000"] {
        assert_eq!(parse_epoch_seconds(text), text.parse::<i64>().ok());
    }
}

#[test]
fn timestamp_accepts_the_three_formats() {
    assert_eq!(parse_timestamp("1431648000"), Ok(at(1431648000, 0)));
    assert_eq!(parse_timestamp("Wed, 18 Feb 2015 23:16:09 GMT"), Ok(at(1424301369, 0)));
    assert_eq!(parse_timestamp("1996-12-19T16:39:57-08:00"), Ok(at(851042397, 0)));
    assert_eq!(parse_timestamp("2015-02-18T23:16:09.5Z"), Ok(at(1424301369, 500_000_000)));
}

#[test]
fn timestamp_rejects_anything_else() {
    assert_eq!(parse_timestamp("yesterday"), Err(EventError::InvalidTimestamp));
    assert_eq!(parse_timestamp(""), Err(EventError::InvalidTimestamp));
    assert_eq!(parse_timestamp("2015-02-18"), Err(EventError::InvalidTimestamp));
    assert_eq!(parse_timestamp("9223372036854775808"), Err(EventError::InvalidTimestamp));
}

#[test]
fn first_successful_reading_wins() {
    assert_eq!(resolve_timestamp(Some(3), Some(at(4, 1)), Some(at(5, 2))), Ok(at(3, 0)));
    assert_eq!(resolve_timestamp(None, Some(at(4, 1)), Some(at(5, 2))), Ok(at(4, 1)));
    assert_eq!(resolve_timestamp(None, None, Some(at(5, 2))), Ok(at(5, 2)));
    assert_eq!(resolve_timestamp(Some(3), None, None), Ok(at(3, 0)));
    assert_eq!(resolve_timestamp(None, None, None), Err(EventError::InvalidTimestamp));
}

#[test]
fn absent_timestamp_is_left_open() {
    assert_eq!(derive_timestamp(None), Ok(None));
    assert_eq!(derive_timestamp(Some("17")), Ok(Some(at(17, 0))));
    assert_eq!(derive_timestamp(Some("soon")), Err(EventError::InvalidTimestamp));
}
