use chrono::{Local, TimeZone};
use my_dev_tool::timestamp::{
    convert_timestamp, format_timestamp, parse_timestamp, TimestampError, MAX_TIMESTAMP,
    MIN_TIMESTAMP, OFFSET_LIMIT,
};

#[test]
fn epoch_in_utc() {
    assert_eq!(format_timestamp(0, 0), Ok(String::from("1970-01-01T00:00:00+00:00")));
}

#[test]
fn new_year_2021_in_utc() {
    assert_eq!(
        format_timestamp(1609459200, 0),
        Ok(String::from("2021-01-01T00:00:00+00:00"))
    );
}

#[test]
fn new_year_2021_eight_hours_east() {
    assert_eq!(
        format_timestamp(1609459200, 8 * 3600),
        Ok(String::from("2021-01-01T08:00:00+08:00"))
    );
}

#[test]
fn west_of_utc_and_before_the_epoch() {
    assert_eq!(
        format_timestamp(0, -5 * 3600),
        Ok(String::from("1969-12-31T19:00:00-05:00"))
    );
    assert_eq!(format_timestamp(-1, 0), Ok(String::from("1969-12-31T23:59:59+00:00")));
    assert_eq!(
        format_timestamp(951782400, 5 * 3600 + 30 * 60),
        Ok(String::from("2000-02-29T05:30:00+05:30"))
    );
}

#[test]
fn first_and_last_second_of_the_calendar() {
    assert_eq!(
        format_timestamp(MIN_TIMESTAMP, 0),
        Ok(String::from("-262143-01-01T00:00:00+00:00"))
    );
    assert_eq!(
        format_timestamp(MAX_TIMESTAMP, 0),
        Ok(String::from("+262142-12-31T23:59:59+00:00"))
    );
}

#[test]
fn seconds_beyond_the_calendar_are_out_of_range() {
    assert_eq!(format_timestamp(MIN_TIMESTAMP - 1, 0), Err(TimestampError::OutOfRange));
    assert_eq!(format_timestamp(MAX_TIMESTAMP + 1, 0), Err(TimestampError::OutOfRange));
    assert_eq!(format_timestamp(i64::MIN, 0), Err(TimestampError::OutOfRange));
    assert_eq!(format_timestamp(i64::MAX, 0), Err(TimestampError::OutOfRange));
    assert_eq!(format_timestamp(MIN_TIMESTAMP - 1, 3600), Err(TimestampError::OutOfRange));
    assert_eq!(format_timestamp(MAX_TIMESTAMP + 1, -3600), Err(TimestampError::OutOfRange));
}

#[test]
fn offsets_of_a_day_or_more_are_out_of_range() {
    assert_eq!(format_timestamp(0, OFFSET_LIMIT), Err(TimestampError::OutOfRange));
    assert_eq!(format_timestamp(0, -OFFSET_LIMIT), Err(TimestampError::OutOfRange));
    assert_eq!(format_timestamp(0, i32::MAX), Err(TimestampError::OutOfRange));
    assert_eq!(format_timestamp(0, i32::MIN), Err(TimestampError::OutOfRange));
    assert!(format_timestamp(0, OFFSET_LIMIT - 1).is_ok());
    assert!(format_timestamp(0, 1 - OFFSET_LIMIT).is_ok());
    assert!(format_timestamp(MAX_TIMESTAMP, OFFSET_LIMIT - 1).is_ok());
    assert!(format_timestamp(MIN_TIMESTAMP, 1 - OFFSET_LIMIT).is_ok());
}

#[test]
fn rendering_at_the_local_offset_is_the_local_rendering() {
    for seconds in [0i64, 1609459200, -86400, 1_700_000_000, MIN_TIMESTAMP, MAX_TIMESTAMP] {
        let expected = Local.timestamp_opt(seconds, 0).unwrap();
        let offset = expected.offset().local_minus_utc();
        assert_eq!(format_timestamp(seconds, offset), Ok(expected.to_rfc3339()));
    }
}

#[test]
fn parses_decimal_integers() {
    assert_eq!(parse_timestamp("0"), Ok(0));
    assert_eq!(parse_timestamp("1609459200"), Ok(1609459200));
    assert_eq!(parse_timestamp("-1"), Ok(-1));
    assert_eq!(parse_timestamp("+42"), Ok(42));
    assert_eq!(parse_timestamp("007"), Ok(7));
    assert_eq!(parse_timestamp("-0"), Ok(0));
    assert_eq!(parse_timestamp("9223372036854775807"), Ok(i64::MAX));
    assert_eq!(parse_timestamp("-9223372036854775808"), Ok(i64::MIN));
    assert_eq!(parse_timestamp("0000000000000000000000000000000000000012"), Ok(12));
}

#[test]
fn rejects_what_is_no_integer() {
    for text in ["abc", "", "-", "+", "12a", " 12", "12 ", "1.5", "--1", "+-1", "1_000", "0x10", "١٢"] {
        assert_eq!(parse_timestamp(text), Err(TimestampError::ParseError));
    }
}

#[test]
fn rejects_integers_beyond_64_bits() {
    assert_eq!(parse_timestamp("9223372036854775808"), Err(TimestampError::ParseError));
    assert_eq!(parse_timestamp("-9223372036854775809"), Err(TimestampError::ParseError));
    assert_eq!(
        parse_timestamp("99999999999999999999999999999999999999999999"),
        Err(TimestampError::ParseError)
    );
    assert_eq!(
        parse_timestamp("-99999999999999999999999999999999999999999999"),
        Err(TimestampError::ParseError)
    );
}

#[test]
fn parsing_agrees_with_the_standard_parser() {
    let samples = [
        "0", "-0", "+0", "1", "-1", "+1", "10", "1234567890", "-", "+", "", "a", "1a", "a1",
        "9223372036854775806", "9223372036854775807", "9223372036854775808",
        "-9223372036854775807", "-9223372036854775808", "-9223372036854775809",
        "18446744073709551616", "00000000000000000000009", " 1", "1 ", "1\n", "٣",
    ];
    for text in samples {
        assert_eq!(parse_timestamp(text).ok(), text.parse::<i64>().ok());
    }
}

#[test]
fn timestamp_abc_is_a_parse_error() {
    assert_eq!(convert_timestamp("abc", 0), Err(TimestampError::ParseError));
    assert_eq!(convert_timestamp("abc", 8 * 3600), Err(TimestampError::ParseError));
    assert_eq!(convert_timestamp("abc", OFFSET_LIMIT), Err(TimestampError::ParseError));
    assert_eq!(parse_timestamp("abc"), Err(TimestampError::ParseError));
}

#[test]
fn converts_an_argument_at_an_offset() {
    assert_eq!(
        convert_timestamp("1609459200", 8 * 3600),
        Ok(String::from("2021-01-01T08:00:00+08:00"))
    );
    assert_eq!(convert_timestamp("0", 0), Ok(String::from("1970-01-01T00:00:00+00:00")));
    assert_eq!(convert_timestamp("+0", 0), Ok(String::from("1970-01-01T00:00:00+00:00")));
    assert_eq!(convert_timestamp("-1", 0), Ok(String::from("1969-12-31T23:59:59+00:00")));
}

#[test]
fn converting_beyond_the_calendar_is_out_of_range() {
    assert_eq!(convert_timestamp("0", OFFSET_LIMIT), Err(TimestampError::OutOfRange));
    assert_eq!(convert_timestamp("9223372036854775807", 0), Err(TimestampError::OutOfRange));
    assert_eq!(convert_timestamp("8210266876800", 0), Err(TimestampError::OutOfRange));
    assert_eq!(convert_timestamp("-8334601228801", 0), Err(TimestampError::OutOfRange));
    assert!(convert_timestamp("8210266876799", 0).is_ok());
    assert!(convert_timestamp("-8334601228800", 0).is_ok());
}

#[test]
fn converting_at_the_local_offset_is_the_local_rendering() {
    let expected = Local.timestamp_opt(1609459200, 0).unwrap();
    let offset = expected.offset().local_minus_utc();
    assert_eq!(convert_timestamp("1609459200", offset), Ok(expected.to_rfc3339()));
}

#[test]
fn timestamp_errors_have_messages() {
    assert_eq!(TimestampError::ParseError.message(), "the timestamp is not a valid integer");
    assert_eq!(TimestampError::OutOfRange.message(), "the timestamp is out of range");
}
