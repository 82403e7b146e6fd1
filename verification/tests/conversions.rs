use timestamp_converter::engine::{time_to_timestamp, timestamp_to_time, ErrorKind, Unit};
use timestamp_converter::registry::FormatName;

#[test]
fn epoch_zero_as_rfc3339() {
    let r = timestamp_to_time("0", Unit::Seconds, Some(FormatName::Rfc3339), 0);
    assert_eq!(r, Ok("1970-01-01T00:00:00+00:00".to_string()));
}

#[test]
fn seconds_as_utc_readable() {
    let r = timestamp_to_time("1704110400", Unit::Seconds, Some(FormatName::UtcReadable), 0);
    assert_eq!(r, Ok("2024-01-01 12:00:00 UTC".to_string()));
}

#[test]
fn utc_readable_ignores_the_local_offset() {
    let r = timestamp_to_time("1704110400", Unit::Seconds, Some(FormatName::UtcReadable), 7200);
    assert_eq!(r, Ok("2024-01-01 12:00:00 UTC".to_string()));
}

#[test]
fn absent_format_is_local_readable() {
    let r = timestamp_to_time("1704110400", Unit::Seconds, None, 3600);
    assert_eq!(r, Ok("2024-01-01 13:00:00".to_string()));
    let r = timestamp_to_time("1704110400", Unit::Seconds, Some(FormatName::LocalReadable), -18000);
    assert_eq!(r, Ok("2024-01-01 07:00:00".to_string()));
}

#[test]
fn milliseconds_as_each_format() {
    let t = "1704110400123";
    let ms = Unit::Milliseconds;
    assert_eq!(
        timestamp_to_time(t, ms, Some(FormatName::Iso8601Basic), 0),
        Ok("20240101T120000Z".to_string())
    );
    assert_eq!(
        timestamp_to_time(t, ms, Some(FormatName::Iso8601Extended), 0),
        Ok("2024-01-01T12:00:00.123Z".to_string())
    );
    assert_eq!(
        timestamp_to_time(t, ms, Some(FormatName::Rfc2822), 0),
        Ok("Mon, 01 Jan 2024 12:00:00 +0000".to_string())
    );
    assert_eq!(
        timestamp_to_time(t, ms, Some(FormatName::Rfc3339), 0),
        Ok("2024-01-01T12:00:00+00:00".to_string())
    );
}

#[test]
fn rfc3339_text_is_detected() {
    let r = time_to_timestamp("2024-01-01T12:00:00Z", Unit::Milliseconds, None);
    assert_eq!(r, Ok("1704110400000".to_string()));
}

#[test]
fn text_that_is_no_date_is_unrecognized() {
    let r = time_to_timestamp("not-a-date", Unit::Seconds, None);
    assert_eq!(r, Err(ErrorKind::UnrecognizedFormat));
}

#[test]
fn numeral_beyond_64_bits_is_no_number() {
    let r = timestamp_to_time("99999999999999999999", Unit::Seconds, None, 0);
    assert_eq!(r, Err(ErrorKind::InvalidNumber));
}

#[test]
fn ambiguous_strokes_are_month_first() {
    // 2 January 2024, not 1 February 2024
    let r = time_to_timestamp("01/02/2024", Unit::Seconds, None);
    assert_eq!(r, Ok("1704153600".to_string()));
    let r = time_to_timestamp("01/02/2024", Unit::Milliseconds, None);
    assert_eq!(r, Ok("1704153600000".to_string()));
}

#[test]
fn month_thirteen_falls_through_to_day_first() {
    // 13 May 2024
    let r = time_to_timestamp("13/05/2024", Unit::Seconds, None);
    assert_eq!(r, Ok("1715558400".to_string()));
}

#[test]
fn declared_format_that_does_not_fit() {
    let r = time_to_timestamp("2024-01-01 12:00:00", Unit::Seconds, Some(FormatName::Rfc2822));
    assert_eq!(r, Err(ErrorKind::FormatMismatch(FormatName::Rfc2822)));
}

#[test]
fn offset_in_the_text_is_applied() {
    let r = time_to_timestamp("2024-01-01T20:00:00+08:00", Unit::Seconds, None);
    assert_eq!(r, Ok("1704110400".to_string()));
    let r = time_to_timestamp("Mon, 01 Jan 2024 07:00:00 -0500", Unit::Seconds, None);
    assert_eq!(r, Ok("1704110400".to_string()));
}

#[test]
fn text_without_offset_is_utc() {
    let r = time_to_timestamp("2024-01-01 12:00:00", Unit::Seconds, None);
    assert_eq!(r, Ok("1704110400".to_string()));
}

#[test]
fn date_alone_is_midnight() {
    let r = time_to_timestamp("2024-01-01", Unit::Seconds, None);
    assert_eq!(r, Ok("1704067200".to_string()));
    let r = time_to_timestamp("2024/01/01", Unit::Seconds, None);
    assert_eq!(r, Ok("1704067200".to_string()));
}

#[test]
fn fraction_of_the_second_counts_to_the_millisecond() {
    let ms = Unit::Milliseconds;
    assert_eq!(time_to_timestamp("2024-01-01T12:00:00.5Z", ms, None), Ok("1704110400500".to_string()));
    assert_eq!(time_to_timestamp("2024-01-01T12:00:00.123456Z", ms, None), Ok("1704110400123".to_string()));
    assert_eq!(time_to_timestamp("20240101T120000.25", ms, None), Ok("1704110400250".to_string()));
    assert_eq!(
        time_to_timestamp("2024-01-01T12:00:00.999Z", Unit::Seconds, None),
        Ok("1704110400".to_string())
    );
}

#[test]
fn seconds_before_the_epoch_drop_towards_zero() {
    let r = time_to_timestamp("1969-12-31T23:59:59.500Z", Unit::Seconds, None);
    assert_eq!(r, Ok("0".to_string()));
    let r = time_to_timestamp("1969-12-31T23:59:58.500Z", Unit::Seconds, None);
    assert_eq!(r, Ok("-1".to_string()));
    let r = time_to_timestamp("1969-12-31T23:59:59.500Z", Unit::Milliseconds, None);
    assert_eq!(r, Ok("-500".to_string()));
}

#[test]
fn epoch_value_outside_the_calendar() {
    let r = timestamp_to_time("253402300800", Unit::Seconds, Some(FormatName::Rfc3339), 0);
    assert_eq!(r, Err(ErrorKind::OutOfRange));
    let r = timestamp_to_time("253402300799", Unit::Seconds, Some(FormatName::Rfc3339), 0);
    assert_eq!(r, Ok("9999-12-31T23:59:59+00:00".to_string()));
    let r = timestamp_to_time("-62167219200", Unit::Seconds, Some(FormatName::Rfc3339), 0);
    assert_eq!(r, Ok("0000-01-01T00:00:00+00:00".to_string()));
    let r = timestamp_to_time("-62167219201", Unit::Seconds, Some(FormatName::Rfc3339), 0);
    assert_eq!(r, Err(ErrorKind::OutOfRange));
    let r = timestamp_to_time("9223372036854775807", Unit::Seconds, None, 0);
    assert_eq!(r, Err(ErrorKind::OutOfRange));
}

#[test]
fn numerals_that_are_no_numbers() {
    for text in ["", "-", "+", "12a", " 12", "1.5", "0x10"] {
        assert_eq!(
            timestamp_to_time(text, Unit::Seconds, Some(FormatName::Rfc3339), 0),
            Err(ErrorKind::InvalidNumber)
        );
    }
    assert_eq!(
        timestamp_to_time("+60", Unit::Seconds, Some(FormatName::Rfc3339), 0),
        Ok("1970-01-01T00:01:00+00:00".to_string())
    );
    assert_eq!(
        timestamp_to_time("-0060", Unit::Seconds, Some(FormatName::Rfc3339), 0),
        Ok("1969-12-31T23:59:00+00:00".to_string())
    );
}

#[test]
fn invalid_calendar_values_do_not_match() {
    let s = Unit::Seconds;
    assert_eq!(time_to_timestamp("2023-02-29T00:00:00Z", s, None), Err(ErrorKind::UnrecognizedFormat));
    assert_eq!(time_to_timestamp("2024-02-29T00:00:00Z", s, None), Ok("1709164800".to_string()));
    assert_eq!(time_to_timestamp("2024-01-01T24:00:00Z", s, None), Err(ErrorKind::UnrecognizedFormat));
    assert_eq!(time_to_timestamp("2024-01-01T12:60:00Z", s, None), Err(ErrorKind::UnrecognizedFormat));
    assert_eq!(time_to_timestamp("Tue, 01 Jan 2024 12:00:00 +0000", s, None), Err(ErrorKind::UnrecognizedFormat));
    assert_eq!(time_to_timestamp("2024-01-01T12:00:00Z trailing", s, None), Err(ErrorKind::UnrecognizedFormat));
}
