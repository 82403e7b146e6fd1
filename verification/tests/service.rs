use timestamp_converter::engine::{read_epoch, ErrorKind, Unit};
use timestamp_converter::registry::FormatName;
use timestamp_converter::service::{
    convert, convert_timestamp, current_time, declared, get_current_time, greet, local_instant,
    Mode,
    TimestampConversionRequest, TimestampConversionResponse,
};

fn request(input: &str, mode: &str, unit: &str, format: Option<&str>) -> TimestampConversionRequest {
    TimestampConversionRequest {
        input: input.to_string(),
        mode: mode.to_string(),
        unit: unit.to_string(),
        format: format.map(|f| f.to_string()),
    }
}

fn answer(input: &str, mode: &str, unit: &str, format: Option<&str>) -> TimestampConversionResponse {
    convert_timestamp(request(input, mode, unit, format), 0)
}

fn assert_failure(response: &TimestampConversionResponse, message: &str) {
    assert!(!response.success);
    assert_eq!(response.result, None);
    assert_eq!(response.error.as_deref(), Some(message));
}

fn assert_success(response: &TimestampConversionResponse, text: &str) {
    assert!(response.success);
    assert_eq!(response.result.as_deref(), Some(text));
    assert_eq!(response.error, None);
}

#[test]
fn a_request_is_answered_with_its_result() {
    assert_success(
        &answer("0", "timestamp-to-time", "seconds", Some("rfc3339")),
        "1970-01-01T00:00:00+00:00",
    );
    assert_success(
        &answer("2024-01-01T12:00:00Z", "time-to-timestamp", "milliseconds", None),
        "1704110400000",
    );
    assert_success(
        &answer("Mon, 01 Jan 2024 12:00:00 +0000", "time-to-timestamp", "seconds", Some("rfc2822")),
        "1704110400",
    );
}

#[test]
fn unknown_format_name_fails_either_way() {
    assert_failure(&answer("0", "timestamp-to-time", "seconds", Some("rfc-3339")), "Invalid format");
    assert_failure(
        &answer("2024-01-01T12:00:00Z", "time-to-timestamp", "seconds", Some("ISO8601-BASIC")),
        "Invalid format",
    );
    assert_failure(&answer("0", "timestamp-to-time", "seconds", Some("")), "Invalid format");
    // the name is looked at before the input
    assert_failure(&answer("zero", "timestamp-to-time", "seconds", Some("nope")), "Invalid format");
}

#[test]
fn unknown_unit_and_mode_fail() {
    assert_failure(&answer("0", "timestamp-to-time", "minutes", Some("rfc3339")), "Invalid unit");
    assert_failure(&answer("0", "timestamp-to-time", "Seconds", None), "Invalid unit");
    assert_failure(&answer("0", "to-time", "seconds", Some("rfc3339")), "Invalid mode");
    // the mode is looked at first, then the unit, then the format
    assert_failure(&answer("0", "to-time", "minutes", Some("nope")), "Invalid mode");
    assert_failure(&answer("0", "time-to-timestamp", "minutes", Some("nope")), "Invalid unit");
}

#[test]
fn each_error_has_its_message() {
    assert_failure(&answer("12x", "timestamp-to-time", "seconds", None), "Invalid number");
    assert_failure(
        &answer("253402300800", "timestamp-to-time", "seconds", None),
        "Timestamp out of range",
    );
    assert_failure(
        &answer("01.02.2024", "time-to-timestamp", "seconds", Some("iso8601-basic")),
        "Input does not match format iso8601-basic",
    );
    let response = answer("not-a-date", "time-to-timestamp", "seconds", None);
    assert!(!response.success);
    let message = response.error.unwrap();
    for name in ["local-readable", "utc-readable", "rfc3339", "iso8601-basic", "iso8601-extended", "rfc2822"] {
        assert!(message.contains(name));
    }
    assert_eq!(ErrorKind::InvalidNumber.message(), "Invalid number");
    assert_eq!(ErrorKind::InvalidUnit.message(), "Invalid unit");
    assert_eq!(ErrorKind::InvalidMode.message(), "Invalid mode");
    assert_eq!(ErrorKind::InvalidFormat.message(), "Invalid format");
    assert_eq!(ErrorKind::OutOfRange.message(), "Timestamp out of range");
    assert_eq!(
        ErrorKind::FormatMismatch(FormatName::UtcReadable).message(),
        "Input does not match format utc-readable"
    );
}

#[test]
fn convert_gives_the_error_kind() {
    let r = convert(&request("x", "timestamp-to-time", "seconds", None), 0);
    assert_eq!(r, Err(ErrorKind::InvalidNumber));
    let r = convert(&request("x", "time-to-timestamp", "seconds", None), 0);
    assert_eq!(r, Err(ErrorKind::UnrecognizedFormat));
    let r = convert(&request("x", "time-to-timestamp", "seconds", Some("rfc3339")), 0);
    assert_eq!(r, Err(ErrorKind::FormatMismatch(FormatName::Rfc3339)));
    let r = convert(&request("x", "", "seconds", None), 0);
    assert_eq!(r, Err(ErrorKind::InvalidMode));
    let r = convert(&request("x", "time-to-timestamp", "", None), 0);
    assert_eq!(r, Err(ErrorKind::InvalidUnit));
    let r = convert(&request("x", "time-to-timestamp", "seconds", Some("x")), 0);
    assert_eq!(r, Err(ErrorKind::InvalidFormat));
    let r = convert(&request("-62167219201", "timestamp-to-time", "seconds", Some("rfc3339")), 0);
    assert_eq!(r, Err(ErrorKind::OutOfRange));
}

#[test]
fn the_local_offset_moves_only_the_local_format() {
    let local = convert_timestamp(request("1704110400", "timestamp-to-time", "seconds", None), 19800);
    assert_success(&local, "2024-01-01 17:30:00");
    let local =
        convert_timestamp(request("1704110400", "timestamp-to-time", "seconds", Some("local-readable")), -3600);
    assert_success(&local, "2024-01-01 11:00:00");
    for name in ["utc-readable", "rfc3339", "iso8601-basic", "iso8601-extended", "rfc2822"] {
        let with = convert_timestamp(request("1704110400", "timestamp-to-time", "seconds", Some(name)), 19800);
        let without = convert_timestamp(request("1704110400", "timestamp-to-time", "seconds", Some(name)), 0);
        assert!(with.success);
        assert_eq!(with.result, without.result);
    }
    // a wall clock beyond the calendar
    let late = convert_timestamp(request("253402300799", "timestamp-to-time", "seconds", None), 1);
    assert_failure(&late, "Timestamp out of range");
    // reading takes no account of the zone
    let read = convert_timestamp(request("2024-01-01 12:00:00", "time-to-timestamp", "seconds", None), 19800);
    assert_success(&read, "1704110400");
}

#[test]
fn the_current_time_as_a_bare_number() {
    assert_eq!(current_time(1704110400123, "seconds", None, 0), Ok("1704110400".to_string()));
    assert_eq!(current_time(1704110400123, "milliseconds", None, 0), Ok("1704110400123".to_string()));
    // a format is not looked at where the bare number is asked for
    assert_eq!(current_time(1704110400123, "seconds", Some("nope"), 7200), Ok("1704110400".to_string()));
    assert_eq!(current_time(-1500, "seconds", None, 0), Ok("-1".to_string()));
    assert_eq!(current_time(i64::MIN, "seconds", None, 0), Ok("-9223372036854775".to_string()));
    assert_eq!(current_time(i64::MAX, "milliseconds", None, 0), Ok("9223372036854775807".to_string()));
}

#[test]
fn the_current_time_as_text() {
    let now = 1704110400123;
    assert_eq!(
        current_time(now, "formatted", Some("iso8601-extended"), 3600),
        Ok("2024-01-01T12:00:00.123Z".to_string())
    );
    assert_eq!(current_time(now, "formatted", Some("local-readable"), 3600), Ok("2024-01-01 13:00:00".to_string()));
    assert_eq!(current_time(now, "formatted", None, -3600), Ok("2024-01-01 11:00:00".to_string()));
    assert_eq!(current_time(now, "formatted", Some("unknown"), 0), Err(ErrorKind::InvalidFormat));
    assert_eq!(current_time(now, "minutes", Some("rfc3339"), 0), Err(ErrorKind::InvalidUnit));
    assert_eq!(current_time(i64::MAX, "formatted", Some("rfc3339"), 0), Err(ErrorKind::OutOfRange));
}

#[test]
fn a_request_for_the_current_time_is_answered() {
    let r = get_current_time(1704110400123, 0, "formatted".to_string(), Some("rfc2822".to_string()));
    assert_success(&r, "Mon, 01 Jan 2024 12:00:00 +0000");
    let r = get_current_time(1704110400123, 0, "seconds".to_string(), None);
    assert_success(&r, "1704110400");
    let r = get_current_time(1704110400123, 0, "formatted".to_string(), Some("rfc".to_string()));
    assert_failure(&r, "Invalid format");
    let r = get_current_time(1704110400123, 0, "hours".to_string(), None);
    assert_failure(&r, "Invalid unit");
}

#[test]
fn names_of_units_and_modes() {
    assert_eq!(Unit::from_name("seconds"), Some(Unit::Seconds));
    assert_eq!(Unit::from_name("milliseconds"), Some(Unit::Milliseconds));
    assert_eq!(Unit::from_name("formatted"), None);
    assert_eq!(Unit::from_name("second"), None);
    assert_eq!(Mode::from_name("timestamp-to-time"), Some(Mode::TimestampToTime));
    assert_eq!(Mode::from_name("time-to-timestamp"), Some(Mode::TimeToTimestamp));
    assert_eq!(Mode::from_name("timestamp_to_time"), None);
    assert_eq!(declared(None), Ok(None));
    assert_eq!(declared(Some("rfc2822")), Ok(Some(FormatName::Rfc2822)));
    assert_eq!(declared(Some("rfc")), Err(ErrorKind::InvalidFormat));
}

#[test]
fn an_epoch_value_names_an_instant() {
    assert_eq!(read_epoch("1704110400", Unit::Seconds).map(|t| t.millis()), Ok(1704110400000));
    assert_eq!(read_epoch("1704110400", Unit::Milliseconds).map(|t| t.millis()), Ok(1704110400));
    assert_eq!(read_epoch("-1", Unit::Seconds).map(|t| t.millis()), Ok(-1000));
    assert_eq!(read_epoch("1e3", Unit::Seconds).map(|t| t.millis()), Err(ErrorKind::InvalidNumber));
    assert_eq!(read_epoch("253402300800", Unit::Seconds).map(|t| t.millis()), Err(ErrorKind::OutOfRange));
    assert_eq!(read_epoch("253402300800", Unit::Milliseconds).map(|t| t.millis()), Ok(253402300800));
    assert_eq!(
        read_epoch("9223372036854775807", Unit::Seconds).map(|t| t.millis()),
        Err(ErrorKind::OutOfRange)
    );
}

#[test]
fn a_name_is_greeted() {
    assert_eq!(greet("Ada"), "Hello, Ada! You've been greeted from Rust!");
    assert_eq!(greet(""), "Hello, ! You've been greeted from Rust!");
}

#[test]
fn the_zone_is_asked_for_the_instant_that_is_shown() {
    let at = |input: &str, mode: &str, unit: &str, format: Option<&str>| {
        local_instant(&request(input, mode, unit, format))
    };
    assert_eq!(at("1704110400", "timestamp-to-time", "seconds", None), Some(1704110400000));
    assert_eq!(at("1704110400", "timestamp-to-time", "milliseconds", Some("local-readable")), Some(1704110400));
    assert_eq!(at("1704110400", "timestamp-to-time", "seconds", Some("utc-readable")), None);
    assert_eq!(at("1704110400", "timestamp-to-time", "seconds", Some("nope")), None);
    assert_eq!(at("1704110400", "timestamp-to-time", "hours", None), None);
    assert_eq!(at("1704110400", "time-to-timestamp", "seconds", None), None);
    assert_eq!(at("soon", "timestamp-to-time", "seconds", None), None);
    assert_eq!(at("253402300800", "timestamp-to-time", "seconds", None), None);
}
