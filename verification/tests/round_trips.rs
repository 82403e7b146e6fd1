use timestamp_converter::engine::{match_first, time_to_timestamp, timestamp_to_time, ErrorKind, Unit};
use timestamp_converter::registry::{auto_detect_order, parse_templates, FormatName};
use timestamp_converter::text::chars_of;

const ALL: [FormatName; 6] = [
    FormatName::LocalReadable,
    FormatName::UtcReadable,
    FormatName::Rfc3339,
    FormatName::Iso8601Basic,
    FormatName::Iso8601Extended,
    FormatName::Rfc2822,
];

const MOMENTS: [i64; 14] = [
    0,
    1,
    -1,
    999,
    1704110400000,
    1704110400123,
    1720085415250,
    946684799999,
    -14182940000,
    2147483647000,
    -62167219200000,
    -62135596800000,
    253402300799999,
    253402300799000,
];

#[test]
fn milliseconds_come_back_through_every_format() {
    for name in ALL {
        for t in MOMENTS {
            if name != FormatName::Iso8601Extended && t % 1000 != 0 {
                continue;
            }
            let text = timestamp_to_time(&t.to_string(), Unit::Milliseconds, Some(name), 0).unwrap();
            assert_eq!(time_to_timestamp(&text, Unit::Milliseconds, Some(name)), Ok(t.to_string()));
            assert_eq!(time_to_timestamp(&text, Unit::Milliseconds, None), Ok(t.to_string()));
        }
    }
}

#[test]
fn formats_without_a_fraction_come_back_to_the_second() {
    for name in ALL {
        for t in MOMENTS {
            let text = timestamp_to_time(&t.to_string(), Unit::Milliseconds, Some(name), 0).unwrap();
            let back: i64 = time_to_timestamp(&text, Unit::Milliseconds, Some(name)).unwrap().parse().unwrap();
            if name == FormatName::Iso8601Extended {
                assert_eq!(back, t);
            } else {
                assert_eq!(back, t.div_euclid(1000) * 1000);
            }
        }
    }
}

#[test]
fn seconds_come_back_through_every_format() {
    for name in ALL {
        for s in [0i64, 1, -1, 1704110400, -62167219200, 253402300799, 951782400, -2208988800] {
            let text = timestamp_to_time(&s.to_string(), Unit::Seconds, Some(name), 0).unwrap();
            assert_eq!(time_to_timestamp(&text, Unit::Seconds, Some(name)), Ok(s.to_string()));
            assert_eq!(time_to_timestamp(&text, Unit::Seconds, None), Ok(s.to_string()));
        }
    }
}

#[test]
fn seconds_drop_the_rest_towards_zero() {
    let read = |text: &str| time_to_timestamp(text, Unit::Seconds, Some(FormatName::Iso8601Extended));
    assert_eq!(read("1970-01-01T00:00:00.999Z"), Ok("0".to_string()));
    assert_eq!(read("1970-01-01T00:00:01.001Z"), Ok("1".to_string()));
    assert_eq!(read("1969-12-31T23:59:59.001Z"), Ok("0".to_string()));
    assert_eq!(read("1969-12-31T23:59:59.000Z"), Ok("-1".to_string()));
    assert_eq!(read("1969-12-31T23:59:58.999Z"), Ok("-1".to_string()));
}

#[test]
fn a_local_wall_clock_is_read_as_utc() {
    let text = timestamp_to_time("1704110400", Unit::Seconds, Some(FormatName::LocalReadable), 3600).unwrap();
    assert_eq!(text, "2024-01-01 13:00:00");
    assert_eq!(
        time_to_timestamp(&text, Unit::Seconds, Some(FormatName::LocalReadable)),
        Ok("1704114000".to_string())
    );
}

#[test]
fn the_first_template_that_reads_decides() {
    let order = auto_detect_order();
    let place = |text: &str| match_first(&order, &chars_of(text)).map(|hit| (hit.0, hit.1.millis()));
    assert_eq!(place("2024-01-01T12:00:00.5+01:00"), Some((0, 1704106800500)));
    assert_eq!(place("2024-01-01T12:00:00Z"), Some((1, 1704110400000)));
    assert_eq!(place("2024-01-01T12:00:00.250Z"), Some((0, 1704110400250)));
    assert_eq!(place("2024-01-01T12:00:00.250"), Some((4, 1704110400250)));
    assert_eq!(place("2024-01-01T12:00:00"), Some((5, 1704110400000)));
    assert_eq!(place("20240101T120000.5Z"), Some((6, 1704110400500)));
    assert_eq!(place("20240101T120000Z"), Some((7, 1704110400000)));
    assert_eq!(place("20240101T120000"), Some((9, 1704110400000)));
    assert_eq!(place("Mon, 01 Jan 2024 12:00:00 +0000"), Some((10, 1704110400000)));
    assert_eq!(place("01 Jan 2024 12:00:00 +0100"), Some((11, 1704106800000)));
    assert_eq!(place("2024-01-01 12:00:00.5 UTC"), Some((12, 1704110400500)));
    assert_eq!(place("2024-01-01 12:00:00 UTC"), Some((13, 1704110400000)));
    assert_eq!(place("2024-01-01 12:00:00.5"), Some((14, 1704110400500)));
    assert_eq!(place("2024-01-01 12:00:00"), Some((15, 1704110400000)));
    assert_eq!(place("2024-01-01 12:00"), Some((18, 1704110400000)));
    assert_eq!(place("2024-01-01"), Some((19, 1704067200000)));
    assert_eq!(place("2024/01/01 12:00:00"), Some((20, 1704110400000)));
    assert_eq!(place("2024/01/01"), Some((21, 1704067200000)));
    assert_eq!(place("01/02/2024 12:00:00"), Some((22, 1704196800000)));
    assert_eq!(place("01/02/2024"), Some((23, 1704153600000)));
    assert_eq!(place("13/05/2024 12:00:00"), Some((24, 1715601600000)));
    assert_eq!(place("13/05/2024"), Some((25, 1715558400000)));
    assert_eq!(place("13/13/2024"), None);
    assert_eq!(place("31/04/2024"), None);
    assert_eq!(place("02/30/2024"), None);
    assert_eq!(place(""), None);
}

#[test]
fn a_declared_format_tries_only_its_own_templates() {
    let read = |text: &str, name: FormatName| time_to_timestamp(text, Unit::Seconds, Some(name));
    let plain = "2024-01-01 12:00:00";
    assert_eq!(read(plain, FormatName::LocalReadable), Ok("1704110400".to_string()));
    assert_eq!(read(plain, FormatName::UtcReadable), Ok("1704110400".to_string()));
    for name in [FormatName::Rfc3339, FormatName::Iso8601Basic, FormatName::Iso8601Extended, FormatName::Rfc2822] {
        assert_eq!(read(plain, name), Err(ErrorKind::FormatMismatch(name)));
    }
    assert_eq!(read("01/02/2024", FormatName::LocalReadable), Err(ErrorKind::FormatMismatch(FormatName::LocalReadable)));
    let list = parse_templates(FormatName::UtcReadable);
    let hit = match_first(&list, &chars_of("2024-01-01 12:00:00.75 UTC")).unwrap();
    assert_eq!((hit.0, hit.1.millis()), (0, 1704110400750));
    let hit = match_first(&list, &chars_of("2024-01-01 12:00:00")).unwrap();
    assert_eq!((hit.0, hit.1.millis()), (3, 1704110400000));
    assert!(match_first(&list, &chars_of("2024-01-01")).is_none());
    assert!(match_first(&Vec::new(), &chars_of("2024-01-01")).is_none());
}
