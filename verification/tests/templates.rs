use timestamp_converter::instant::{Fields, Instant, MAX_MILLIS, MIN_MILLIS};
use timestamp_converter::registry::{auto_detect_order, parse_templates, render_template, FormatName};
use timestamp_converter::render::write_template;
use timestamp_converter::scan::read_template;
use timestamp_converter::template::Item;
use timestamp_converter::text::{chars_of, string_of};

const ALL: [FormatName; 6] = [
    FormatName::LocalReadable,
    FormatName::UtcReadable,
    FormatName::Rfc3339,
    FormatName::Iso8601Basic,
    FormatName::Iso8601Extended,
    FormatName::Rfc2822,
];

fn fields(year: u32, month: u32, day: u32, hour: u32, minute: u32, second: u32, milli: u32) -> Fields {
    Fields { year, month, day, hour, minute, second, milli, offset_minutes: 0, weekday: None }
}

fn written(name: FormatName, f: &Fields) -> String {
    string_of(&write_template(&render_template(name), f))
}

#[test]
fn instants_keep_to_the_calendar() {
    assert_eq!(MIN_MILLIS, -62167219200000);
    assert_eq!(MAX_MILLIS, 253402300799999);
    assert!(Instant::from_millis(MIN_MILLIS).is_some());
    assert!(Instant::from_millis(MAX_MILLIS).is_some());
    assert!(Instant::from_millis(MIN_MILLIS - 1).is_none());
    assert!(Instant::from_millis(MAX_MILLIS + 1).is_none());
    assert_eq!(Instant::from_millis(1234).unwrap().millis(), 1234);
}

#[test]
fn fields_of_an_instant() {
    let f = Instant::from_millis(1720085415250).unwrap().fields();
    assert_eq!((f.year, f.month, f.day), (2024, 7, 4));
    assert_eq!((f.hour, f.minute, f.second, f.milli), (9, 30, 15, 250));
    assert_eq!(f.offset_minutes, 0);
    assert_eq!(f.weekday, Some(3));
    let f = Instant::from_millis(-1).unwrap().fields();
    assert_eq!((f.year, f.month, f.day), (1969, 12, 31));
    assert_eq!((f.hour, f.minute, f.second, f.milli), (23, 59, 59, 999));
    assert_eq!(f.weekday, Some(2));
    let f = Instant::from_millis(MIN_MILLIS).unwrap().fields();
    assert_eq!((f.year, f.month, f.day, f.hour, f.milli), (0, 1, 1, 0, 0));
    let f = Instant::from_millis(MAX_MILLIS).unwrap().fields();
    assert_eq!((f.year, f.month, f.day), (9999, 12, 31));
    assert_eq!((f.hour, f.minute, f.second, f.milli), (23, 59, 59, 999));
}

#[test]
fn instant_of_fields() {
    let at = |f: Fields| Instant::from_fields(&f).map(|t| t.millis());
    assert_eq!(at(fields(2024, 7, 4, 9, 30, 15, 250)), Some(1720085415250));
    assert_eq!(at(fields(1969, 7, 20, 20, 17, 40, 0)), Some(-14182940000));
    assert_eq!(at(Fields { offset_minutes: -300, ..fields(2024, 1, 1, 7, 0, 0, 0) }), Some(1704110400000));
    assert_eq!(at(Fields { offset_minutes: 330, ..fields(2024, 1, 1, 17, 30, 0, 0) }), Some(1704110400000));
    assert_eq!(at(Fields { weekday: Some(0), ..fields(2024, 1, 1, 0, 0, 0, 0) }), Some(1704067200000));
    assert_eq!(at(Fields { weekday: Some(1), ..fields(2024, 1, 1, 0, 0, 0, 0) }), None);
    assert_eq!(at(fields(2023, 2, 29, 0, 0, 0, 0)), None);
    assert_eq!(at(fields(2024, 1, 1, 24, 0, 0, 0)), None);
    assert_eq!(at(fields(2024, 1, 1, 0, 60, 0, 0)), None);
    assert_eq!(at(fields(2024, 1, 1, 0, 0, 60, 0)), None);
    assert_eq!(at(fields(2024, 1, 1, 0, 0, 0, 1000)), None);
    assert_eq!(at(Fields { offset_minutes: 1440, ..fields(2024, 1, 1, 0, 0, 0, 0) }), None);
    assert_eq!(at(Fields { offset_minutes: -1440, ..fields(2024, 1, 1, 0, 0, 0, 0) }), None);
    // an offset that leads out of the calendar
    assert_eq!(at(Fields { offset_minutes: 60, ..fields(0, 1, 1, 0, 0, 0, 0) }), None);
    assert_eq!(at(Fields { offset_minutes: -60, ..fields(9999, 12, 31, 23, 30, 0, 0) }), None);
}

#[test]
fn instants_shift_within_the_calendar() {
    let t = Instant::from_millis(1704110400000).unwrap();
    assert_eq!(t.shifted(3600).map(|t| t.millis()), Some(1704114000000));
    assert_eq!(t.shifted(-1).map(|t| t.millis()), Some(1704110399000));
    assert!(Instant::from_millis(MAX_MILLIS).unwrap().shifted(1).is_none());
    assert!(Instant::from_millis(MIN_MILLIS).unwrap().shifted(-1).is_none());
    assert!(Instant::from_millis(MIN_MILLIS).unwrap().shifted(i32::MIN).is_none());
}

#[test]
fn each_format_has_one_canonical_template() {
    let f = Fields { weekday: Some(3), ..fields(2024, 7, 4, 9, 30, 15, 250) };
    assert_eq!(written(FormatName::LocalReadable, &f), "2024-07-04 09:30:15");
    assert_eq!(written(FormatName::UtcReadable, &f), "2024-07-04 09:30:15 UTC");
    assert_eq!(written(FormatName::Rfc3339, &f), "2024-07-04T09:30:15+00:00");
    assert_eq!(written(FormatName::Iso8601Basic, &f), "20240704T093015Z");
    assert_eq!(written(FormatName::Iso8601Extended, &f), "2024-07-04T09:30:15.250Z");
    assert_eq!(written(FormatName::Rfc2822, &f), "Thu, 04 Jul 2024 09:30:15 +0000");
}

#[test]
fn small_values_are_padded_with_zeros() {
    let f = Fields { weekday: Some(5), ..fields(7, 1, 2, 3, 4, 5, 6) };
    assert_eq!(written(FormatName::Iso8601Extended, &f), "0007-01-02T03:04:05.006Z");
    assert_eq!(written(FormatName::Rfc2822, &f), "Sat, 02 Jan 0007 03:04:05 +0000");
}

#[test]
fn offsets_are_written_with_their_sign() {
    let template = vec![Item::Offset, Item::Lit(' '), Item::OffsetBasic];
    let text = |offset_minutes: i32| {
        let f = Fields { offset_minutes, ..fields(2024, 1, 1, 0, 0, 0, 0) };
        string_of(&write_template(&template, &f))
    };
    assert_eq!(text(0), "+00:00 +0000");
    assert_eq!(text(330), "+05:30 +0530");
    assert_eq!(text(-300), "-05:00 -0500");
    assert_eq!(text(-1), "-00:01 -0001");
    assert_eq!(text(1439), "+23:59 +2359");
}

#[test]
fn names_of_days_and_months_are_written() {
    let template = vec![Item::WeekdayName, Item::Lit(' '), Item::MonthName];
    let names = ["Mon", "Tue", "Wed", "Thu", "Fri", "Sat", "Sun"];
    let months = ["Jan", "Feb", "Mar", "Apr", "May", "Jun", "Jul", "Aug", "Sep", "Oct", "Nov", "Dec"];
    for w in 0..7u32 {
        for m in 1..=12u32 {
            let f = Fields { weekday: Some(w), ..fields(2024, m, 1, 0, 0, 0, 0) };
            let expected = format!("{} {}", names[w as usize], months[(m - 1) as usize]);
            assert_eq!(string_of(&write_template(&template, &f)), expected);
            let back = read_template(&template, &chars_of(&expected)).unwrap();
            assert_eq!((back.weekday, back.month), (Some(w), m));
        }
    }
    let f = Fields { weekday: None, ..fields(2024, 13, 1, 0, 0, 0, 0) };
    assert_eq!(string_of(&write_template(&template, &f)), "??? ???");
}

#[test]
fn a_template_reads_fields() {
    let read = |name: FormatName, text: &str| read_template(&render_template(name), &chars_of(text));
    let f = read(FormatName::Rfc3339, "2024-07-04T09:30:15+05:30").unwrap();
    assert_eq!((f.year, f.month, f.day, f.hour, f.minute, f.second), (2024, 7, 4, 9, 30, 15));
    assert_eq!((f.milli, f.offset_minutes, f.weekday), (0, 330, None));
    let f = read(FormatName::Rfc3339, "2024-07-04T09:30:15-00:45").unwrap();
    assert_eq!(f.offset_minutes, -45);
    let f = read(FormatName::Rfc3339, "2024-07-04T09:30:15Z").unwrap();
    assert_eq!(f.offset_minutes, 0);
    let f = read(FormatName::Rfc2822, "Thu, 04 Jul 2024 09:30:15 -0700").unwrap();
    assert_eq!((f.year, f.month, f.day, f.weekday, f.offset_minutes), (2024, 7, 4, Some(3), -420));
    let f = read(FormatName::Iso8601Extended, "2024-07-04T09:30:15.250Z").unwrap();
    assert_eq!(f.milli, 250);
    // a template reads what stands there, valid or not
    let f = read(FormatName::LocalReadable, "2024-13-45 25:61:61").unwrap();
    assert_eq!((f.month, f.day, f.hour, f.minute, f.second), (13, 45, 25, 61, 61));
}

#[test]
fn a_template_refuses_what_does_not_fit() {
    let read = |name: FormatName, text: &str| read_template(&render_template(name), &chars_of(text));
    assert!(read(FormatName::Rfc3339, "2024-07-04T09:30:15").is_none());
    assert!(read(FormatName::Rfc3339, "2024-07-04T09:30:15+0530").is_none());
    assert!(read(FormatName::Rfc3339, "2024-07-04T09:30:15+05:60").is_none());
    assert!(read(FormatName::Rfc3339, "2024-07-04T09:30:15z").is_none());
    assert!(read(FormatName::Rfc3339, "2024-07-04t09:30:15Z").is_none());
    assert!(read(FormatName::Rfc3339, "2024-07-04T09:30:15ZZ").is_none());
    assert!(read(FormatName::Rfc3339, "2024-7-4T09:30:15Z").is_none());
    assert!(read(FormatName::Rfc3339, "").is_none());
    assert!(read(FormatName::Rfc2822, "thu, 04 Jul 2024 09:30:15 +0000").is_none());
    assert!(read(FormatName::Rfc2822, "Thu, 04 jul 2024 09:30:15 +0000").is_none());
    assert!(read(FormatName::Rfc2822, "Thu, 04 Jul 2024 09:30:15 +00:00").is_none());
    assert!(read(FormatName::Rfc2822, "Thu, 04 Jul 2024 09:30:15 Z").is_none());
    assert!(read(FormatName::Iso8601Basic, "20240704T093015").is_none());
    assert!(read(FormatName::Iso8601Extended, "2024-07-04T09:30:15Z").is_none());
    assert!(read(FormatName::Iso8601Extended, "2024-07-04T09:30:15.Z").is_none());
    assert!(read(FormatName::UtcReadable, "2024-07-04 09:30:15 utc").is_none());
    assert!(read(FormatName::UtcReadable, "2024-07-04 09:30:15").is_none());
    assert!(read(FormatName::LocalReadable, "2024-07-04 09:30:15 ").is_none());
    assert!(read(FormatName::LocalReadable, "\u{0662}024-07-04 09:30:15").is_none());
}

#[test]
fn a_fraction_is_one_to_nine_digits() {
    let template = vec![Item::Second, Item::Fraction];
    let milli = |text: &str| read_template(&template, &chars_of(text)).map(|f| f.milli);
    assert_eq!(milli("00.1"), Some(100));
    assert_eq!(milli("00.12"), Some(120));
    assert_eq!(milli("00.123"), Some(123));
    assert_eq!(milli("00.1239"), Some(123));
    assert_eq!(milli("00.000000001"), Some(0));
    assert_eq!(milli("00.999999999"), Some(999));
    assert_eq!(milli("00.007"), Some(7));
    assert_eq!(milli("00."), None);
    assert_eq!(milli("00"), None);
    assert_eq!(milli("00,5"), None);
    assert_eq!(milli("00.1234567890"), None);
    assert_eq!(milli("00.12a"), None);
}

#[test]
fn parse_lists_try_the_fraction_first() {
    assert_eq!(parse_templates(FormatName::LocalReadable).len(), 4);
    assert_eq!(parse_templates(FormatName::UtcReadable).len(), 4);
    assert_eq!(parse_templates(FormatName::Rfc3339).len(), 2);
    assert_eq!(parse_templates(FormatName::Iso8601Basic).len(), 4);
    assert_eq!(parse_templates(FormatName::Iso8601Extended).len(), 4);
    assert_eq!(parse_templates(FormatName::Rfc2822).len(), 2);
    for name in ALL {
        let list = parse_templates(name);
        assert!(!list.is_empty());
        let first_has_fraction = list[0].iter().any(|item| matches!(item, Item::Fraction));
        assert_eq!(first_has_fraction, name != FormatName::Rfc2822);
        let canonical = format!("{:?}", render_template(name));
        assert!(list.iter().any(|t| format!("{:?}", t) == canonical));
    }
}

#[test]
fn iso8601_basic_has_its_four_variants() {
    let list = parse_templates(FormatName::Iso8601Basic);
    let reads = |i: usize, text: &str| read_template(&list[i], &chars_of(text)).is_some();
    let texts = ["20240704T093015.5Z", "20240704T093015Z", "20240704T093015.5", "20240704T093015"];
    for i in 0..4 {
        for (j, text) in texts.iter().enumerate() {
            assert_eq!(reads(i, text), i == j);
        }
    }
}

#[test]
fn detection_order_is_fixed() {
    let order = auto_detect_order();
    assert_eq!(order.len(), 26);
    let mut expected = Vec::new();
    for name in [
        FormatName::Rfc3339,
        FormatName::Iso8601Extended,
        FormatName::Iso8601Basic,
        FormatName::Rfc2822,
        FormatName::UtcReadable,
        FormatName::LocalReadable,
    ] {
        expected.extend(parse_templates(name));
    }
    for (i, template) in expected.iter().enumerate() {
        assert_eq!(format!("{:?}", order[i]), format!("{:?}", template));
    }
    let us = "[Month, Lit('/'), Day, Lit('/'), Year]";
    let european = "[Day, Lit('/'), Month, Lit('/'), Year]";
    assert_eq!(format!("{:?}", order[23]), us);
    assert_eq!(format!("{:?}", order[25]), european);
    assert_eq!(format!("{:?}", order[21]), "[Year, Lit('/'), Month, Lit('/'), Day]");
}

#[test]
fn format_names_are_literal() {
    let names = ["local-readable", "utc-readable", "rfc3339", "iso8601-basic", "iso8601-extended", "rfc2822"];
    for (name, text) in ALL.iter().zip(names) {
        assert_eq!(name.name(), text);
        assert_eq!(FormatName::from_name(text), Some(*name));
    }
    assert_eq!(FormatName::from_name("RFC3339"), None);
    assert_eq!(FormatName::from_name("rfc3339 "), None);
    assert_eq!(FormatName::from_name(""), None);
    assert_eq!(FormatName::from_name("iso8601"), None);
}
