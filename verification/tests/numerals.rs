use timestamp_converter::text::{
    char_of_digit, chars_of, decimal_of, digit_of, parse_i64, same_text, string_of,
};

fn parse(text: &str) -> Option<i64> {
    parse_i64(&chars_of(text))
}

fn print(value: i64) -> String {
    string_of(&decimal_of(value))
}

#[test]
fn digits_and_their_values() {
    for (value, c) in "0123456789".chars().enumerate() {
        assert_eq!(digit_of(c), Some(value as u32));
        assert_eq!(char_of_digit(value as u32), c);
    }
    assert_eq!(digit_of('a'), None);
    assert_eq!(digit_of('/'), None);
    assert_eq!(digit_of(':'), None);
    assert_eq!(digit_of('\u{0663}'), None);
    assert_eq!(char_of_digit(10), '9');
}

#[test]
fn strings_and_characters() {
    assert_eq!(chars_of("a-b"), vec!['a', '-', 'b']);
    assert_eq!(chars_of(""), Vec::<char>::new());
    assert_eq!(chars_of("\u{e9}t\u{e9}"), vec!['\u{e9}', 't', '\u{e9}']);
    assert_eq!(string_of(&vec!['1', '2', '3']), "123");
    assert_eq!(string_of(&Vec::new()), "");
    assert!(same_text("seconds", "seconds"));
    assert!(!same_text("seconds", "Seconds"));
    assert!(!same_text("seconds", "second"));
    assert!(same_text("", ""));
}

#[test]
fn numerals_are_read() {
    assert_eq!(parse("0"), Some(0));
    assert_eq!(parse("-0"), Some(0));
    assert_eq!(parse("+17"), Some(17));
    assert_eq!(parse("0042"), Some(42));
    assert_eq!(parse("-1704110400"), Some(-1704110400));
    assert_eq!(parse("9223372036854775807"), Some(i64::MAX));
    assert_eq!(parse("-9223372036854775808"), Some(i64::MIN));
    assert_eq!(parse("00000000000000000000000000001"), Some(1));
}

#[test]
fn what_is_no_numeral_is_refused() {
    assert_eq!(parse(""), None);
    assert_eq!(parse("-"), None);
    assert_eq!(parse("+"), None);
    assert_eq!(parse("--1"), None);
    assert_eq!(parse("1-"), None);
    assert_eq!(parse("1 "), None);
    assert_eq!(parse(" 1"), None);
    assert_eq!(parse("1_000"), None);
    assert_eq!(parse("12.0"), None);
    assert_eq!(parse("\u{0661}\u{0662}"), None);
    assert_eq!(parse("9223372036854775808"), None);
    assert_eq!(parse("-9223372036854775809"), None);
    assert_eq!(parse("99999999999999999999"), None);
    assert_eq!(parse("99999999999999999999x"), None);
}

#[test]
fn numerals_are_written() {
    assert_eq!(print(0), "0");
    assert_eq!(print(7), "7");
    assert_eq!(print(10), "10");
    assert_eq!(print(-1), "-1");
    assert_eq!(print(1704110400000), "1704110400000");
    assert_eq!(print(i64::MAX), "9223372036854775807");
    assert_eq!(print(i64::MIN), "-9223372036854775808");
}

#[test]
fn a_written_numeral_is_read_back() {
    for value in [0, 1, -1, 9, 10, -10, 99, 100, 12345, -98765, i64::MAX, i64::MIN, i64::MAX - 1] {
        assert_eq!(parse(&print(value)), Some(value));
        assert_eq!(print(value), value.to_string());
    }
}
