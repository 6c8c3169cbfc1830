use platypus::record::{format_record, parse_record, parse_u64, u64_to_string};

#[test]
fn renders_small_numbers() {
    assert_eq!(u64_to_string(0), "0");
    assert_eq!(u64_to_string(7), "7");
    assert_eq!(u64_to_string(10), "10");
    assert_eq!(u64_to_string(12345), "12345");
}

#[test]
fn renders_largest_number() {
    assert_eq!(u64_to_string(u64::MAX), "18446744073709551615");
}

#[test]
fn reads_numbers_back() {
    assert_eq!(parse_u64("0"), Some(0));
    assert_eq!(parse_u64("00042"), Some(42));
    assert_eq!(parse_u64("12345"), Some(12345));
    assert_eq!(parse_u64("18446744073709551615"), Some(u64::MAX));
}

#[test]
fn rejects_non_numbers() {
    assert_eq!(parse_u64(""), None);
    assert_eq!(parse_u64("12a"), None);
    assert_eq!(parse_u64("-5"), None);
    assert_eq!(parse_u64(" 12"), None);
}

#[test]
fn rejects_overflowing_numbers() {
    assert_eq!(parse_u64("18446744073709551616"), None);
    assert_eq!(parse_u64("99999999999999999999999"), None);
}

#[test]
fn formats_one_record_line() {
    let line = format_record("2024-05-06 07:08:09.123 +02:00", 42);
    assert_eq!(line, "2024-05-06 07:08:09.123 +02:00: 42\n");
}

#[test]
fn record_line_round_trips() {
    let line = format_record("2024-05-06 07:08:09.123 +02:00", 987654321);
    let parsed = parse_record(line.as_str()).unwrap();
    assert_eq!(parsed.0, "2024-05-06 07:08:09.123 +02:00");
    assert_eq!(parsed.1, 987654321);
}

#[test]
fn round_trip_survives_separators_in_the_timestamp() {
    let line = format_record("a: b", 99);
    assert_eq!(line, "a: b: 99\n");
    let parsed = parse_record(line.as_str()).unwrap();
    assert_eq!(parsed.0, "a: b");
    assert_eq!(parsed.1, 99);
}

#[test]
fn refuses_malformed_lines() {
    assert_eq!(parse_record(""), None);
    assert_eq!(parse_record("no newline"), None);
    assert_eq!(parse_record("no separator\n"), None);
    assert_eq!(parse_record("x: 12a\n"), None);
    assert_eq!(parse_record("x: \n"), None);
    assert_eq!(parse_record("x: 18446744073709551616\n"), None);
}
