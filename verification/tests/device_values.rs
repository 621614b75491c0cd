use ambient_brightness::device_value::parse_value;

#[test]
fn plain_numbers_parse() {
    assert_eq!(parse_value(b"0"), Some(0));
    assert_eq!(parse_value(b"96000"), Some(96_000));
    assert_eq!(parse_value(b"007"), Some(7));
    assert_eq!(parse_value(b"4294967295"), Some(u32::MAX));
}

#[test]
fn surrounding_whitespace_is_ignored() {
    // A sysfs attribute ends in a newline.
    assert_eq!(parse_value(b"19200\n"), Some(19_200));
    assert_eq!(parse_value(b"  42\t\r\n"), Some(42));
}

#[test]
fn malformed_values_parse_to_nothing() {
    assert_eq!(parse_value(b""), None);
    assert_eq!(parse_value(b"   \n"), None);
    assert_eq!(parse_value(b"12a3"), None);
    assert_eq!(parse_value(b"-5"), None);
    assert_eq!(parse_value(b"12 34"), None);
}

#[test]
fn numbers_past_the_type_are_rejected() {
    assert_eq!(parse_value(b"4294967296"), None);
    assert_eq!(parse_value(b"999999999999999999999"), None);
}
