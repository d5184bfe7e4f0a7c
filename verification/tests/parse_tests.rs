use minishell::parse::parse_i32;

#[test]
fn parses_plain_digits() {
    assert_eq!(parse_i32("3"), Some(3));
    assert_eq!(parse_i32("0"), Some(0));
    assert_eq!(parse_i32("42"), Some(42));
}

#[test]
fn parses_signed_values() {
    assert_eq!(parse_i32("-5"), Some(-5));
    assert_eq!(parse_i32("+7"), Some(7));
    assert_eq!(parse_i32("-0"), Some(0));
}

#[test]
fn parses_leading_zeros() {
    assert_eq!(parse_i32("007"), Some(7));
}

#[test]
fn parses_extreme_values() {
    assert_eq!(parse_i32("2147483647"), Some(i32::MAX));
    assert_eq!(parse_i32("-2147483648"), Some(i32::MIN));
}

#[test]
fn rejects_out_of_range_values() {
    assert_eq!(parse_i32("2147483648"), None);
    assert_eq!(parse_i32("-2147483649"), None);
    assert_eq!(parse_i32("99999999999999999999"), None);
}

#[test]
fn rejects_malformed_input() {
    assert_eq!(parse_i32(""), None);
    assert_eq!(parse_i32("-"), None);
    assert_eq!(parse_i32("+"), None);
    assert_eq!(parse_i32("abc"), None);
    assert_eq!(parse_i32("1 2"), None);
    assert_eq!(parse_i32(" 3"), None);
    assert_eq!(parse_i32("3x"), None);
    assert_eq!(parse_i32("--4"), None);
}
