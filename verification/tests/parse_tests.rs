use initiative_tracker::parse::parse_i32;

#[test]
fn parses_zero() {
    assert_eq!(parse_i32("0"), Some(0));
}

#[test]
fn parses_positive() {
    assert_eq!(parse_i32("15"), Some(15));
}

#[test]
fn parses_negative() {
    assert_eq!(parse_i32("-5"), Some(-5));
}

#[test]
fn parses_leading_zeros() {
    assert_eq!(parse_i32("007"), Some(7));
}

#[test]
fn parses_i32_max() {
    assert_eq!(parse_i32("2147483647"), Some(i32::MAX));
}

#[test]
fn rejects_above_i32_max() {
    assert_eq!(parse_i32("2147483648"), None);
}

#[test]
fn parses_i32_min() {
    assert_eq!(parse_i32("-2147483648"), Some(i32::MIN));
}

#[test]
fn rejects_below_i32_min() {
    assert_eq!(parse_i32("-2147483649"), None);
}

#[test]
fn rejects_far_too_long_numeral() {
    assert_eq!(parse_i32("99999999999999999999"), None);
}

#[test]
fn rejects_empty() {
    assert_eq!(parse_i32(""), None);
}

#[test]
fn rejects_bare_minus() {
    assert_eq!(parse_i32("-"), None);
}

#[test]
fn rejects_plus_sign() {
    assert_eq!(parse_i32("+5"), None);
}

#[test]
fn rejects_trailing_letter() {
    assert_eq!(parse_i32("1a"), None);
}

#[test]
fn rejects_letters() {
    assert_eq!(parse_i32("abc"), None);
}

#[test]
fn rejects_inner_minus() {
    assert_eq!(parse_i32("1-2"), None);
}
