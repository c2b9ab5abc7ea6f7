use counter_tui::num::{i32_to_string, parse_amount};

#[test]
fn parse_plain_numbers() {
    assert_eq!(parse_amount("0"), 0);
    assert_eq!(parse_amount("1"), 1);
    assert_eq!(parse_amount("42"), 42);
    assert_eq!(parse_amount("007"), 7);
    assert_eq!(parse_amount("2147483647"), 2147483647);
}

#[test]
fn parse_negative_numbers() {
    assert_eq!(parse_amount("-7"), -7);
    assert_eq!(parse_amount("-0"), 0);
    assert_eq!(parse_amount("-2147483648"), -2147483648);
}

#[test]
fn parse_plus_prefixed_numbers() {
    assert_eq!(parse_amount("+5"), 5);
    assert_eq!(parse_amount("+0"), 0);
    assert_eq!(parse_amount("+2147483647"), 2147483647);
    assert_eq!(parse_amount("+2147483648"), 1);
    assert_eq!(parse_amount("+"), 1);
    assert_eq!(parse_amount("++5"), 1);
    assert_eq!(parse_amount("+-5"), 1);
}

#[test]
fn parse_defaults_to_one() {
    assert_eq!(parse_amount(""), 1);
    assert_eq!(parse_amount("-"), 1);
    assert_eq!(parse_amount("abc"), 1);
    assert_eq!(parse_amount("12x"), 1);
    assert_eq!(parse_amount("x12"), 1);
    assert_eq!(parse_amount(" 12"), 1);
    assert_eq!(parse_amount("1 2"), 1);
}

#[test]
fn parse_defaults_to_one_out_of_range() {
    assert_eq!(parse_amount("2147483648"), 1);
    assert_eq!(parse_amount("-2147483649"), 1);
    assert_eq!(parse_amount("99999999999999999999"), 1);
}

#[test]
fn render_decimal() {
    assert_eq!(i32_to_string(0), "0");
    assert_eq!(i32_to_string(7), "7");
    assert_eq!(i32_to_string(123), "123");
    assert_eq!(i32_to_string(-123), "-123");
    assert_eq!(i32_to_string(2147483647), "2147483647");
    assert_eq!(i32_to_string(-2147483648), "-2147483648");
}

#[test]
fn parse_render_round_trip() {
    for v in [0, 1, -1, 5, 99, -100, 2147483647, -2147483648] {
        assert_eq!(parse_amount(&i32_to_string(v)), v);
    }
}
