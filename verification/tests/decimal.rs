use tailwind_palette::decimal::{parse_decimal, push_fixed, push_nat, render_decimal};

#[test]
fn whole_numbers_are_read() {
    assert_eq!(parse_decimal("0"), Some(0));
    assert_eq!(parse_decimal("240"), Some(240_000_000_000_000));
    assert_eq!(parse_decimal("007"), Some(7_000_000_000_000));
    assert_eq!(parse_decimal("999999"), Some(999_999_000_000_000_000));
}

#[test]
fn fractions_are_read_to_twelve_digits() {
    assert_eq!(parse_decimal("0.5"), Some(500_000_000_000));
    assert_eq!(parse_decimal("217.21518987341773"), Some(217_215_189_873_417));
    assert_eq!(parse_decimal("0.000000000001"), Some(1));
    assert_eq!(parse_decimal("0.0000000000019"), Some(1));
    assert_eq!(parse_decimal("0.0000000000009"), Some(0));
    assert_eq!(parse_decimal("1.000000000000"), Some(1_000_000_000_000));
}

#[test]
fn negative_numbers_are_read() {
    assert_eq!(parse_decimal("-0"), Some(0));
    assert_eq!(parse_decimal("-30.11764705882353"), Some(-30_117_647_058_823));
    assert_eq!(parse_decimal("-0.25"), Some(-250_000_000_000));
}

#[test]
fn text_that_is_no_decimal_number_is_refused() {
    for text in ["", "-", ".", ".5", "5.", "+5", "1e5", "NaN", "inf", "-inf", "1,5", " 1", "1 ",
        "1.2.3", "--1", "1-", "0x10", "١"]
    {
        assert_eq!(parse_decimal(text), None, "{:?}", text);
    }
}

#[test]
fn whole_part_has_a_limit() {
    assert_eq!(parse_decimal("1000000"), None);
    assert_eq!(parse_decimal("-1000000.5"), None);
    assert_eq!(parse_decimal("340282366920938463463374607431768211456"), None);
    assert_eq!(parse_decimal("0000000999999.5"), Some(999_999_500_000_000_000));
}

#[test]
fn numbers_are_written_with_twelve_fraction_digits() {
    assert_eq!(render_decimal(0), "0.000000000000");
    assert_eq!(render_decimal(1), "0.000000000001");
    assert_eq!(render_decimal(-1), "-0.000000000001");
    assert_eq!(render_decimal(500_000_000_000), "0.500000000000");
    assert_eq!(render_decimal(359_999_999_999_999), "359.999999999999");
    assert_eq!(render_decimal(-1_500_000_000_000), "-1.500000000000");
    assert_eq!(
        render_decimal(i128::MAX),
        "170141183460469231731687303.715884105727"
    );
    assert_eq!(
        render_decimal(i128::MIN),
        "-170141183460469231731687303.715884105728"
    );
}

#[test]
fn written_numbers_read_back() {
    for units in [0i128, 1, -1, 12, 999_999_999_999, 1_000_000_000_000, -359_123_456_789_012,
        999_999_999_999_999_999]
    {
        assert_eq!(parse_decimal(&render_decimal(units)), Some(units));
    }
}

#[test]
fn digits_are_appended() {
    let mut out = String::from("x");
    push_nat(&mut out, 0);
    push_nat(&mut out, 1050);
    push_fixed(&mut out, 42, 4);
    push_fixed(&mut out, 123456, 3);
    push_fixed(&mut out, 7, 0);
    assert_eq!(out, "x010500042456");
    let mut big = String::new();
    push_nat(&mut big, u128::MAX);
    assert_eq!(big, "340282366920938463463374607431768211455");
}
