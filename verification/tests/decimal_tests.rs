use rat_engine::decimal::fmt_decimal;
use rat_engine::decimal::parse_decimal;
use rat_engine::decimal::parse_vec2;
use rat_engine::decimal::parse_vec3;
use rat_engine::decimal::Decimal;
use rat_engine::text::fmt_u64;
use rat_engine::text::parse_i32;
use rat_engine::text::trim;

fn dec(neg: bool, mantissa: u64, scale: u32) -> Decimal {
    Decimal { neg, mantissa, scale }
}

#[test]
fn parse_decimal_plain_forms() {
    assert_eq!(parse_decimal("12.5"), Some(dec(false, 125, 1)));
    assert_eq!(parse_decimal("-0.25"), Some(dec(true, 25, 2)));
    assert_eq!(parse_decimal("+3"), Some(dec(false, 3, 0)));
    assert_eq!(parse_decimal(".5"), Some(dec(false, 5, 1)));
    assert_eq!(parse_decimal("12."), Some(dec(false, 12, 0)));
    assert_eq!(parse_decimal("0"), Some(dec(false, 0, 0)));
}

#[test]
fn parse_decimal_rejections() {
    assert_eq!(parse_decimal(""), None);
    assert_eq!(parse_decimal("."), None);
    assert_eq!(parse_decimal("-"), None);
    assert_eq!(parse_decimal("1.2.3"), None);
    assert_eq!(parse_decimal("1e5"), None);
    assert_eq!(parse_decimal(" 1"), None);
    // twenty digits outgrow the mantissa
    assert_eq!(parse_decimal("99999999999999999999"), None);
    // the largest mantissa still fits
    assert_eq!(
        parse_decimal("18446744073709551615"),
        Some(dec(false, u64::MAX, 0))
    );
}

#[test]
fn fmt_decimal_renders_exactly() {
    assert_eq!(fmt_decimal(&dec(false, 125, 1)), "12.5");
    assert_eq!(fmt_decimal(&dec(true, 25, 2)), "-0.25");
    assert_eq!(fmt_decimal(&dec(false, 5, 3)), "0.005");
    assert_eq!(fmt_decimal(&dec(false, 7, 0)), "7");
    assert_eq!(fmt_decimal(&dec(true, 0, 0)), "-0");
    assert_eq!(fmt_decimal(&dec(false, 1500, 2)), "15.00");
}

#[test]
fn parse_i32_range_and_signs() {
    assert_eq!(parse_i32("0"), Some(0));
    assert_eq!(parse_i32("-42"), Some(-42));
    assert_eq!(parse_i32("+42"), Some(42));
    assert_eq!(parse_i32("2147483647"), Some(i32::MAX));
    assert_eq!(parse_i32("-2147483648"), Some(i32::MIN));
    assert_eq!(parse_i32("2147483648"), None);
    assert_eq!(parse_i32("-2147483649"), None);
    assert_eq!(parse_i32("99999999999999999999999"), None);
    assert_eq!(parse_i32(""), None);
    assert_eq!(parse_i32("-"), None);
    assert_eq!(parse_i32("12a"), None);
    assert_eq!(parse_i32(" 1"), None);
}

#[test]
fn fmt_u64_renders_decimal() {
    assert_eq!(fmt_u64(0), "0");
    assert_eq!(fmt_u64(7), "7");
    assert_eq!(fmt_u64(120), "120");
    assert_eq!(fmt_u64(u64::MAX), "18446744073709551615");
}

#[test]
fn trim_strips_both_ends() {
    assert_eq!(trim("  a b \t"), "a b");
    assert_eq!(trim(""), "");
    assert_eq!(trim(" \t "), "");
    assert_eq!(trim("x"), "x");
}

#[test]
fn parse_vec_components() {
    let v = parse_vec2("1.5,-2").unwrap();
    assert_eq!(v.x, dec(false, 15, 1));
    assert_eq!(v.y, dec(true, 2, 0));
    assert_eq!(parse_vec2("1"), None);
    assert_eq!(parse_vec2("1,"), None);
    let w = parse_vec3("1,2,3").unwrap();
    assert_eq!(w.y, dec(false, 2, 0));
    assert_eq!(parse_vec3("1,2"), None);
}
