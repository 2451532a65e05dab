use css_image::number::{
    digit_of, parse_decimal, parse_integer, parse_pixel_decimal, parse_pixels, without_unit,
    Decimal,
};

fn chars(text: &str) -> Vec<char> {
    text.chars().collect()
}

fn unit(text: &str) -> Option<String> {
    without_unit(&chars(text)).map(|number| number.into_iter().collect())
}

#[test]
fn integers() {
    assert_eq!(parse_integer(&chars("0")), Some(0));
    assert_eq!(parse_integer(&chars("100")), Some(100));
    assert_eq!(parse_integer(&chars("+7")), Some(7));
    assert_eq!(parse_integer(&chars("-7")), Some(-7));
    assert_eq!(parse_integer(&chars("007")), Some(7));
    assert_eq!(parse_integer(&chars("-0")), Some(0));
}

#[test]
fn integers_agree_with_the_standard_library() {
    for text in [
        "", "+", "-", "1", "-1", "+1", "12a", "a12", " 1", "1 ", "--1", "+-1", "1.0", "١٢",
        "2147483647", "2147483648", "-2147483648", "-2147483649", "99999999999999999999",
        "0000000000000000000001",
    ] {
        assert_eq!(parse_integer(&chars(text)), text.parse::<i32>().ok(), "{:?}", text);
    }
}

#[test]
fn integer_limits() {
    assert_eq!(parse_integer(&chars("2147483647")), Some(i32::MAX));
    assert_eq!(parse_integer(&chars("2147483648")), None);
    assert_eq!(parse_integer(&chars("-2147483648")), Some(i32::MIN));
    assert_eq!(parse_integer(&chars("-2147483649")), None);
}

#[test]
fn decimals() {
    assert_eq!(parse_decimal(&chars("12")), Some(Decimal { micros: 12_000_000 }));
    assert_eq!(parse_decimal(&chars("12.5")), Some(Decimal { micros: 12_500_000 }));
    assert_eq!(parse_decimal(&chars("-0.25")), Some(Decimal { micros: -250_000 }));
    assert_eq!(parse_decimal(&chars("+3.000001")), Some(Decimal { micros: 3_000_001 }));
    assert_eq!(parse_decimal(&chars(".5")), Some(Decimal { micros: 500_000 }));
    assert_eq!(parse_decimal(&chars("5.")), Some(Decimal { micros: 5_000_000 }));
    assert_eq!(parse_decimal(&chars("0")), Some(Decimal { micros: 0 }));
}

#[test]
fn decimals_keep_six_places() {
    assert_eq!(parse_decimal(&chars("0.1234567")), Some(Decimal { micros: 123_456 }));
    assert_eq!(parse_decimal(&chars("0.9999999")), Some(Decimal { micros: 999_999 }));
    assert_eq!(parse_decimal(&chars("-1.0000009")), Some(Decimal { micros: -1_000_000 }));
    assert_eq!(parse_decimal(&chars("0.1234567x")), None);
}

#[test]
fn malformed_decimals() {
    for text in ["", "+", "-", ".", "+.", "1.2.3", "1e3", "inf", "nan", "1,5", " 1", "1 ", "--1", "1-"] {
        assert_eq!(parse_decimal(&chars(text)), None, "{:?}", text);
    }
}

#[test]
fn decimal_limits() {
    assert_eq!(
        parse_decimal(&chars("9223372036854.775807")),
        Some(Decimal { micros: i64::MAX })
    );
    assert_eq!(parse_decimal(&chars("9223372036854.775808")), None);
    assert_eq!(
        parse_decimal(&chars("-9223372036854.775808")),
        Some(Decimal { micros: i64::MIN })
    );
    assert_eq!(parse_decimal(&chars("-9223372036854.775809")), None);
    assert_eq!(parse_decimal(&chars("9223372036855")), None);
    assert_eq!(parse_decimal(&chars("99999999999999999999999999")), None);
}

#[test]
fn whole_decimals() {
    assert_eq!(Decimal::from_units(16), Decimal { micros: 16_000_000 });
    assert_eq!(Decimal::from_units(-3), Decimal { micros: -3_000_000 });
    assert_eq!(Decimal::from_units(i32::MAX), Decimal { micros: 2_147_483_647_000_000 });
}

#[test]
fn pixel_unit() {
    assert_eq!(unit("100px"), Some("100".to_string()));
    assert_eq!(unit("px"), Some("".to_string()));
    assert_eq!(unit("1pxpx"), Some("1px".to_string()));
    assert_eq!(unit("100"), None);
    assert_eq!(unit("100PX"), None);
    assert_eq!(unit("100px "), None);
    assert_eq!(unit("x"), None);
    assert_eq!(unit(""), None);
}

#[test]
fn whole_pixels() {
    assert_eq!(parse_pixels(&chars("100px")), Some(100));
    assert_eq!(parse_pixels(&chars("-4px")), Some(-4));
    assert_eq!(parse_pixels(&chars("100")), None);
    assert_eq!(parse_pixels(&chars("px")), None);
    assert_eq!(parse_pixels(&chars("1.5px")), None);
    assert_eq!(parse_pixels(&chars("auto")), None);
    assert_eq!(parse_pixels(&chars("1px2px")), None);
}

#[test]
fn pixels_with_a_fraction() {
    assert_eq!(parse_pixel_decimal(&chars("1.5px")), Some(Decimal { micros: 1_500_000 }));
    assert_eq!(parse_pixel_decimal(&chars("10px")), Some(Decimal { micros: 10_000_000 }));
    assert_eq!(parse_pixel_decimal(&chars("1.5")), None);
    assert_eq!(parse_pixel_decimal(&chars("px")), None);
}

#[test]
fn digits() {
    assert_eq!(digit_of('0'), Some(0));
    assert_eq!(digit_of('7'), Some(7));
    assert_eq!(digit_of('9'), Some(9));
    assert_eq!(digit_of('a'), None);
    assert_eq!(digit_of('/'), None);
    assert_eq!(digit_of(':'), None);
    assert_eq!(digit_of('٣'), None);
}
