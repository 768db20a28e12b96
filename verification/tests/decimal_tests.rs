use pbc_config::decimal::{dec_le, dec_positive, parse_decimal, parse_u32, Decimal};

#[test]
fn parse_whole_number() {
    assert_eq!(parse_decimal("100"), Some(Decimal { units: 100, nanos: 0 }));
    assert_eq!(parse_decimal("0"), Some(Decimal { units: 0, nanos: 0 }));
}

#[test]
fn parse_fractional_number() {
    assert_eq!(parse_decimal("2.5"), Some(Decimal { units: 2, nanos: 500_000_000 }));
    assert_eq!(parse_decimal("0.000000001"), Some(Decimal { units: 0, nanos: 1 }));
    assert_eq!(parse_decimal("1.000000001"), Some(Decimal { units: 1, nanos: 1 }));
    assert_eq!(parse_decimal("10.25"), Some(Decimal { units: 10, nanos: 250_000_000 }));
}

#[test]
fn parse_trailing_dot_is_whole() {
    assert_eq!(parse_decimal("7."), Some(Decimal { units: 7, nanos: 0 }));
}

#[test]
fn parse_largest_sizes() {
    // 18 integer digits and 9 fractional digits are the accepted maximum.
    assert_eq!(
        parse_decimal("999999999999999999.999999999"),
        Some(Decimal { units: 999_999_999_999_999_999, nanos: 999_999_999 })
    );
    assert_eq!(parse_decimal("1000000000000000000"), None);
    assert_eq!(parse_decimal("1.0000000001"), None);
}

#[test]
fn parse_rejects_malformed() {
    assert_eq!(parse_decimal(""), None);
    assert_eq!(parse_decimal("."), None);
    assert_eq!(parse_decimal(".5"), None);
    assert_eq!(parse_decimal("1.2.3"), None);
    assert_eq!(parse_decimal("abc"), None);
    assert_eq!(parse_decimal("-1"), None);
    assert_eq!(parse_decimal("1e9"), None);
    assert_eq!(parse_decimal("1 0"), None);
}

#[test]
fn compare_amounts() {
    let one_half = parse_decimal("1.5").unwrap();
    let two = parse_decimal("2").unwrap();
    assert!(dec_le(&one_half, &two));
    assert!(!dec_le(&two, &one_half));
    assert!(dec_le(&two, &two));
    assert!(dec_positive(&one_half));
    assert!(!dec_positive(&Decimal { units: 0, nanos: 0 }));
}

#[test]
fn parse_confirmation_counts() {
    assert_eq!(parse_u32("0"), Some(0));
    assert_eq!(parse_u32("12"), Some(12));
    assert_eq!(parse_u32("999999999"), Some(999_999_999));
    assert_eq!(parse_u32("1000000000"), None);
    assert_eq!(parse_u32(""), None);
    assert_eq!(parse_u32("3.5"), None);
    assert_eq!(parse_u32("-3"), None);
}
