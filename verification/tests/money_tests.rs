use scan_mvcf::money::Money;

#[test]
fn construction_and_predicates() {
    assert_eq!(Money::new(1234).cents, 1234);
    assert_eq!(Money::zero().cents, 0);
    assert!(Money::new(0).non_negative());
    assert!(Money::new(u64::MAX).non_negative());
    assert!(Money::new(5).ge(Money::new(5)));
    assert!(Money::new(6).ge(Money::new(5)));
    assert!(!Money::new(4).ge(Money::new(5)));
}

#[test]
fn arithmetic() {
    assert_eq!(Money::new(300).add(Money::new(45)), Money::new(345));
    assert_eq!(Money::new(300).sub(Money::new(45)), Money::new(255));
    assert_eq!(Money::new(300).checked_add(Money::new(45)), Some(Money::new(345)));
    assert_eq!(Money::new(u64::MAX).checked_add(Money::new(1)), None);
    assert_eq!(Money::new(300).checked_sub(Money::new(45)), Some(Money::new(255)));
    assert_eq!(Money::new(44).checked_sub(Money::new(45)), None);
}

#[test]
fn parses_decimal_strings() {
    assert_eq!(Money::from_decimal_str("12.34"), Some(Money::new(1234)));
    assert_eq!(Money::from_decimal_str("7"), Some(Money::new(700)));
    assert_eq!(Money::from_decimal_str("0.05"), Some(Money::new(5)));
    assert_eq!(Money::from_decimal_str("0.00"), Some(Money::new(0)));
    assert_eq!(Money::from_decimal_str("500"), Some(Money::new(50000)));
    assert_eq!(Money::from_decimal_str("007.10"), Some(Money::new(710)));
}

#[test]
fn rejects_malformed_decimal_strings() {
    assert_eq!(Money::from_decimal_str(""), None);
    assert_eq!(Money::from_decimal_str("1.2"), None);
    assert_eq!(Money::from_decimal_str(".45"), None);
    assert_eq!(Money::from_decimal_str("12.345"), None);
    assert_eq!(Money::from_decimal_str("abc"), None);
    assert_eq!(Money::from_decimal_str("12,34"), None);
    assert_eq!(Money::from_decimal_str("-1.00"), None);
    assert_eq!(Money::from_decimal_str("1 0"), None);
}

#[test]
fn rejects_unrepresentable_amounts() {
    // 2^64 - 1 cents is the largest representable amount
    assert_eq!(
        Money::from_decimal_str("184467440737095516.15"),
        Some(Money::new(u64::MAX))
    );
    assert_eq!(Money::from_decimal_str("184467440737095516.16"), None);
    assert_eq!(Money::from_decimal_str("99999999999999999999999999.00"), None);
}

#[test]
fn formats_decimal_strings() {
    assert_eq!(Money::new(1234).to_decimal_string(), "12.34");
    assert_eq!(Money::new(5).to_decimal_string(), "0.05");
    assert_eq!(Money::new(0).to_decimal_string(), "0.00");
    assert_eq!(Money::new(50000).to_decimal_string(), "500.00");
    assert_eq!(Money::new(710).to_decimal_string(), "7.10");
}

#[test]
fn decimal_round_trip() {
    for cents in [0u64, 1, 99, 100, 101, 1234, 100000, u64::MAX] {
        let s = Money::new(cents).to_decimal_string();
        assert_eq!(Money::from_decimal_str(&s), Some(Money::new(cents)));
    }
}
