//! Decimal formatting of exact rational values.

use factory_management_utils::formatting::float_format;

fn cases() -> Vec<(i64, u64, usize, &'static str)> {
    vec![
        (456, 1000000, 2, "0.00046"),
        (43256, 1000000, 3, "0.0433"),
        (1, 100, 2, "0.010"),
        (10, 1, 3, "10.0"),
        (1, 1, 3, "1.00"),
        (456789, 1000, 4, "456.8"),
        (156723, 1000, 3, "157"),
    ]
}

#[test]
fn test_formatting_positive() {
    for (num, den, precision, expected) in cases() {
        let result = float_format(num, den, precision);
        assert_eq!(result, *expected);
    }
}

#[test]
fn test_formatting_negative() {
    for (num, den, precision, expected) in cases() {
        let result = float_format(-num, den, precision);
        assert_eq!(result, format!("-{}", expected));
    }
}

#[test]
fn test_formatting_zero() {
    assert_eq!(float_format(0, 1, 3), "0");
}

#[test]
fn test_format_integer_digits() {
    assert_eq!(
        factory_management_utils::formatting::format_integer(0),
        "0"
    );
    assert_eq!(
        factory_management_utils::formatting::format_integer(907),
        "907"
    );
}
