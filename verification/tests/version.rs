use machina_monitor::version::{decimal, parse_pkg_version};

#[test]
fn plain_version_is_decoded() {
    assert_eq!(parse_pkg_version("0.1.0"), (0, 1, 0));
    assert_eq!(parse_pkg_version("12.0.345"), (12, 0, 345));
}

#[test]
fn suffix_after_digits_is_ignored() {
    assert_eq!(parse_pkg_version("1.2.3-rc1"), (1, 2, 3));
    assert_eq!(parse_pkg_version("1x2.3"), (1, 3, 0));
}

#[test]
fn missing_components_are_zero() {
    assert_eq!(parse_pkg_version("1.2"), (1, 2, 0));
    assert_eq!(parse_pkg_version("7"), (7, 0, 0));
    assert_eq!(parse_pkg_version(""), (0, 0, 0));
}

#[test]
fn non_numeric_components_are_zero() {
    assert_eq!(parse_pkg_version("a.b.c"), (0, 0, 0));
    assert_eq!(parse_pkg_version("+1.2.3"), (0, 2, 3));
    assert_eq!(parse_pkg_version("1..3"), (1, 0, 3));
}

#[test]
fn extra_components_are_ignored() {
    assert_eq!(parse_pkg_version("1.2.3.4"), (1, 2, 3));
}

#[test]
fn leading_zeros_are_read_in_decimal() {
    assert_eq!(parse_pkg_version("01.002.3"), (1, 2, 3));
}

#[test]
fn component_that_overflows_is_zero() {
    assert_eq!(
        parse_pkg_version("18446744073709551615.18446744073709551616.3"),
        (u64::MAX, 0, 3)
    );
}

#[test]
fn decimal_text_of_numbers() {
    assert_eq!(decimal(0), "0");
    assert_eq!(decimal(9), "9");
    assert_eq!(decimal(10), "10");
    assert_eq!(decimal(1234567890), "1234567890");
    assert_eq!(decimal(u64::MAX), "18446744073709551615");
}

#[test]
fn version_text_round_trips() {
    for (a, b, c) in [(0u64, 0u64, 0u64), (1, 22, 333), (u64::MAX, 10, 9)] {
        let text = format!("{}.{}.{}", decimal(a), decimal(b), decimal(c));
        assert_eq!(parse_pkg_version(&text), (a, b, c));
    }
}
