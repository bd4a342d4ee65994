use psu_driver::numbers::{
    adjust_setpoint, parse_decimal_micro, parse_decimal_or_zero, parse_u64,
};

#[test]
fn decimal_whole_and_fraction() {
    assert_eq!(parse_decimal_micro(b"5.0000"), Some(5_000_000));
    assert_eq!(parse_decimal_micro(b"0.2500"), Some(250_000));
    assert_eq!(parse_decimal_micro(b"12"), Some(12_000_000));
    assert_eq!(parse_decimal_micro(b"0"), Some(0));
}

#[test]
fn decimal_signs() {
    assert_eq!(parse_decimal_micro(b"-0.25"), Some(-250_000));
    assert_eq!(parse_decimal_micro(b"+3"), Some(3_000_000));
    assert_eq!(parse_decimal_micro(b"-0"), Some(0));
}

#[test]
fn decimal_bare_separator_forms() {
    assert_eq!(parse_decimal_micro(b".5"), Some(500_000));
    assert_eq!(parse_decimal_micro(b"5."), Some(5_000_000));
}

#[test]
fn decimal_excess_fraction_digits_are_dropped() {
    assert_eq!(parse_decimal_micro(b"1.2345678"), Some(1_234_567));
    assert_eq!(parse_decimal_micro(b"0.0000009"), Some(0));
}

#[test]
fn decimal_malformed_is_rejected() {
    assert_eq!(parse_decimal_micro(b""), None);
    assert_eq!(parse_decimal_micro(b"abc"), None);
    assert_eq!(parse_decimal_micro(b"1.2.3"), None);
    assert_eq!(parse_decimal_micro(b"-"), None);
    assert_eq!(parse_decimal_micro(b"."), None);
    assert_eq!(parse_decimal_micro(b"1e3"), None);
    assert_eq!(parse_decimal_micro(b" 5"), None);
}

#[test]
fn decimal_out_of_range_is_rejected() {
    assert_eq!(parse_decimal_micro(b"1000000000000"), None);
    assert_eq!(parse_decimal_micro(b"1000000000000.5"), None);
    assert_eq!(parse_decimal_micro(b"999999999999"), Some(999_999_999_999_000_000));
}

#[test]
fn decimal_fallback_reads_zero() {
    assert_eq!(parse_decimal_or_zero(b"abc"), 0);
    assert_eq!(parse_decimal_or_zero(b"2.5"), 2_500_000);
}

#[test]
fn unsigned_parse() {
    assert_eq!(parse_u64(b"100"), Some(100));
    assert_eq!(parse_u64(b"0"), Some(0));
    assert_eq!(parse_u64(b"18446744073709551615"), Some(u64::MAX));
}

#[test]
fn unsigned_parse_rejects() {
    assert_eq!(parse_u64(b""), None);
    assert_eq!(parse_u64(b"12a"), None);
    assert_eq!(parse_u64(b"-1"), None);
    assert_eq!(parse_u64(b"18446744073709551616"), None);
    assert_eq!(parse_u64(b"99999999999999999999"), None);
}

#[test]
fn setpoint_adjustment_clamps_at_zero() {
    assert_eq!(adjust_setpoint(b"1.50", 250_000), 1_750_000);
    assert_eq!(adjust_setpoint(b"1.50", -2_000_000), 0);
    assert_eq!(adjust_setpoint(b"garbage", 100_000), 100_000);
}
