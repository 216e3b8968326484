use riot_tracker::text::{i64_to_string, tenths_to_string, u64_to_string};

#[test]
fn decimal_formatting() {
    assert_eq!(u64_to_string(0), "0");
    assert_eq!(u64_to_string(7), "7");
    assert_eq!(u64_to_string(10), "10");
    assert_eq!(u64_to_string(1234), "1234");
    assert_eq!(u64_to_string(u64::MAX), "18446744073709551615");
}

#[test]
fn signed_decimal_formatting() {
    assert_eq!(i64_to_string(-1), "-1");
    assert_eq!(i64_to_string(0), "0");
    assert_eq!(i64_to_string(42), "42");
    assert_eq!(i64_to_string(i64::MIN), "-9223372036854775808");
}

#[test]
fn tenths_formatting() {
    assert_eq!(tenths_to_string(0), "0.0");
    assert_eq!(tenths_to_string(5), "0.5");
    assert_eq!(tenths_to_string(123), "12.3");
    assert_eq!(tenths_to_string(1000), "100.0");
}
