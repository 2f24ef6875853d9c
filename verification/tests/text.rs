use sarcent::text::{decimal_string, digit_str};

#[test]
fn decimal_strings() {
    assert_eq!(decimal_string(0), "0");
    assert_eq!(decimal_string(7), "7");
    assert_eq!(decimal_string(126), "126");
    assert_eq!(decimal_string(1000), "1000");
    assert_eq!(decimal_string(u64::MAX), "18446744073709551615");
}

#[test]
fn digit_strings() {
    for d in 0..10u64 {
        assert_eq!(digit_str(d), d.to_string());
    }
}
