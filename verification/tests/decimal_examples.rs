use systemyml::decimal::{append_decimal, decimal_string};

#[test]
fn decimal_of_zero() {
    assert_eq!(decimal_string(0), "0");
}

#[test]
fn decimal_of_single_digits() {
    assert_eq!(decimal_string(7), "7");
    assert_eq!(decimal_string(9), "9");
    assert_eq!(decimal_string(-1), "-1");
}

#[test]
fn decimal_of_round_numbers() {
    assert_eq!(decimal_string(10), "10");
    assert_eq!(decimal_string(100), "100");
    assert_eq!(decimal_string(-1000), "-1000");
    assert_eq!(decimal_string(1020304050), "1020304050");
}

#[test]
fn decimal_of_the_extremes() {
    assert_eq!(decimal_string(i64::MAX), "9223372036854775807");
    assert_eq!(decimal_string(i64::MIN), "-9223372036854775808");
    assert_eq!(decimal_string(i64::MIN + 1), "-9223372036854775807");
}

#[test]
fn decimal_agrees_with_the_standard_notation() {
    let samples: [i64; 9] = [0, 1, -1, 42, -42, 99999, 123456789, -2147483648, 2147483647];
    for v in samples {
        assert_eq!(decimal_string(v), format!("{}", v));
    }
}

#[test]
fn append_decimal_keeps_what_was_there() {
    let mut out = String::from("Nice=");
    append_decimal(&mut out, -12);
    assert_eq!(out, "Nice=-12");
    append_decimal(&mut out, 340);
    assert_eq!(out, "Nice=-12340");
}
