use econ_bot::text::{i64_to_decimal, parse_i64, u64_to_decimal};

#[test]
fn decimal_of_integers() {
    assert_eq!(u64_to_decimal(0), "0");
    assert_eq!(u64_to_decimal(1234567890), "1234567890");
    assert_eq!(u64_to_decimal(u64::MAX), "18446744073709551615");
    assert_eq!(i64_to_decimal(-42), "-42");
    assert_eq!(i64_to_decimal(i64::MIN), "-9223372036854775808");
    assert_eq!(i64_to_decimal(i64::MAX), "9223372036854775807");
}

#[test]
fn parse_accepts_what_std_accepts() {
    for s in ["0", "42", "+42", "-42", "007", "9223372036854775807", "-9223372036854775808"] {
        assert_eq!(parse_i64(s), s.parse::<i64>().ok(), "{}", s);
    }
}

#[test]
fn parse_refuses_what_std_refuses() {
    for s in ["", "+", "-", "abc", "1_000", " 5", "5 ", "--5", "+-5", "9223372036854775808", "-9223372036854775809", "99999999999999999999999", "١٢"] {
        assert_eq!(parse_i64(s), None, "{}", s);
        assert!(s.parse::<i64>().is_err());
    }
}

#[test]
fn parse_reads_back_printed_numbers() {
    for n in [0i64, 1, -1, 250, i64::MIN, i64::MAX, 1119247275093413940] {
        assert_eq!(parse_i64(&i64_to_decimal(n)), Some(n));
    }
}
