use drone_logbook::numbers::{parse_decimal, parse_i32, parse_i64, write_decimal};

fn chars(s: &str) -> Vec<char> {
    s.chars().collect()
}

#[test]
fn decimal_literals_are_cut_off_toward_zero() {
    assert_eq!(parse_decimal(&chars("1.2345"), 3), Some(1234));
    assert_eq!(parse_decimal(&chars("-1.2345"), 3), Some(-1234));
    assert_eq!(parse_decimal(&chars("0.0000001"), 7), Some(1));
    assert_eq!(parse_decimal(&chars("-0.0000002"), 7), Some(-2));
    assert_eq!(parse_decimal(&chars("91.0"), 7), Some(910_000_000));
    assert_eq!(parse_decimal(&chars("5"), 3), Some(5000));
    assert_eq!(parse_decimal(&chars("5."), 3), Some(5000));
    assert_eq!(parse_decimal(&chars(".5"), 3), Some(500));
    assert_eq!(parse_decimal(&chars("+12.5"), 3), Some(12500));
}

#[test]
fn decimal_literals_may_carry_an_exponent() {
    assert_eq!(parse_decimal(&chars("1.0E-4"), 7), Some(1000));
    assert_eq!(parse_decimal(&chars("1e3"), 3), Some(1_000_000));
    assert_eq!(parse_decimal(&chars("2.5e-1"), 3), Some(250));
    assert_eq!(parse_decimal(&chars("1e-9"), 3), Some(0));
    assert_eq!(parse_decimal(&chars("0e400"), 3), Some(0));
    assert_eq!(parse_decimal(&chars("1e401"), 3), None);
    assert_eq!(parse_decimal(&chars("1e30"), 3), None);
}

#[test]
fn what_is_no_decimal_literal_is_no_number() {
    for text in ["", "-", ".", "e5", "1.2.3", "nan", "inf", " 1", "1 ", "1e", "1e+", "0x10", "1,5"] {
        assert_eq!(parse_decimal(&chars(text), 3), None, "{:?}", text);
    }
}

#[test]
fn decimal_literals_stop_at_the_range_of_i64() {
    assert_eq!(parse_decimal(&chars("9223372036854775807"), 0), Some(i64::MAX));
    assert_eq!(parse_decimal(&chars("9223372036854775808"), 0), None);
    assert_eq!(parse_decimal(&chars("-9223372036854775808"), 0), Some(i64::MIN));
    assert_eq!(parse_decimal(&chars("-9223372036854775809"), 0), None);
    assert_eq!(parse_decimal(&chars("9223372036854775.807"), 3), Some(i64::MAX));
}

#[test]
fn integer_literals_are_read_as_std_reads_them() {
    for text in ["0", "-0", "+7", "42", "-2147483648", "2147483647", "2147483648", "", "-", "+", "1.0", " 1", "1 ", "١٢", "00012"] {
        assert_eq!(parse_i32(&chars(text)), text.parse::<i32>().ok(), "{:?}", text);
        assert_eq!(parse_i64(&chars(text)), text.parse::<i64>().ok(), "{:?}", text);
    }
    assert_eq!(parse_i64(&chars("-9223372036854775808")), Some(i64::MIN));
    assert_eq!(parse_i64(&chars("9223372036854775808")), None);
}

#[test]
fn numbers_are_written_in_decimal_digits() {
    for n in [0u64, 7, 10, 40, 12_000, 11_989, u64::MAX] {
        assert_eq!(write_decimal(n), n.to_string());
    }
}
