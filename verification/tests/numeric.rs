use algot_framework::Integer;

#[test]
fn integer_wraps_its_value() {
    let integer = Integer(1);
    assert_eq!(integer, Integer(1));
    assert_eq!(integer.0, 1);
    assert_ne!(integer, Integer(2));
}

#[test]
fn integer_display_text() {
    assert_eq!(Integer(1).to_string(), "1");
    assert_eq!(Integer(0).to_string(), "0");
    assert_eq!(Integer(-1).to_string(), "-1");
    assert_eq!(Integer(10).to_string(), "10");
    assert_eq!(Integer(1234567890).to_string(), "1234567890");
    assert_eq!(Integer(-907).to_string(), "-907");
    assert_eq!(Integer(i64::MAX).to_string(), "9223372036854775807");
    assert_eq!(Integer(i64::MIN).to_string(), "-9223372036854775808");
}

#[test]
fn integer_display_text_reads_back() {
    let values = [0, 1, -1, 9, 10, 11, 99, 100, -100, 1000000, 4611686018427387904, i64::MAX, i64::MIN];
    for value in values {
        let text = Integer(value).to_string();
        assert_eq!(text, format!("{}", value));
        assert_eq!(text.parse::<i64>(), Ok(value));
    }
}

#[test]
fn integer_literal_is_displayed_as_written() {
    for literal in ["0", "7", "42", "-42", "1000", "-9223372036854775808"] {
        let value: i64 = literal.parse().unwrap();
        assert_eq!(Integer(value).to_string(), literal);
    }
}

#[test]
fn integer_arithmetic() {
    assert_eq!(Integer(5) + Integer(7), Integer(12));
    assert_eq!(Integer(5) - Integer(7), Integer(-2));
    assert_eq!(Integer(5) * Integer(-7), Integer(-35));
    assert_eq!(Integer(i64::MAX - 1) + Integer(1), Integer(i64::MAX));
    assert_eq!(Integer(i64::MIN + 1) - Integer(1), Integer(i64::MIN));
}

#[test]
fn integer_division_rounds_towards_zero() {
    assert_eq!(Integer(7) / Integer(2), Integer(3));
    assert_eq!(Integer(-7) / Integer(2), Integer(-3));
    assert_eq!(Integer(7) / Integer(-2), Integer(-3));
    assert_eq!(Integer(-7) / Integer(-2), Integer(3));
    assert_eq!(Integer(6) / Integer(3), Integer(2));
    assert_eq!(Integer(0) / Integer(5), Integer(0));
    assert_eq!(Integer(i64::MIN) / Integer(1), Integer(i64::MIN));
    assert_eq!(Integer(i64::MIN) / Integer(2), Integer(i64::MIN / 2));
}

#[test]
fn arithmetic_leaves_its_operands() {
    let a = Integer(3);
    let b = Integer(4);
    let sum = a + b;
    assert_eq!(a, Integer(3));
    assert_eq!(b, Integer(4));
    assert_eq!(sum, Integer(7));
}
