use algot_framework::literal::is_decimal_literal;

fn accepts(raw: &str) -> bool {
    let chars: Vec<char> = raw.chars().collect();
    is_decimal_literal(&chars)
}

#[test]
fn digits_on_either_side_of_the_point() {
    assert!(accepts("3.14"));
    assert!(accepts("3."));
    assert!(accepts(".14"));
    assert!(accepts("0.0"));
    assert!(!accepts("."));
    assert!(!accepts(""));
    assert!(!accepts("314"));
}

#[test]
fn one_sign_in_front() {
    assert!(accepts("+3.14"));
    assert!(accepts("-3.14"));
    assert!(accepts("-.5"));
    assert!(!accepts("--3.14"));
    assert!(!accepts("+-3.14"));
    assert!(!accepts("3.-14"));
    assert!(!accepts("+."));
    assert!(!accepts("+"));
}

#[test]
fn exponent_needs_digits() {
    assert!(accepts("1.0e5"));
    assert!(accepts("1.0E5"));
    assert!(accepts("1.0e+5"));
    assert!(accepts("1.0e-05"));
    assert!(accepts("1.e5"));
    assert!(accepts(".1e5"));
    assert!(!accepts("1.0e"));
    assert!(!accepts("1.0e+"));
    assert!(!accepts("1.0e-"));
    assert!(!accepts("1.0e5.0"));
    assert!(!accepts("1.0e5e5"));
    assert!(!accepts("1.0e++5"));
    assert!(!accepts(".e5"));
    assert!(!accepts("1e5"));
}

#[test]
fn nothing_else_in_a_literal() {
    assert!(!accepts("1.0f"));
    assert!(!accepts("1_000.0"));
    assert!(!accepts("1,5"));
    assert!(!accepts("1.5 "));
    assert!(!accepts("0x1.8"));
    assert!(!accepts("inf."));
    assert!(!accepts("1.２"));
}
