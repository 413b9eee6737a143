use algot_framework::{LexError, Op};

#[test]
fn every_operator_symbol_gives_its_operator() {
    assert_eq!(Op::new('+'), Ok(Op::Add));
    assert_eq!(Op::new('-'), Ok(Op::Sub));
    assert_eq!(Op::new('*'), Ok(Op::Mul));
    assert_eq!(Op::new('/'), Ok(Op::Div));
    assert_eq!(Op::new('%'), Ok(Op::Mod));
    assert_eq!(Op::new('^'), Ok(Op::Pow));
}

#[test]
fn operators_of_different_symbols_differ() {
    let symbols = ['+', '-', '*', '/', '%', '^'];
    for (i, a) in symbols.iter().enumerate() {
        for (j, b) in symbols.iter().enumerate() {
            assert_eq!(Op::new(*a) == Op::new(*b), i == j);
        }
    }
}

#[test]
fn other_characters_are_invalid_operator_symbols() {
    assert_eq!(Op::new('_'), Err(LexError::InvalidOperatorSymbol('_')));
    assert_eq!(Op::new('('), Err(LexError::InvalidOperatorSymbol('(')));
    assert_eq!(Op::new('a'), Err(LexError::InvalidOperatorSymbol('a')));
    assert_eq!(Op::new('1'), Err(LexError::InvalidOperatorSymbol('1')));
    assert_eq!(Op::new(' '), Err(LexError::InvalidOperatorSymbol(' ')));
    assert_eq!(Op::new('÷'), Err(LexError::InvalidOperatorSymbol('÷')));
}

#[test]
fn only_six_characters_are_operator_symbols() {
    let mut found = 0;
    for code in 0u32..0x3000 {
        if let Some(c) = char::from_u32(code) {
            if Op::new(c).is_ok() {
                found += 1;
            } else {
                assert_eq!(Op::new(c), Err(LexError::InvalidOperatorSymbol(c)));
            }
        }
    }
    assert_eq!(found, 6);
}

#[test]
fn operators_are_copied_and_compared() {
    let op = Op::new('*').unwrap();
    let copy = op;
    assert_eq!(op, copy);
    assert_ne!(op, Op::Div);
    assert_eq!(format!("{:?}", op), "Mul");
}
