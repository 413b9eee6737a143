use algot_framework::{LexError, Op, Token};

fn classify(raw: &str) -> Result<Token, LexError> {
    Token::new(String::from(raw))
}

#[test]
fn parentheses_are_classified() {
    assert_eq!(classify("("), Ok(Token::LParen));
    assert_eq!(classify(")"), Ok(Token::RParen));
}

#[test]
fn operator_symbols_are_classified() {
    assert_eq!(classify("+"), Ok(Token::Operator(Op::Add)));
    assert_eq!(classify("-"), Ok(Token::Operator(Op::Sub)));
    assert_eq!(classify("*"), Ok(Token::Operator(Op::Mul)));
    assert_eq!(classify("/"), Ok(Token::Operator(Op::Div)));
    assert_eq!(classify("%"), Ok(Token::Operator(Op::Mod)));
    assert_eq!(classify("^"), Ok(Token::Operator(Op::Pow)));
}

#[test]
fn decimal_literal_is_a_constant() {
    let token = classify("3.14").unwrap();
    assert_eq!(token, Token::Constant(String::from("3.14")));
    match token {
        Token::Constant(text) => assert_eq!(text.parse::<f64>(), Ok(3.14)),
        _ => panic!("not a constant"),
    }
}

#[test]
fn name_is_a_variable() {
    assert_eq!(classify("abc"), Ok(Token::Var(String::from("abc"))));
    assert_eq!(classify("x1"), Ok(Token::Var(String::from("x1"))));
}

#[test]
fn digits_without_a_point_are_a_variable() {
    assert_eq!(classify("3"), Ok(Token::Var(String::from("3"))));
    assert_eq!(classify("42"), Ok(Token::Var(String::from("42"))));
    assert_eq!(classify("1e5"), Ok(Token::Var(String::from("1e5"))));
}

#[test]
fn empty_text_is_a_variable() {
    assert_eq!(classify(""), Ok(Token::Var(String::new())));
}

#[test]
fn longer_text_that_begins_with_a_symbol_is_a_variable() {
    assert_eq!(classify("++"), Ok(Token::Var(String::from("++"))));
    assert_eq!(classify("(("), Ok(Token::Var(String::from("(("))));
    assert_eq!(classify("()"), Ok(Token::Var(String::from("()"))));
    assert_eq!(classify("-x"), Ok(Token::Var(String::from("-x"))));
}

#[test]
fn signed_and_scaled_literals_are_constants() {
    for raw in ["-3.14", "+0.5", ".5", "5.", "-.5", "1.5e10", "1.5E-3", "2.e+7", "00.10"] {
        assert_eq!(classify(raw), Ok(Token::Constant(String::from(raw))));
    }
}

#[test]
fn malformed_literals_are_rejected() {
    for raw in [".", "+.", "-.", "1.2.3", "a.b", "1.5e", "1.5e+", "1.5x", " 1.5", "1.5 ", "..", "1e5.0", "+-1.0", "١.٥"] {
        assert_eq!(
            classify(raw),
            Err(LexError::MalformedNumericLiteral(String::from(raw)))
        );
    }
}

#[test]
fn constants_are_the_texts_with_a_point_that_parse_as_a_number() {
    let pieces = ["", "+", "-", "1", "07", ".", "e", "E", "e5", "E-2", "e+", "x", "inf", "nan", " "];
    for a in pieces {
        for b in pieces {
            for c in pieces {
                let raw = format!("{}{}{}", a, b, c);
                if raw.contains('.') {
                    let parsed = raw.parse::<f64>().is_ok();
                    match classify(&raw) {
                        Ok(Token::Constant(text)) => {
                            assert!(parsed);
                            assert_eq!(text, raw);
                        }
                        Err(LexError::MalformedNumericLiteral(text)) => {
                            assert!(!parsed);
                            assert_eq!(text, raw);
                        }
                        other => panic!("{:?} for {:?}", other, raw),
                    }
                }
            }
        }
    }
}

#[test]
fn short_texts_with_a_point_are_constants_where_they_parse_as_a_number() {
    let alphabet = ['+', '-', '.', 'e', 'E', '0', '7', 'x'];
    let mut texts = vec![String::new()];
    let mut checked = 0;
    for _ in 0..5 {
        let mut longer = Vec::new();
        for text in &texts {
            for c in alphabet {
                let mut next = text.clone();
                next.push(c);
                longer.push(next);
            }
        }
        for raw in &longer {
            if raw.contains('.') {
                let parsed = raw.parse::<f64>().is_ok();
                let expected = if parsed {
                    Ok(Token::Constant(raw.clone()))
                } else {
                    Err(LexError::MalformedNumericLiteral(raw.clone()))
                };
                assert_eq!(classify(raw), expected);
                checked += 1;
            }
        }
        texts = longer;
    }
    assert!(checked > 10000);
}

#[test]
fn tokens_are_cloned() {
    let token = classify("abc").unwrap();
    assert_eq!(token.clone(), token);
    let error = classify("a.b").unwrap_err();
    assert_eq!(error.clone(), error);
}
