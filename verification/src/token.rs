//! The lexical units of an expression, and the rules that tell them apart.

use vstd::prelude::*;
use crate::error::{LexError, LexErrorView};
use crate::literal::{decimal_literal, decimal_shape, is_decimal_literal, sign_len};
use crate::operator::{operator_of, Op};
use vstd::std_specs::cmp::PartialEqSpecImpl;

verus! {

/// One lexical unit of an expression.
#[derive(Debug)]
pub enum Token {
    /// A closing parenthesis.
    RParen,
    /// An opening parenthesis.
    LParen,
    /// A numeric constant, held as the decimal literal that was written.
    Constant(String),
    /// The name of a variable.
    Var(String),
    /// An arithmetic operator.
    Operator(Op),
}

/// What a [`Token`] holds, with text as a sequence of characters.
pub enum TokenView {
    RParen,
    LParen,
    Constant(Seq<char>),
    Var(Seq<char>),
    Operator(Op),
}

impl Clone for Token {
    fn clone(&self) -> (copy: Self)
        ensures
            copy == *self,
    {
        match self {
            Token::RParen => Token::RParen,
            Token::LParen => Token::LParen,
            Token::Constant(text) => Token::Constant(text.clone()),
            Token::Var(name) => Token::Var(name.clone()),
            Token::Operator(op) => Token::Operator(*op),
        }
    }
}

impl PartialEq for Token {
    /// Tokens are equal when they are of one kind and hold the same text or
    /// operator. Constants are compared by their literals: two that are
    /// written differently differ, whatever number they stand for.
    fn eq(&self, other: &Self) -> (equal: bool) {
        match (self, other) {
            (Token::RParen, Token::RParen) => true,
            (Token::LParen, Token::LParen) => true,
            (Token::Constant(text), Token::Constant(other_text)) => *text == *other_text,
            (Token::Var(name), Token::Var(other_name)) => *name == *other_name,
            (Token::Operator(op), Token::Operator(other_op)) => *op == *other_op,
            _ => false,
        }
    }
}

impl PartialEqSpecImpl for Token {
    open spec fn obeys_eq_spec() -> bool {
        true
    }

    open spec fn eq_spec(&self, other: &Self) -> bool {
        self@ == other@
    }
}

impl Eq for Token {

}

impl View for Token {
    type V = TokenView;

    open spec fn view(&self) -> TokenView {
        match *self {
            Token::RParen => TokenView::RParen,
            Token::LParen => TokenView::LParen,
            Token::Constant(text) => TokenView::Constant(text@),
            Token::Var(name) => TokenView::Var(name@),
            Token::Operator(op) => TokenView::Operator(op),
        }
    }
}

impl TokenView {
    /// A constant holds a decimal literal; the other tokens hold anything.
    pub open spec fn wf(self) -> bool {
        self matches TokenView::Constant(text) ==> decimal_literal(text)
    }
}

/// The token that `raw` is, by the first rule that applies:
/// a single parenthesis is that parenthesis; a single operator symbol is
/// that operator; text with a decimal point is a constant where it is a
/// decimal literal and malformed where it is not; all other text, digits
/// without a point and the empty text too, is the name of a variable.
pub open spec fn classify(raw: Seq<char>) -> Result<TokenView, LexErrorView> {
    if raw == seq!['('] {
        Ok(TokenView::LParen)
    } else if raw == seq![')'] {
        Ok(TokenView::RParen)
    } else if raw.len() == 1 && operator_of(raw[0]).is_some() {
        Ok(TokenView::Operator(operator_of(raw[0]).unwrap()))
    } else if raw.contains('.') {
        if decimal_literal(raw) {
            Ok(TokenView::Constant(raw))
        } else {
            Err(LexErrorView::MalformedNumericLiteral(raw))
        }
    } else {
        Ok(TokenView::Var(raw))
    }
}

/// Classification fails on malformed literals only: on text that holds a
/// decimal point and is no decimal literal. All other text has a token.
pub proof fn lemma_only_malformed_literals_fail(raw: Seq<char>)
    ensures
        classify(raw).is_err() <==> raw.contains('.') && !decimal_literal(raw),
        classify(raw).is_err() ==> classify(raw) == Err::<TokenView, LexErrorView>(
            LexErrorView::MalformedNumericLiteral(raw),
        ),
{
    if raw.len() == 1 && raw.contains('.') {
        assert(raw[0] == '.');
    }
}

/// The literal of a constant classifies as that constant: a decimal literal
/// is never taken for a parenthesis, an operator or a name.
pub proof fn lemma_literal_is_constant(raw: Seq<char>)
    requires
        decimal_literal(raw),
    ensures
        classify(raw) == Ok::<TokenView, LexErrorView>(TokenView::Constant(raw)),
{
    let (point, end) = choose|point: int, end: int|
        decimal_shape(raw, sign_len(raw), point, end);
    assert(raw[point] == '.');
}

/// The characters of `text`, in order.
fn chars_of(text: &str) -> (chars: Vec<char>)
    ensures
        chars@ == text@,
{
    let mut chars: Vec<char> = Vec::new();
    for c in it: text.chars()
        invariant
            it.seq() == text@,
            chars@ == text@.take(it.index() as int),
    {
        chars.push(c);
        assert(text@.take(it.index() + 1) == text@.take(it.index() as int).push(c));
    }
    assert(text@.take(text@.len() as int) == text@);
    chars
}

/// Tells whether a decimal point occurs in `text`.
fn has_point(text: &[char]) -> (found: bool)
    ensures
        found == text@.contains('.'),
{
    let mut i: usize = 0;
    while i < text.len()
        invariant
            i <= text.len(),
            forall|j: int| 0 <= j < i ==> text@[j] != '.',
        decreases text.len() - i,
    {
        if text[i] == '.' {
            return true;
        }
        i = i + 1;
    }
    false
}

impl Token {
    /// Classifies one piece of input as `classify` says. The text of a
    /// constant, of a variable and of a malformed literal is `token` itself.
    pub fn new(token: String) -> (result: Result<Token, LexError>)
        ensures
            result matches Ok(unit) ==> classify(token@) == Ok::<TokenView, LexErrorView>(unit@)
                && unit@.wf(),
            result matches Err(error) ==> classify(token@) == Err::<TokenView, LexErrorView>(
                error@,
            ),
            result.is_err() <==> token@.contains('.') && !decimal_literal(token@),
    {
        let chars = chars_of(token.as_str());
        if chars.len() == 1 {
            let symbol = chars[0];
            assert(token@ =~= seq![symbol]);
            if symbol == '(' {
                return Ok(Token::LParen);
            }
            if symbol == ')' {
                return Ok(Token::RParen);
            }
            if let Ok(op) = Op::new(symbol) {
                return Ok(Token::Operator(op));
            }
        }
        if has_point(&chars) {
            if is_decimal_literal(&chars) {
                Ok(Token::Constant(token))
            } else {
                Err(LexError::MalformedNumericLiteral(token))
            }
        } else {
            Ok(Token::Var(token))
        }
    }
}

} // verus!
