//! Failures of classification.

use vstd::prelude::*;
use vstd::std_specs::cmp::PartialEqSpecImpl;

verus! {

/// Why a piece of input could not be classified.
#[derive(Debug)]
pub enum LexError {
    /// The character is none of the operator symbols.
    InvalidOperatorSymbol(char),
    /// The text holds a decimal point but is no decimal literal.
    MalformedNumericLiteral(String),
}

/// What a [`LexError`] holds, with text as a sequence of characters.
pub enum LexErrorView {
    InvalidOperatorSymbol(char),
    MalformedNumericLiteral(Seq<char>),
}

impl Clone for LexError {
    fn clone(&self) -> (copy: Self)
        ensures
            copy == *self,
    {
        match self {
            LexError::InvalidOperatorSymbol(symbol) => LexError::InvalidOperatorSymbol(*symbol),
            LexError::MalformedNumericLiteral(text) => LexError::MalformedNumericLiteral(
                text.clone(),
            ),
        }
    }
}

impl PartialEq for LexError {
    /// Errors are equal when they are of one kind and hold the same
    /// character or text.
    fn eq(&self, other: &Self) -> (equal: bool) {
        match (self, other) {
            (
                LexError::InvalidOperatorSymbol(symbol),
                LexError::InvalidOperatorSymbol(other_symbol),
            ) => *symbol == *other_symbol,
            (
                LexError::MalformedNumericLiteral(text),
                LexError::MalformedNumericLiteral(other_text),
            ) => *text == *other_text,
            _ => false,
        }
    }
}

impl PartialEqSpecImpl for LexError {
    open spec fn obeys_eq_spec() -> bool {
        true
    }

    open spec fn eq_spec(&self, other: &Self) -> bool {
        self@ == other@
    }
}

impl Eq for LexError {

}

impl View for LexError {
    type V = LexErrorView;

    open spec fn view(&self) -> LexErrorView {
        match *self {
            LexError::InvalidOperatorSymbol(symbol) => LexErrorView::InvalidOperatorSymbol(symbol),
            LexError::MalformedNumericLiteral(text) => LexErrorView::MalformedNumericLiteral(text@),
        }
    }
}

} // verus!
