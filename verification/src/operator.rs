//! The arithmetic operators and the symbols that stand for them.

use vstd::prelude::*;
use crate::error::LexError;

verus! {

/// An arithmetic operator.
#[derive(Debug, Clone, Copy, PartialEq, Eq, Structural)]
pub enum Op {
    Add,
    Sub,
    Mul,
    Div,
    Mod,
    Pow,
}

/// The operator that `symbol` stands for, if it stands for one.
pub open spec fn operator_of(symbol: char) -> Option<Op> {
    if symbol == '+' {
        Some(Op::Add)
    } else if symbol == '-' {
        Some(Op::Sub)
    } else if symbol == '*' {
        Some(Op::Mul)
    } else if symbol == '/' {
        Some(Op::Div)
    } else if symbol == '%' {
        Some(Op::Mod)
    } else if symbol == '^' {
        Some(Op::Pow)
    } else {
        None
    }
}

impl Op {
    /// The symbol that is written for this operator.
    pub open spec fn symbol(self) -> char {
        match self {
            Op::Add => '+',
            Op::Sub => '-',
            Op::Mul => '*',
            Op::Div => '/',
            Op::Mod => '%',
            Op::Pow => '^',
        }
    }

    /// Classifies one character: the operator whose symbol it is, or
    /// `InvalidOperatorSymbol` with the character for any other.
    pub fn new(token: char) -> (result: Result<Op, LexError>)
        ensures
            operator_of(token) matches Some(op) ==> result == Ok::<Op, LexError>(op),
            operator_of(token).is_none() ==> result == Err::<Op, LexError>(
                LexError::InvalidOperatorSymbol(token),
            ),
    {
        match token {
            '+' => Ok(Op::Add),
            '-' => Ok(Op::Sub),
            '*' => Ok(Op::Mul),
            '/' => Ok(Op::Div),
            '%' => Ok(Op::Mod),
            '^' => Ok(Op::Pow),
            _ => Err(LexError::InvalidOperatorSymbol(token)),
        }
    }
}

/// Every operator has exactly one symbol: the symbol of an operator stands
/// for that operator, and a character that stands for an operator is that
/// operator's symbol. So two different symbols never give the same operator.
pub proof fn lemma_symbol_unique(op: Op, symbol: char)
    ensures
        operator_of(op.symbol()) == Some(op),
        operator_of(symbol) == Some(op) <==> symbol == op.symbol(),
{
}

} // verus!
