//! Building blocks for an expression tokenizer: operator and token
//! classification, the grammar of decimal literals, exact integer values, and
//! a bidirectional cursor over an owned sequence.

pub mod cursor;
pub mod error;
pub mod literal;
pub mod numeric;
pub mod operator;
pub mod token;

pub use cursor::BiIterator;
pub use error::LexError;
pub use numeric::Integer;
pub use operator::Op;
pub use token::Token;
