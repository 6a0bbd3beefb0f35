//! A left-to-right arithmetic expression evaluator.
//!
//! The pipeline has three stages: `lex` re-splits raw arguments on
//! whitespace, `parse` classifies tokens into numbers, operators and
//! parenthesised groups, and `Evaluator` decides, token by token, what
//! happens to the running accumulator.
pub mod eval;
pub mod lex;
pub mod ops;
pub mod parse;
pub mod text;

pub use ops::Operators;
pub use eval::{Evaluator, Step};
pub use lex::lex;
pub use parse::{parse, Item, ParseError};
