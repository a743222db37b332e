//! Parser combinators whose behaviour is stated over a mathematical model of
//! the input: each parser has a spec function from an input state to the
//! next state and a result, and its executable `parse` is proved to follow it.
//!
//! Small parsers (`prefix`, `parse_while`, `any_char`, `wrap`, `fail`) are
//! combined into larger ones (`sequence_keep_left`, `sequence_keep_right`,
//! `sequence_pair`, `alternative`, `optional`, `many_exact`, `many`, `map`,
//! `bind`), and `run` applies a parser to a whole input.
pub mod state;
pub mod chars;
pub mod primitives;
pub mod combinators;
pub mod transform;
pub mod laws;

pub use crate::chars::{CharClass, CharPredicate};
pub use crate::combinators::{
    alternative, many, many_exact, optional, sequence_keep_left, sequence_keep_right,
    sequence_pair, KeepLeft, KeepRight, Many, ManyExact, Optional, Or, Pair,
};
pub use crate::primitives::{any_char, fail, parse_while, prefix, wrap, AnyChar, Fail, ParseWhile, Prefix, Wrap};
pub use crate::state::{input_sub, make_input, run, Parser, ParserError, ParserState};
pub use crate::transform::{bind, AndThen, Mapped};
