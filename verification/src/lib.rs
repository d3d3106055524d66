//! A parser for a small nginx-style configuration language.
//!
//! Text is turned into tokens by [`lexer::run`] and tokens into a tree of
//! [`ConfigBlock`]s by [`parser::run`]. Every executable function carries a
//! contract over the mathematical models defined next to it: `lexer::lex`
//! says which tokens a text has, `parser::parse_tokens` says which tree a
//! token sequence has, and [`parse_text`] composes the two.

use vstd::prelude::*;

pub mod config;
pub mod error;
pub mod lexer;
pub mod parser;
pub mod source;

pub use config::ConfigBlock;
pub use error::{Error as ParseError, Result};
pub use source::OwningChars;

verus! {

/// The tree of the text `s`: the tree of its tokens, parsed in strict mode.
pub open spec fn parse_text(s: Seq<char>) -> core::result::Result<
    config::BlockView,
    error::ErrorView,
> {
    match lexer::lex(s) {
        Ok(tokens) => parser::parse_tokens(tokens, false),
        Err(e) => Err(e),
    }
}

/// Parses the characters that `input` has yet to hand out.
pub fn parse(input: OwningChars) -> (r: Result<ConfigBlock>)
    ensures
        parser::parse_result_view(r) == parse_text(input@),
{
    match lexer::run(input) {
        Ok(tokens) => parser::run(tokens),
        Err(e) => Err(e),
    }
}

/// Parses the text `data`.
pub fn parse_string(data: String) -> (r: Result<ConfigBlock>)
    ensures
        parser::parse_result_view(r) == parse_text(data@),
{
    parse(OwningChars::new(data))
}

} // verus!
