//! From text to statements.
//!
//! - [`lex`] splits the text into tokens.
//! - [`grammar`] says which lists of tokens are scripts, and which
//!   statements they hold.
//! - [`parse`] reads the tokens as the grammar says.
//! - [`ast`] holds what was read.
//! - [`written`] writes statements down as tokens, from which the
//!   grammar reads them back.

pub mod ast;
pub mod grammar;
pub mod lex;
pub mod parse;
pub mod written;
