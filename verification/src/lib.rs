//! A single-pass tokenizer: character classes, the token vocabulary, and the
//! scanning automaton that turns a character buffer into tokens, one per call.

pub mod chars;
pub mod laws;
pub mod lex;
pub mod token;

pub use lex::next_token;
pub use token::Token;
