//! A lexer for a small C-like scripting language.
//!
//! Source text is turned into a flat sequence of [`Token`]s in one pass, with the
//! line and column of the first failure reported in a [`LexerError`]. What the
//! lexer produces is fixed by the spec functions of [`grammar`], and every
//! executable function is proved against them.

pub mod error;
pub mod grammar;
pub mod laws;
pub mod lexer;
pub mod number;
pub mod strings;
pub mod token;
pub mod unicode;

pub use error::LexerError;
pub use lexer::Lexer;
pub use token::Token;
pub use unicode::Symbol;
