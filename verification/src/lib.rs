//! A streaming lexical analyzer: it consumes source text one character at a
//! time and produces classified tokens with line and column metadata, for a
//! downstream parser, formatter, or highlighter.
//!
//! The scanner is specified by a pure mathematical scanner over `Seq<char>`
//! (see [`scan`]) and the executable [`lexer::Lexer`] is proved to follow it
//! call by call.

pub mod chars;
pub mod laws;
pub mod lexer;
pub mod render;
pub mod scan;
pub mod token;

pub use lexer::Lexer;
pub use token::LexError;
pub use token::Token;
pub use token::TokenContent;
