//! A tokenizer for a small Pascal-like language.
//!
//! The text is scanned one character at a time into identifiers, reserved
//! words, unsigned integers and delimiters; a character that starts none of
//! these becomes an `Unknown` token. Every function is specified against the
//! grammar in [`grammar`], a set of spec functions over `Seq<char>`.

pub mod chars;
pub mod grammar;
pub mod laws;
pub mod lexer;
pub mod strings;
pub mod token;

pub use lexer::{Content, TokenIterator};
pub use token::{Token, TokenType, TokenView};
