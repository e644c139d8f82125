//! A scanner for a small scripting language: it turns a text into tokens,
//! one per request, and is proved to follow the lexical grammar that the
//! module `grammar` states.

pub mod chars;
pub mod error;
pub mod grammar;
pub mod laws;
pub mod lexer;
pub mod std_specs;
pub mod token;

pub use error::LexError;
pub use lexer::Lexer;
pub use token::{Token, TokenType, TokenView};
