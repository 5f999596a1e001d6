//! Front end of a small expression-oriented scripting language.
//!
//! Source text is scanned into located tokens by [`lexer::Lexer`], and the
//! token sequence is turned into a located syntax tree by [`parser::Parser`].
//! What both return is stated against a mathematical grammar over token
//! sequences, defined in [`grammar`]; [`unparse`] writes a tree of that
//! grammar back as tokens and proves that reading loses nothing.

pub mod error;
pub mod grammar;
pub mod interpreter;
pub mod lexer;
pub mod nodes;
pub mod number;
pub mod parser;
pub mod text;
pub mod tokens;
pub mod unparse;

pub use error::{Error, ErrorKind, Location};
pub use lexer::{tokenize, Lexer};
pub use number::Number;
pub use parser::Parser;
pub use tokens::{Token, TokenType};
