//! A scanner that turns a regular-expression pattern into a sequence of tokens.

pub mod laws;
pub mod lexer;
pub mod token;

pub use lexer::{lexer, scan_char};
pub use token::{
    Bracket, CurlyBrace, LexerError, Parenthesis, Quantifier, ScanState, Token, ZeroOrMore,
};
