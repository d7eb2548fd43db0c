pub mod chars;
pub mod spec;
pub mod token;
pub mod lexer;
pub mod balance;
pub mod spans;

pub use token::{Span, Token, TokenOf, SpecToken};
pub use lexer::Lexer;
