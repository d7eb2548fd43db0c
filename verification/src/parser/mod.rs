pub mod ast;
pub mod ast_ops;
pub mod spec;
pub mod parser;
pub mod grammar;
pub mod respan;

pub use parser::{Parser, Precedence};
