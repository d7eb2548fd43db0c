//! Nimble: lexer, parser, type inference, bytecode compiler and runtime support
//! for an indentation-sensitive scripting language.

pub mod error;
pub mod lexer;
pub mod types;
pub mod parser;
pub mod text;
pub mod compiler;
pub mod vm;
pub mod ir;
pub mod jit;
pub mod profiler;
pub mod optimizer;
pub mod modules;
