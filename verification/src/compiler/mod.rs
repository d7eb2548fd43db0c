pub mod bytecode;
pub mod register;
pub mod compiler;
pub mod meaning;

pub use bytecode::{Addr, ConstIdx, FunctionChunk, Instr, NameIdx, Reg};
pub use compiler::Compiler;
pub use register::RegisterAllocator;
