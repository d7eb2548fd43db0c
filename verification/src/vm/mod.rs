pub mod value;
pub mod gc;
pub mod copy;
pub mod vm;

pub use value::Value;
pub use gc::{BumpAllocator, Heap};
