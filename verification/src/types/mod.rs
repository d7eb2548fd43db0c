pub mod ty;
pub mod infer;
