pub mod cache;
pub mod plan;
