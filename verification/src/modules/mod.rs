pub mod registry;
pub mod resolver;
