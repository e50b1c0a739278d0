pub mod base_operations;
pub mod matrices;
pub mod traits;
pub mod types;
