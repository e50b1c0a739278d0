pub mod config;
pub mod topics;
