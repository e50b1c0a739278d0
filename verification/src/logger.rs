pub mod config;
pub mod logger;
pub mod writters;
