pub mod configs;
pub mod traits;
pub mod writter;
pub mod utils;
