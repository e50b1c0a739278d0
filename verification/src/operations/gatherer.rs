pub mod gatherer;
pub mod structs;
