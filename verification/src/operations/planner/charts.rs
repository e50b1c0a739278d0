pub mod plans;
pub mod structs;
