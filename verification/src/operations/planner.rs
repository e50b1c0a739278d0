pub mod charts;
pub mod organizer;
