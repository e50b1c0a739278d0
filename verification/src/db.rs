pub mod configs;
pub mod controller;
pub mod entities;
