pub mod objects;
