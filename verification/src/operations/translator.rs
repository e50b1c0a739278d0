pub mod translate;
