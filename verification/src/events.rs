pub mod back_office;
pub mod events;
pub mod pool;
