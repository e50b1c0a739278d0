pub mod registerer;
pub mod traits;
