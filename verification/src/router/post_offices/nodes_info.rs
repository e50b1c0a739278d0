pub mod channel;
pub mod post_office;
