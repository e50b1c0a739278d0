pub mod post_office;
