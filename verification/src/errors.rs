pub mod thot_errors;
