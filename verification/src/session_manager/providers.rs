pub mod dsh;
pub mod kimicode;
pub mod utils;
