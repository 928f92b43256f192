pub mod kimicode;
pub mod validation;
