pub mod elements;
pub mod style;
