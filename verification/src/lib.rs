pub mod complex;
pub mod escape;
pub mod grid;
pub mod text;
