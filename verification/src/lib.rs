pub mod algebra;
pub mod arithmetic;
pub mod error;
pub mod grid;
pub mod integers;
pub mod integral;
pub mod laws;
pub mod matrix;
pub mod ops;
pub mod render;
pub mod scalar;
pub mod sums;
