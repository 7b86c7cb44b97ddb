pub mod circuit;
pub mod r1cs;
pub mod scalar;
