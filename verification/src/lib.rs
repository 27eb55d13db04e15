//! A minimal dense multi-dimensional numeric array ("tensor") library.
//!
//! Elements are IEEE-754 binary32 values, carried as their `u32` bit
//! patterns so that the verifier can reason about them exactly.

pub mod scalar;
pub mod tensor;

pub use tensor::Tensor;
pub use tensor::TensorError;

