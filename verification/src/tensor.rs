//! Tensors: the shape arithmetic behind element-wise operations, matrix products
//! and transposition.

pub mod shape;
