//! A16 language support library: standard-library helpers, the type-system
//! core of the checker, and the agent/tool runtime bookkeeping.

pub mod stdlib;
pub mod vm;
pub mod vector;
pub mod typeck;
pub mod tensor;
