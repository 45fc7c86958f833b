//! Text embedding support: tokenizing text and hashing tokens into buckets.

pub mod embed;
pub mod index_file;
