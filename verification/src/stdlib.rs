//! Extended standard library: collections, math, strings, paths and OS helpers.

pub mod collections;
pub mod math;
pub mod text;
pub mod string;
pub mod io;
pub mod os;
