//! Ready-made sources of chunks of bytes.

pub mod buffer;
