//! Reading from and writing to connections, and the buffers for it.

pub mod buffer;
pub mod reader;
pub mod writer;
