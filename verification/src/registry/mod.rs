//! Model artifacts: what a container holds, and what is recorded of it.

pub mod artifact;
pub mod digest;
pub mod gguf;
pub mod order;
pub mod records;
pub mod register;
pub mod store;
pub mod written;
