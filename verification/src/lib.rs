//! The verified core of the Mehoy local model runtime.

pub mod backend;
pub mod cancel;
pub mod cli;
pub mod daemon;
pub mod entropy;
pub mod event;
pub mod http;
pub mod id;
pub mod inference;
pub mod protocol;
pub mod registry;
pub mod stream;
pub mod text;
pub mod transport;
pub mod worker;
