//! Model Context Protocol server: request routing.

pub mod server;
pub mod sse;
pub mod tools;
