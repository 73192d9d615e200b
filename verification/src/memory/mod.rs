//! Memories: the domain model, text preparation for indexing, and the
//! decisions of the memory service.

pub mod html;
pub mod model;
pub mod service;
