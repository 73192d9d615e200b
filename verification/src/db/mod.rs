//! Persistence: the statements sent to the database.

pub mod repository;
