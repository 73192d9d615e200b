//! Audit logging.

pub mod audit;
