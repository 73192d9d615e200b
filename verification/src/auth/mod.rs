//! Authentication and authorization: users, roles, RBAC, tokens, API keys.

pub mod jwt;
pub mod middleware;
pub mod model;
pub mod rbac;
pub mod service;
