//! Knowledge conflicts: resolution choices.

pub mod model;
