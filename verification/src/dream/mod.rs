//! AI proposal engine: review workflow and scan heuristics.

pub mod proposal;
