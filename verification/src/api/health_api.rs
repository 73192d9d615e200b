//! Health scan API bodies.

use vstd::prelude::*;

verus! {

/// Query of a space health scan.
#[derive(Debug, Clone)]
pub struct HealthScanQuery {
    pub space_id: String,
}

} // verus!
