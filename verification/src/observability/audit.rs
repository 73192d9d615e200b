//! The auditor, which records who did what to which entity.

use vstd::prelude::*;

verus! {

/// Writes audit log entries.
#[derive(Debug, Clone, Default)]
pub struct Auditor;

impl Auditor {
    /// Create a new auditor.
    pub fn new() -> Self {
        Auditor
    }
}

} // verus!
