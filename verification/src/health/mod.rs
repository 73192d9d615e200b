//! Knowledge health reporting.

use vstd::prelude::*;

verus! {

/// A knowledge gap: a query that found nothing, with how often it was asked.
#[derive(Debug, Clone)]
pub struct GapEntry {
    pub query: String,
    pub count: i64,
}

} // verus!
