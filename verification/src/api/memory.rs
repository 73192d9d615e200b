//! Memory API bodies.

use crate::api::{page_limit_of, page_offset_of, page_window};
use crate::memory::service::MemoryVersion;
use vstd::prelude::*;

verus! {

/// Query of a version listing.
#[derive(Debug, Clone)]
pub struct ListVersionsQuery {
    pub limit: Option<usize>,
    pub offset: Option<usize>,
}

impl ListVersionsQuery {
    /// The page asked for.
    pub fn page(&self) -> (res: (usize, usize))
        ensures
            res == (page_limit_of(self.limit), page_offset_of(self.offset)),
    {
        page_window(self.limit, self.offset)
    }
}

/// A page of versions of a memory.
#[derive(Debug, Clone)]
pub struct ListVersionsResponse {
    pub versions: Vec<MemoryVersion>,
    pub total: usize,
    pub limit: usize,
    pub offset: usize,
}

} // verus!
