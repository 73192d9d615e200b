//! Proposal and conflict API bodies.

use crate::api::{default_space, space_or_default};
use crate::dream::proposal::BatchAction;
use vstd::prelude::*;

verus! {

/// Query of a proposal listing.
#[derive(Debug, Clone)]
pub struct ListProposalsQuery {
    pub space_id: String,
    pub status: Option<String>,
    pub page: Option<i64>,
    pub limit: Option<i64>,
}

/// The page size of a proposal listing: 20 when absent, at most 100.
pub open spec fn proposal_limit(limit: Option<i64>) -> int {
    match limit {
        Some(l) => if l < 100 {
            l as int
        } else {
            100
        },
        None => 20,
    }
}

/// The offset of a proposal page: `(page - 1) * limit`, page 1 when absent,
/// never below 0.
pub open spec fn proposal_offset(page: Option<i64>, limit: Option<i64>) -> int {
    let p = match page {
        Some(p) => p as int,
        None => 1,
    };
    let o = (p - 1) * proposal_limit(limit);
    if o < 0 {
        0
    } else {
        o
    }
}

impl ListProposalsQuery {
    /// The size and offset of the page asked for.
    pub fn window(&self) -> (res: (i64, i64))
        requires
            i64::MIN <= (match self.page {
                Some(p) => p as int,
                None => 1,
            }) - 1,
            i64::MIN <= proposal_offset(self.page, self.limit) <= i64::MAX,
            i64::MIN <= ((match self.page {
                Some(p) => p as int,
                None => 1,
            }) - 1) * proposal_limit(self.limit) <= i64::MAX,
        ensures
            res.0 == proposal_limit(self.limit),
            res.1 == proposal_offset(self.page, self.limit),
    {
        let limit: i64 = match self.limit {
            Some(l) => if l < 100 {
                l
            } else {
                100
            },
            None => 20,
        };
        let page: i64 = match self.page {
            Some(p) => p,
            None => 1,
        };
        let o = (page - 1) * limit;
        let offset = if o < 0 {
            0
        } else {
            o
        };
        (limit, offset)
    }
}

/// Query of a conflict listing.
#[derive(Debug, Clone)]
pub struct ListConflictsQuery {
    pub space_id: Option<String>,
}

impl ListConflictsQuery {
    /// The space to list: the one named, or the default space.
    pub fn space(&self) -> (res: String)
        ensures
            res@ == space_or_default(self.space_id),
    {
        default_space(&self.space_id)
    }
}

/// Body of a proposal rejection.
#[derive(Debug, Clone)]
pub struct RejectBody {
    pub feedback: Option<String>,
}

/// Body of a proposal modification.
#[derive(Debug, Clone)]
pub struct ModifyBody {
    pub modified_content: String,
}

/// Body of a batch review.
#[derive(Debug, Clone)]
pub struct BatchBody {
    pub action: String,
    pub proposal_ids: Vec<String>,
    pub feedback: Option<String>,
}

impl BatchBody {
    /// The batch action the body asks for.
    pub fn into_action(self) -> (res: BatchAction)
        ensures
            res.action == self.action,
            res.proposal_ids == self.proposal_ids,
            res.feedback == self.feedback,
    {
        BatchAction { action: self.action, proposal_ids: self.proposal_ids, feedback: self.feedback }
    }
}

/// Body of a proposal scan.
#[derive(Debug, Clone)]
pub struct ScanBody {
    pub space_id: String,
}

/// Body of a conflict resolution.
#[derive(Debug, Clone)]
pub struct ResolveConflictBody {
    pub resolution: String,
}

} // verus!
