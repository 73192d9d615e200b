//! The request and response bodies of the HTTP API, and what the handlers
//! decide from them.

pub mod agent;
pub mod auth;
pub mod collab;
pub mod health;
pub mod health_api;
pub mod memory;
pub mod proposal;
pub mod upload;

use vstd::prelude::*;

verus! {

/// The page size asked for: 20 when absent, at most 100.
pub open spec fn page_limit_of(limit: Option<usize>) -> usize {
    match limit {
        Some(l) => if l < 100 {
            l
        } else {
            100
        },
        None => 20,
    }
}

/// The offset asked for: 0 when absent.
pub open spec fn page_offset_of(offset: Option<usize>) -> usize {
    match offset {
        Some(o) => o,
        None => 0,
    }
}

/// The page of a listing: its size (20 when absent, at most 100) and its
/// offset (0 when absent).
pub fn page_window(limit: Option<usize>, offset: Option<usize>) -> (res: (usize, usize))
    ensures
        res == (page_limit_of(limit), page_offset_of(offset)),
{
    let l = match limit {
        Some(l) => if l < 100 {
            l
        } else {
            100
        },
        None => 20,
    };
    let o = match offset {
        Some(o) => o,
        None => 0,
    };
    (l, o)
}

/// The space a request names, or the default space.
pub open spec fn space_or_default(space_id: Option<String>) -> Seq<char> {
    match space_id {
        Some(s) => s@,
        None => "sp_default"@,
    }
}

/// The space a request names, or `sp_default`.
pub fn default_space(space_id: &Option<String>) -> (res: String)
    ensures
        res@ == space_or_default(*space_id),
{
    match space_id {
        Some(s) => s.clone(),
        None => {
            proof {
                reveal_strlit("sp_default");
            }
            String::from_str("sp_default")
        },
    }
}

} // verus!
