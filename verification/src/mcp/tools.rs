//! MCP tools: the arguments they need.

use crate::error::AppError;
use vstd::prelude::*;

verus! {

/// A required string argument of a tool call, or the bad-request error
/// `missing <name>`.
pub fn required_arg(name: &str, value: Option<&str>) -> (res: Result<String, AppError>)
    ensures
        match value {
            Some(v) => res matches Ok(s) && s@ == v@,
            None => res matches Err(AppError::BadRequest(m)) && m@ == "missing "@ + name@,
        },
{
    match value {
        Some(v) => Ok(String::from_str(v)),
        None => {
            let mut m = String::from_str("missing ");
            m.append(name);
            proof {
                reveal_strlit("missing ");
            }
            Err(AppError::BadRequest(m))
        },
    }
}

/// The number of results the search tool returns: the `limit` argument,
/// or 10.
pub fn search_tool_limit(limit: Option<u64>) -> (res: u64)
    ensures
        res == match limit {
            Some(l) => l,
            None => 10,
        },
{
    match limit {
        Some(l) => l,
        None => 10,
    }
}

} // verus!
