//! MCP over server-sent events: the query of a connection.

use vstd::prelude::*;

verus! {

/// Query parameters of an SSE connection.
#[derive(Debug, Clone)]
pub struct SseQuery {
    pub session_id: Option<String>,
}

} // verus!
