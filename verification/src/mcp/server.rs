//! Routing of MCP (JSON-RPC) requests to the server's built-in methods and
//! tools.

use crate::error::{display_prefix, message_of, AppError};
use crate::text::str_eq;
use vstd::prelude::*;

verus! {

/// JSON-RPC error code: method (or tool) not found.
pub const METHOD_NOT_FOUND: i32 = -32601;

/// JSON-RPC error code: invalid parameters.
pub const INVALID_PARAMS: i32 = -32602;

/// JSON-RPC error code: internal error (a tool failed).
pub const INTERNAL_ERROR: i32 = -32603;

/// JSON-RPC error code: the request could not be parsed.
pub const PARSE_ERROR: i32 = -32700;

/// MCP error object.
#[derive(Debug, Clone)]
pub struct McpError {
    pub code: i32,
    pub message: String,
}

/// Where a request goes.
#[derive(Debug, Clone)]
pub enum McpRoute {
    /// Answer with the server's protocol version and capabilities.
    Initialize,
    /// Answer with the list of tools.
    ListTools,
    /// Run the named tool with the request's arguments.
    CallTool(String),
    /// Answer with this error.
    Fail(McpError),
}

/// The tools the server offers.
pub open spec fn is_tool_name(name: Seq<char>) -> bool {
    name == "search_memories"@ || name == "remember"@ || name == "get_memory"@
}

/// Whether the server offers a tool of this name.
pub fn is_known_tool(name: &str) -> (res: bool)
    ensures
        res == is_tool_name(name@),
{
    str_eq(name, "search_memories") || str_eq(name, "remember") || str_eq(name, "get_memory")
}

/// Whether a route is the error with this code and message.
pub open spec fn fails_with(r: McpRoute, code: i32, message: Seq<char>) -> bool {
    r matches McpRoute::Fail(e) && e.code == code && e.message@ == message
}

/// Route a request by its method; for `tools/call`, by whether parameters
/// were given and the tool name they carry.
pub fn route_request(method: &str, has_params: bool, tool_name: Option<&str>) -> (res: McpRoute)
    ensures
        method@ == "initialize"@ ==> res is Initialize,
        method@ == "tools/list"@ ==> res is ListTools,
        method@ == "tools/call"@ ==> if !has_params {
            fails_with(res, INVALID_PARAMS, "missing params"@)
        } else {
            match tool_name {
                None => fails_with(res, INVALID_PARAMS, "missing tool name"@),
                Some(n) => if is_tool_name(n@) {
                    res matches McpRoute::CallTool(t) && t@ == n@
                } else {
                    fails_with(res, METHOD_NOT_FOUND, "tool not found: "@ + n@)
                },
            }
        },
        method@ != "initialize"@ && method@ != "tools/list"@ && method@ != "tools/call"@
            ==> fails_with(res, METHOD_NOT_FOUND, "method not found: "@ + method@),
{
    proof {
        reveal_strlit("initialize");
        reveal_strlit("tools/list");
        reveal_strlit("tools/call");
        assert("initialize"@[0] != "tools/list"@[0]);
        assert("initialize"@[0] != "tools/call"@[0]);
        assert("tools/list"@[6] != "tools/call"@[6]);
    }
    if str_eq(method, "initialize") {
        McpRoute::Initialize
    } else if str_eq(method, "tools/list") {
        McpRoute::ListTools
    } else if str_eq(method, "tools/call") {
        if !has_params {
            return McpRoute::Fail(
                McpError { code: INVALID_PARAMS, message: String::from_str("missing params") },
            );
        }
        match tool_name {
            None => McpRoute::Fail(
                McpError { code: INVALID_PARAMS, message: String::from_str("missing tool name") },
            ),
            Some(name) => {
                if is_known_tool(name) {
                    McpRoute::CallTool(String::from_str(name))
                } else {
                    let mut m = String::from_str("tool not found: ");
                    m.append(name);
                    McpRoute::Fail(McpError { code: METHOD_NOT_FOUND, message: m })
                }
            },
        }
    } else {
        let mut m = String::from_str("method not found: ");
        m.append(method);
        McpRoute::Fail(McpError { code: METHOD_NOT_FOUND, message: m })
    }
}

/// The error a failed tool call is answered with.
pub fn tool_failure(e: &AppError) -> (res: McpError)
    ensures
        res.code == INTERNAL_ERROR,
        res.message@ == display_prefix(*e) + message_of(*e),
{
    McpError { code: INTERNAL_ERROR, message: e.to_string() }
}

/// The error an unparseable request line is answered with.
pub fn parse_failure(detail: &str) -> (res: McpError)
    ensures
        res.code == PARSE_ERROR,
        res.message@ == "parse error: "@ + detail@,
{
    let mut m = String::from_str("parse error: ");
    m.append(detail);
    McpError { code: PARSE_ERROR, message: m }
}

} // verus!
