//! Health API bodies.

use crate::api::{default_space, space_or_default};
use vstd::prelude::*;

verus! {

/// Query of the knowledge graph.
#[derive(Debug, Clone)]
pub struct GraphQuery {
    pub space_id: Option<String>,
}

impl GraphQuery {
    /// The space to draw: the one named, or the default space.
    pub fn space(&self) -> (res: String)
        ensures
            res@ == space_or_default(self.space_id),
    {
        default_space(&self.space_id)
    }
}

/// System health: status and version.
#[derive(Debug, Clone)]
pub struct SystemHealth {
    pub status: String,
    pub version: String,
}

impl SystemHealth {
    /// A healthy system of the given version.
    pub fn ok(version: &str) -> (res: Self)
        ensures
            res.status@ == "ok"@,
            res.version@ == version@,
    {
        proof {
            reveal_strlit("ok");
        }
        SystemHealth { status: String::from_str("ok"), version: String::from_str(version) }
    }
}

/// The label of a memory in the graph: its first 40 characters.
pub fn graph_label(content: &str) -> (res: String)
    ensures
        res@ == if content@.len() <= 40 {
            content@
        } else {
            content@.subrange(0, 40)
        },
{
    let cs = crate::text::chars_of(content);
    let n = if cs.len() <= 40 {
        cs.len()
    } else {
        40
    };
    let res = crate::text::string_from_chars(&cs, 0, n);
    proof {
        if cs@.len() <= 40 {
            assert(cs@.subrange(0, n as int) =~= cs@);
        }
    }
    res
}

/// The message of a health feature that is not available yet.
pub open spec fn planned_message(feature: Seq<char>) -> Seq<char> {
    "not implemented: "@ + feature + " (planned for Sprint 5)"@
}

/// The message for a health feature not available yet.
pub fn planned_feature(feature: &str) -> (res: String)
    ensures
        res@ == planned_message(feature@),
{
    let mut m = String::from_str("not implemented: ");
    m.append(feature);
    m.append(" (planned for Sprint 5)");
    proof {
        reveal_strlit("not implemented: ");
        reveal_strlit(" (planned for Sprint 5)");
    }
    m
}

} // verus!
