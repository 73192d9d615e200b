//! Collaboration API bodies.

use crate::api::{default_space, space_or_default};
use crate::text::{is_blank, trim_seq};
use vstd::prelude::*;

verus! {

/// Query of a context lookup while editing.
#[derive(Debug, Clone)]
pub struct ContextParams {
    pub memory_id: String,
    /// Recent text near the cursor (e.g. the last paragraph).
    pub cursor: String,
    pub space_id: Option<String>,
}

impl ContextParams {
    /// Whether there is nothing to look up: the cursor text is blank.
    pub fn is_empty_cursor(&self) -> (res: bool)
        ensures
            res == (trim_seq(self.cursor@).len() == 0),
    {
        is_blank(self.cursor.as_str())
    }

    /// The space to search: the one named, or the default space.
    pub fn space(&self) -> (res: String)
        ensures
            res@ == space_or_default(self.space_id),
    {
        default_space(&self.space_id)
    }
}

} // verus!
