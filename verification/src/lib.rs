//! epicode-kb: enterprise knowledge base with memory provenance,
//! hybrid search and an AI proposal engine.
//!
//! This crate holds the verified core of the service: the domain models,
//! access control, text processing, document chunking, proposal review and
//! collaboration-room bookkeeping. Network, database and index I/O live in
//! the application crate around it.

pub mod api;
pub mod auth;
pub mod collab;
pub mod config;
pub mod conflict;
pub mod db;
pub mod dream;
pub mod embed;
pub mod error;
pub mod health;
pub mod llm;
pub mod mcp;
pub mod memory;
pub mod notify;
pub mod observability;
pub mod parse;
pub mod search;
pub mod text;

use vstd::prelude::*;

verus! {

/// The 32 lowercase hexadecimal digits of a fresh random UUID v4.
///
/// Wraps `uuid::Uuid::new_v4().simple()`: the simple format is documented as
/// 32 lowercase hex digits without hyphens. Which digits come out is random.
#[verifier::external_body]
fn uuid_v4_simple() -> (res: String)
    ensures
        res@.len() == 32,
        forall|i: int| 0 <= i < 32 ==> crate::text::is_lower_hex_digit(#[trigger] res@[i]),
{
    uuid::Uuid::new_v4().simple().to_string()
}

/// Generate a prefixed UUID v4 identifier without hyphens,
/// e.g. `generate_id("mem")` gives `"mem_a1b2c3d4e5f6..."`.
pub fn generate_id(prefix: &str) -> (res: String)
    ensures
        res@.len() == prefix@.len() + 33,
        res@.subrange(0, prefix@.len() as int) == prefix@,
        res@[prefix@.len() as int] == '_',
        forall|i: int|
            prefix@.len() < i < res@.len() ==> crate::text::is_lower_hex_digit(#[trigger] res@[i]),
{
    let mut res = String::from_str(prefix);
    crate::text::push_char(&mut res, '_');
    let hex = uuid_v4_simple();
    res.append(hex.as_str());
    res
}

/// Current Unix timestamp in seconds.
///
/// Wraps `chrono::Utc::now().timestamp()`; the value depends on the clock,
/// so nothing is promised of it.
#[verifier::external_body]
pub fn now_ts() -> i64 {
    chrono::Utc::now().timestamp()
}

} // verus!
