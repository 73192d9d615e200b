//! The decisions of the memory service: who may write, which reviews are
//! allowed, and what each new version of a memory holds.

use crate::auth::model::{AgentContext, GlobalRole, SpaceRole};
use crate::error::AppError;
use crate::memory::model::{ConflictResolution, Provenance, ReviewStatus, Visibility};
use crate::text::{decimal, push_decimal, str_eq};
use vstd::prelude::*;

verus! {

/// A saved version of a memory's content.
#[derive(Debug, Clone)]
pub struct MemoryVersion {
    pub id: String,
    pub memory_id: String,
    pub space_id: String,
    pub version_seq: i64,
    pub content: String,
    pub editor_id: Option<String>,
    pub edit_summary: Option<String>,
    pub diff: Option<String>,
    pub created_at: i64,
}

/// Whether an agent may write memories: an administrator, a space owner,
/// or a key with the `write` or `admin` scope.
pub open spec fn agent_may_write(agent: AgentContext) -> bool {
    ||| agent.user_role == GlobalRole::Admin
    ||| agent.space_role == Some(SpaceRole::Owner)
    ||| agent.scope@ == "write"@
    ||| agent.scope@ == "admin"@
}

/// How a memory an agent writes is labelled.
#[derive(Debug, Clone)]
pub struct AgentWriteLabels {
    pub provenance: Provenance,
    pub review_status: ReviewStatus,
    pub author_id: String,
    pub visibility: Visibility,
}

/// The labels of a memory an agent writes: written by AI, pending review,
/// authored by the key's user, with the visibility asked for, else
/// inherited from the space.
pub fn agent_write_labels(agent: &AgentContext, visibility: Option<Visibility>) -> (res:
    AgentWriteLabels)
    ensures
        res.provenance == Provenance::Ai,
        res.review_status == ReviewStatus::Pending,
        res.author_id@ == agent.user_id@,
        res.visibility == match visibility {
            Some(v) => v,
            None => Visibility::Inherit,
        },
{
    AgentWriteLabels {
        provenance: Provenance::Ai,
        review_status: ReviewStatus::Pending,
        author_id: agent.user_id.clone(),
        visibility: match visibility {
            Some(v) => v,
            None => Visibility::Inherit,
        },
    }
}

/// Refuse an agent that may not write memories.
pub fn check_agent_write(agent: &AgentContext) -> (res: Result<(), AppError>)
    ensures
        agent_may_write(*agent) <==> res is Ok,
        res matches Err(e) ==> e matches AppError::Forbidden(m) && m@
            == "api key scope does not allow write"@,
{
    let owner = match agent.space_role {
        Some(SpaceRole::Owner) => true,
        _ => false,
    };
    proof {
        reveal_strlit("write");
        reveal_strlit("admin");
    }
    if agent.user_role == GlobalRole::Admin || owner || str_eq(agent.scope.as_str(), "write")
        || str_eq(agent.scope.as_str(), "admin") {
        Ok(())
    } else {
        proof {
            reveal_strlit("api key scope does not allow write");
        }
        Err(AppError::Forbidden(String::from_str("api key scope does not allow write")))
    }
}

/// The error for reviewing a memory that is not pending.
pub open spec fn not_pending_message(id: Seq<char>, status: ReviewStatus) -> Seq<char> {
    "memory "@ + id + " is not pending review (current: "@ + status.spec_name() + ")"@
}

/// Only pending memories can be adopted or rejected.
pub fn check_pending(id: &str, status: ReviewStatus) -> (res: Result<(), AppError>)
    ensures
        status == ReviewStatus::Pending <==> res is Ok,
        res matches Err(e) ==> e matches AppError::BadRequest(m) && m@ == not_pending_message(
            id@,
            status,
        ),
{
    if status == ReviewStatus::Pending {
        return Ok(());
    }
    let mut m = String::from_str("memory ");
    m.append(id);
    m.append(" is not pending review (current: ");
    m.append(status.as_str());
    m.append(")");
    proof {
        reveal_strlit("memory ");
        reveal_strlit(" is not pending review (current: ");
        reveal_strlit(")");
    }
    Err(AppError::BadRequest(m))
}

/// The diff summary of an edit: `"no changes"`, or the old text after `-`
/// and the new one after `+` on the next line.
pub open spec fn diff_text(old: Seq<char>, new: Seq<char>) -> Seq<char> {
    if old == new {
        "no changes"@
    } else {
        "-"@ + old + "\n+"@ + new
    }
}

/// Summarise an edit from `old` to `new`.
pub fn compute_diff(old: &str, new: &str) -> (res: String)
    ensures
        res@ == diff_text(old@, new@),
{
    proof {
        reveal_strlit("no changes");
        reveal_strlit("-");
        reveal_strlit("\n+");
    }
    if str_eq(old, new) {
        return String::from_str("no changes");
    }
    let mut d = String::from_str("-");
    d.append(old);
    d.append("\n+");
    d.append(new);
    d
}

/// The content a conflict resolution keeps: the submitted content, or for
/// `Mine` and `Theirs` the current one when none was submitted; `Merge`
/// needs submitted content.
pub fn resolution_content(resolution: ConflictResolution, content: Option<String>, current: &str) -> (res: Result<String, AppError>)
    ensures
        match content {
            Some(c) => res matches Ok(r) && r@ == c@,
            None => match resolution {
                ConflictResolution::Merge => res matches Err(AppError::BadRequest(m)) && m@
                    == "merge resolution requires explicit content"@,
                _ => res matches Ok(r) && r@ == current@,
            },
        },
{
    match content {
        Some(c) => Ok(c),
        None => match resolution {
            ConflictResolution::Merge => {
                proof {
                    reveal_strlit("merge resolution requires explicit content");
                }
                Err(
                    AppError::BadRequest(
                        String::from_str("merge resolution requires explicit content"),
                    ),
                )
            },
            _ => Ok(String::from_str(current)),
        },
    }
}

/// The name a resolution is recorded under.
pub open spec fn resolution_name(r: ConflictResolution) -> Seq<char> {
    match r {
        ConflictResolution::Mine => "Mine"@,
        ConflictResolution::Theirs => "Theirs"@,
        ConflictResolution::Merge => "Merge"@,
    }
}

/// The summary of a version made by resolving a conflict.
pub fn resolution_summary(r: ConflictResolution) -> (res: String)
    ensures
        res@ == "conflict resolution: "@ + resolution_name(r),
{
    let mut s = String::from_str("conflict resolution: ");
    proof {
        reveal_strlit("conflict resolution: ");
        reveal_strlit("Mine");
        reveal_strlit("Theirs");
        reveal_strlit("Merge");
    }
    match r {
        ConflictResolution::Mine => s.append("Mine"),
        ConflictResolution::Theirs => s.append("Theirs"),
        ConflictResolution::Merge => s.append("Merge"),
    }
    s
}

/// The decimal numeral of a signed number.
pub open spec fn signed_decimal(n: int) -> Seq<char> {
    if n < 0 {
        seq!['-'] + decimal((-n) as nat)
    } else {
        decimal(n as nat)
    }
}

/// The summary of a version made by reverting to version `seq`.
pub fn revert_summary(seq: i64) -> (res: String)
    ensures
        res@ == "revert to version "@ + signed_decimal(seq as int),
{
    let mut s = String::from_str("revert to version ");
    proof {
        reveal_strlit("revert to version ");
    }
    if seq < 0 {
        crate::text::push_char(&mut s, '-');
        let m: u64 = if seq == i64::MIN {
            9223372036854775808u64
        } else {
            (-seq) as u64
        };
        push_decimal(&mut s, m);
        proof {
            assert(s@ =~= "revert to version "@ + signed_decimal(seq as int));
        }
    } else {
        push_decimal(&mut s, seq as u64);
    }
    s
}

/// A version can only be reverted to from its own memory.
pub fn check_version_owner(version_memory_id: &str, memory_id: &str) -> (res: Result<(), AppError>)
    ensures
        version_memory_id@ == memory_id@ <==> res is Ok,
        res matches Err(e) ==> e matches AppError::BadRequest(m) && m@
            == "version does not belong to memory"@,
{
    if str_eq(version_memory_id, memory_id) {
        Ok(())
    } else {
        proof {
            reveal_strlit("version does not belong to memory");
        }
        Err(AppError::BadRequest(String::from_str("version does not belong to memory")))
    }
}

impl MemoryVersion {
    /// The version that follows `prev_seq`: it holds the new content, its
    /// editor and summary, and the diff from the previous content.
    pub fn next(
        id: String,
        memory_id: &str,
        space_id: &str,
        prev_seq: i64,
        previous: &str,
        content: &str,
        editor_id: &str,
        edit_summary: Option<String>,
        now: i64,
    ) -> (res: MemoryVersion)
        requires
            prev_seq < i64::MAX,
        ensures
            res.id@ == id@,
            res.memory_id@ == memory_id@,
            res.space_id@ == space_id@,
            res.version_seq == prev_seq + 1,
            res.content@ == content@,
            res.editor_id matches Some(e) && e@ == editor_id@,
            res.edit_summary == edit_summary,
            res.diff matches Some(d) && d@ == diff_text(previous@, content@),
            res.created_at == now,
    {
        MemoryVersion {
            id,
            memory_id: String::from_str(memory_id),
            space_id: String::from_str(space_id),
            version_seq: prev_seq + 1,
            content: String::from_str(content),
            editor_id: Some(String::from_str(editor_id)),
            edit_summary,
            diff: Some(compute_diff(previous, content)),
            created_at: now,
        }
    }
}

} // verus!
