//! Memory domain model: provenance, review status, visibility and request
//! types.

use crate::auth::model::invalid_value;
use crate::error::AppError;
use crate::text::{is_blank, str_eq, trim_seq};
use vstd::prelude::*;

verus! {

// ============================================================
// Provenance
// ============================================================

/// Where a memory came from.
#[derive(Debug, Clone, Copy, PartialEq, Eq, Structural, Default)]
pub enum Provenance {
    /// Human-authored memory.
    #[default]
    Human,
    /// AI-generated memory.
    Ai,
    /// Human-AI collaboration.
    Co,
    /// Conflict memory (result of contradiction detection).
    Conflict,
}

impl Provenance {
    /// The wire name of the provenance.
    pub open spec fn spec_name(self) -> Seq<char> {
        match self {
            Provenance::Human => "human"@,
            Provenance::Ai => "ai"@,
            Provenance::Co => "co"@,
            Provenance::Conflict => "conflict"@,
        }
    }

    /// The provenance a wire name denotes, if any.
    pub open spec fn spec_parse(s: Seq<char>) -> Option<Provenance> {
        if s == "human"@ {
            Some(Provenance::Human)
        } else if s == "ai"@ {
            Some(Provenance::Ai)
        } else if s == "co"@ {
            Some(Provenance::Co)
        } else if s == "conflict"@ {
            Some(Provenance::Conflict)
        } else {
            None
        }
    }

    /// Review status a new memory of this provenance starts in.
    pub open spec fn spec_default_review_status(self) -> ReviewStatus {
        match self {
            Provenance::Human | Provenance::Co => ReviewStatus::Accepted,
            Provenance::Ai | Provenance::Conflict => ReviewStatus::Pending,
        }
    }

    /// Default review status for this provenance.
    pub fn default_review_status(&self) -> (res: ReviewStatus)
        ensures
            res == self.spec_default_review_status(),
    {
        match self {
            Provenance::Human => ReviewStatus::Accepted,
            Provenance::Co => ReviewStatus::Accepted,
            Provenance::Ai => ReviewStatus::Pending,
            Provenance::Conflict => ReviewStatus::Pending,
        }
    }

    /// String representation.
    pub fn as_str(&self) -> (res: &'static str)
        ensures
            res@ == self.spec_name(),
    {
        match self {
            Provenance::Human => "human",
            Provenance::Ai => "ai",
            Provenance::Co => "co",
            Provenance::Conflict => "conflict",
        }
    }

    /// Parse from string.
    pub fn parse_str(s: &str) -> (res: Result<Self, String>)
        ensures
            match Provenance::spec_parse(s@) {
                Some(p) => res == Ok::<Provenance, String>(p),
                None => res matches Err(m) && m@ == "invalid provenance: "@ + s@,
            },
    {
        if str_eq(s, "human") {
            Ok(Provenance::Human)
        } else if str_eq(s, "ai") {
            Ok(Provenance::Ai)
        } else if str_eq(s, "co") {
            Ok(Provenance::Co)
        } else if str_eq(s, "conflict") {
            Ok(Provenance::Conflict)
        } else {
            Err(invalid_value("invalid provenance: ", s))
        }
    }
}

// ============================================================
// ReviewStatus
// ============================================================

/// Memory review status.
#[derive(Debug, Clone, Copy, PartialEq, Eq, Structural, Default)]
pub enum ReviewStatus {
    /// Pending review (AI-generated or conflict memories).
    Pending,
    /// Accepted (reviewed and approved, or human-authored).
    #[default]
    Accepted,
    /// Rejected (reviewed and rejected).
    Rejected,
    /// Expired (not reviewed within the retention period).
    Expired,
}

impl ReviewStatus {
    /// The wire name of the status.
    pub open spec fn spec_name(self) -> Seq<char> {
        match self {
            ReviewStatus::Pending => "pending"@,
            ReviewStatus::Accepted => "accepted"@,
            ReviewStatus::Rejected => "rejected"@,
            ReviewStatus::Expired => "expired"@,
        }
    }

    /// The status a wire name denotes, if any.
    pub open spec fn spec_parse(s: Seq<char>) -> Option<ReviewStatus> {
        if s == "pending"@ {
            Some(ReviewStatus::Pending)
        } else if s == "accepted"@ {
            Some(ReviewStatus::Accepted)
        } else if s == "rejected"@ {
            Some(ReviewStatus::Rejected)
        } else if s == "expired"@ {
            Some(ReviewStatus::Expired)
        } else {
            None
        }
    }

    /// Whether memories in this status are active (visible in search).
    pub open spec fn spec_is_active(self) -> bool {
        self == ReviewStatus::Accepted || self == ReviewStatus::Pending
    }

    /// Whether this memory is active (visible in search).
    pub fn is_active(&self) -> (res: bool)
        ensures
            res == self.spec_is_active(),
    {
        match self {
            ReviewStatus::Accepted | ReviewStatus::Pending => true,
            _ => false,
        }
    }

    /// String representation.
    pub fn as_str(&self) -> (res: &'static str)
        ensures
            res@ == self.spec_name(),
    {
        match self {
            ReviewStatus::Pending => "pending",
            ReviewStatus::Accepted => "accepted",
            ReviewStatus::Rejected => "rejected",
            ReviewStatus::Expired => "expired",
        }
    }

    /// Parse from string.
    pub fn parse_str(s: &str) -> (res: Result<Self, String>)
        ensures
            match ReviewStatus::spec_parse(s@) {
                Some(r) => res == Ok::<ReviewStatus, String>(r),
                None => res matches Err(m) && m@ == "invalid review_status: "@ + s@,
            },
    {
        if str_eq(s, "pending") {
            Ok(ReviewStatus::Pending)
        } else if str_eq(s, "accepted") {
            Ok(ReviewStatus::Accepted)
        } else if str_eq(s, "rejected") {
            Ok(ReviewStatus::Rejected)
        } else if str_eq(s, "expired") {
            Ok(ReviewStatus::Expired)
        } else {
            Err(invalid_value("invalid review_status: ", s))
        }
    }
}

// ============================================================
// Visibility
// ============================================================

/// Memory visibility.
#[derive(Debug, Clone, Copy, PartialEq, Eq, Structural, Default)]
pub enum Visibility {
    /// Inherit space visibility.
    #[default]
    Inherit,
    /// Only space members can see.
    SpaceOnly,
    /// Only author / space owner.
    Private,
    /// Only selected users (memory permissions).
    Selected,
}

impl Visibility {
    /// The wire name of the visibility.
    pub open spec fn spec_name(self) -> Seq<char> {
        match self {
            Visibility::Inherit => "inherit"@,
            Visibility::SpaceOnly => "space_only"@,
            Visibility::Private => "private"@,
            Visibility::Selected => "selected"@,
        }
    }

    /// The visibility a wire name denotes, if any.
    pub open spec fn spec_parse(s: Seq<char>) -> Option<Visibility> {
        if s == "inherit"@ {
            Some(Visibility::Inherit)
        } else if s == "space_only"@ {
            Some(Visibility::SpaceOnly)
        } else if s == "private"@ {
            Some(Visibility::Private)
        } else if s == "selected"@ {
            Some(Visibility::Selected)
        } else {
            None
        }
    }

    /// String representation.
    pub fn as_str(&self) -> (res: &'static str)
        ensures
            res@ == self.spec_name(),
    {
        match self {
            Visibility::Inherit => "inherit",
            Visibility::SpaceOnly => "space_only",
            Visibility::Private => "private",
            Visibility::Selected => "selected",
        }
    }

    /// Parse from string.
    pub fn parse_str(s: &str) -> (res: Result<Self, String>)
        ensures
            match Visibility::spec_parse(s@) {
                Some(v) => res == Ok::<Visibility, String>(v),
                None => res matches Err(m) && m@ == "invalid visibility: "@ + s@,
            },
    {
        if str_eq(s, "inherit") {
            Ok(Visibility::Inherit)
        } else if str_eq(s, "space_only") {
            Ok(Visibility::SpaceOnly)
        } else if str_eq(s, "private") {
            Ok(Visibility::Private)
        } else if str_eq(s, "selected") {
            Ok(Visibility::Selected)
        } else {
            Err(invalid_value("invalid visibility: ", s))
        }
    }
}

/// Every provenance, review status and visibility name parses back to the
/// value it names.
pub proof fn lemma_memory_names_roundtrip(p: Provenance, r: ReviewStatus, v: Visibility)
    ensures
        Provenance::spec_parse(p.spec_name()) == Some(p),
        ReviewStatus::spec_parse(r.spec_name()) == Some(r),
        Visibility::spec_parse(v.spec_name()) == Some(v),
{
    reveal_strlit("human");
    reveal_strlit("ai");
    reveal_strlit("co");
    reveal_strlit("conflict");
    reveal_strlit("pending");
    reveal_strlit("accepted");
    reveal_strlit("rejected");
    reveal_strlit("expired");
    reveal_strlit("inherit");
    reveal_strlit("space_only");
    reveal_strlit("private");
    reveal_strlit("selected");
    assert("human"@[0] != "ai"@[0]);
    assert("human"@[0] != "co"@[0]);
    assert("human"@[0] != "conflict"@[0]);
    assert("ai"@[0] != "co"@[0]);
    assert("ai"@[0] != "conflict"@[0]);
    assert("co"@.len() != "conflict"@.len());
    assert("pending"@[0] != "accepted"@[0]);
    assert("pending"@[0] != "rejected"@[0]);
    assert("pending"@[0] != "expired"@[0]);
    assert("accepted"@[0] != "rejected"@[0]);
    assert("accepted"@[0] != "expired"@[0]);
    assert("rejected"@[0] != "expired"@[0]);
    assert("inherit"@[0] != "space_only"@[0]);
    assert("inherit"@[0] != "private"@[0]);
    assert("inherit"@[0] != "selected"@[0]);
    assert("space_only"@[0] != "private"@[0]);
    assert("space_only"@[1] != "selected"@[1]);
    assert("private"@[0] != "selected"@[0]);
}

/// A new memory starts active whatever its provenance.
pub proof fn lemma_default_review_status_active(p: Provenance)
    ensures
        p.spec_default_review_status().spec_is_active(),
{
}

// ============================================================
// Request types
// ============================================================

/// The text fields of a memory request must not be blank: the content
/// first, then the space. (The trust level, if given, is checked against
/// `0.0..=1.0` by the caller.)
pub fn check_memory_text(content: &str, space_id: &str) -> (res: Result<(), AppError>)
    ensures
        (trim_seq(content@).len() > 0 && trim_seq(space_id@).len() > 0) <==> res is Ok,
        trim_seq(content@).len() == 0 ==> (res matches Err(AppError::BadRequest(m)) && m@
            == "content must not be empty"@),
        trim_seq(content@).len() > 0 && trim_seq(space_id@).len() == 0 ==> (res matches Err(
            AppError::BadRequest(m),
        ) && m@ == "space_id must not be empty"@),
{
    if is_blank(content) {
        proof {
            reveal_strlit("content must not be empty");
        }
        return Err(AppError::BadRequest(String::from_str("content must not be empty")));
    }
    if is_blank(space_id) {
        proof {
            reveal_strlit("space_id must not be empty");
        }
        return Err(AppError::BadRequest(String::from_str("space_id must not be empty")));
    }
    Ok(())
}

/// Request to update memory visibility.
#[derive(Debug, Clone)]
pub struct UpdateVisibilityRequest {
    pub visibility: Visibility,
}

/// Request to save a new version.
#[derive(Debug, Clone)]
pub struct SaveVersionRequest {
    pub content: String,
    pub edit_summary: Option<String>,
}

/// Conflict resolution strategy.
#[derive(Debug, Clone, Copy, PartialEq, Eq, Structural)]
pub enum ConflictResolution {
    Mine,
    Theirs,
    Merge,
}

/// Request to resolve a conflict.
#[derive(Debug, Clone)]
pub struct ConflictResolutionRequest {
    pub resolution: ConflictResolution,
    pub content: Option<String>,
}

/// Request to recall context.
#[derive(Debug, Clone)]
pub struct RecallRequest {
    /// Context text to find related memories for.
    pub context: String,
    /// Space ID.
    pub space_id: String,
    /// Maximum number of memories to return.
    pub limit: usize,
}

/// Default number of memories a recall returns.
pub fn default_recall_limit() -> (res: usize)
    ensures
        res == 10,
{
    10
}

} // verus!
