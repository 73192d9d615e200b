//! Conflict resolution model.

use crate::error::AppError;
use crate::memory::model::Provenance;
use crate::text::str_eq;
use vstd::prelude::*;

verus! {

/// Resolution of a conflict between two statements.
#[derive(Debug, Clone, Copy, PartialEq, Eq, Structural)]
pub enum Resolution {
    AcceptA,
    AcceptB,
    BothTrue,
}

impl Resolution {
    /// The wire name of the resolution.
    pub open spec fn spec_name(self) -> Seq<char> {
        match self {
            Resolution::AcceptA => "accept_a"@,
            Resolution::AcceptB => "accept_b"@,
            Resolution::BothTrue => "both_true"@,
        }
    }

    /// The resolution a wire name denotes, if any.
    pub open spec fn spec_parse(s: Seq<char>) -> Option<Resolution> {
        if s == "accept_a"@ {
            Some(Resolution::AcceptA)
        } else if s == "accept_b"@ {
            Some(Resolution::AcceptB)
        } else if s == "both_true"@ {
            Some(Resolution::BothTrue)
        } else {
            None
        }
    }

    /// The wire name of the resolution.
    pub fn as_str(&self) -> (res: &'static str)
        ensures
            res@ == self.spec_name(),
    {
        match self {
            Resolution::AcceptA => "accept_a",
            Resolution::AcceptB => "accept_b",
            Resolution::BothTrue => "both_true",
        }
    }

    /// Parse a requested resolution; anything but the three names is a
    /// bad request.
    pub fn parse_str(s: &str) -> (res: Result<Resolution, AppError>)
        ensures
            match Resolution::spec_parse(s@) {
                Some(r) => res == Ok::<Resolution, AppError>(r),
                None => (res matches Err(AppError::BadRequest(m)) && m@
                    == "resolution must be one of: accept_a, accept_b, both_true"@),
            },
    {
        if str_eq(s, "accept_a") {
            Ok(Resolution::AcceptA)
        } else if str_eq(s, "accept_b") {
            Ok(Resolution::AcceptB)
        } else if str_eq(s, "both_true") {
            Ok(Resolution::BothTrue)
        } else {
            Err(AppError::bad_request("resolution must be one of: accept_a, accept_b, both_true"))
        }
    }
}

/// A memory can be resolved as a conflict only when it records one.
pub fn check_conflict_record(provenance: Provenance) -> (res: Result<(), AppError>)
    ensures
        provenance == Provenance::Conflict ==> res is Ok,
        provenance != Provenance::Conflict ==> (res matches Err(AppError::BadRequest(m)) && m@
            == "memory is not a conflict record"@),
{
    if provenance == Provenance::Conflict {
        Ok(())
    } else {
        Err(AppError::bad_request("memory is not a conflict record"))
    }
}

} // verus!
