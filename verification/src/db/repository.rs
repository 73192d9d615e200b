//! Repositories: the SQL the service sends for each entity, and the parts of
//! it that depend on the request.

use crate::error::AppError;
use crate::memory::model::{Provenance, ReviewStatus};
use crate::text::{decimal, push_decimal};
use vstd::prelude::*;

verus! {

/// Repository for memory rows.
pub struct MemoryRepo;

/// A value bound to a placeholder of a memory listing.
#[derive(Debug, Clone, Copy, PartialEq, Eq, Structural)]
pub enum ListParam {
    /// The space to list.
    SpaceId,
    /// One allowed provenance.
    Provenance(Provenance),
    /// The lowest trust level wanted.
    MinTrust,
    /// The review status wanted.
    ReviewStatus(ReviewStatus),
    /// The page size.
    Limit,
    /// The number of rows to skip.
    Offset,
}

/// The statements of a memory listing and the values of their placeholders,
/// in placeholder order (`?1`, `?2`, ...). The count statement binds all
/// but the last two values.
pub struct ListQuery {
    pub count_sql: String,
    pub page_sql: String,
    pub params: Vec<ListParam>,
}

/// Placeholders `?first, ?first+1, ...`, `count` of them, comma separated.
pub open spec fn placeholders(first: nat, count: nat) -> Seq<char>
    decreases count,
{
    if count == 0 {
        Seq::empty()
    } else if count == 1 {
        seq!['?'] + decimal(first)
    } else {
        placeholders(first, (count - 1) as nat) + ", ?"@ + decimal((first + count - 1) as nat)
    }
}

/// The WHERE condition of a listing with `np` provenances and the optional
/// trust and status filters.
pub open spec fn list_where(np: nat, min_trust: bool, status: bool) -> Seq<char> {
    let trust_idx = 2 + np;
    let status_idx = trust_idx + if min_trust {
        1nat
    } else {
        0nat
    };
    "space_id = ?1"@ + (if np > 0 {
        " AND provenance IN ("@ + placeholders(2, np) + ")"@
    } else {
        Seq::empty()
    }) + (if min_trust {
        " AND trust_level >= ?"@ + decimal(trust_idx)
    } else {
        Seq::empty()
    }) + (if status {
        " AND review_status = ?"@ + decimal(status_idx)
    } else {
        Seq::empty()
    })
}

/// The columns a memory row is read with.
pub open spec fn memory_columns() -> Seq<char> {
    "SELECT id, space_id, content, embedding_model, provenance, provenance_meta, trust_level, review_status, parent_conflict_id, last_accessed_at, access_count, created_at, updated_at\n             FROM memories"@
}

/// The values bound to a listing's placeholders, in order.
pub open spec fn list_params(provs: Seq<Provenance>, min_trust: bool, status: Option<ReviewStatus>) -> Seq<ListParam> {
    seq![ListParam::SpaceId] + provs.map_values(|p: Provenance| ListParam::Provenance(p)) + (if min_trust {
        seq![ListParam::MinTrust]
    } else {
        Seq::empty()
    }) + (match status {
        Some(s) => seq![ListParam::ReviewStatus(s)],
        None => Seq::empty(),
    }) + seq![ListParam::Limit, ListParam::Offset]
}

/// Append the placeholders `?first, ...`, `count` of them.
fn push_placeholders(out: &mut String, first: u64, count: u64)
    requires
        first + count <= u64::MAX,
    ensures
        final(out)@ == old(out)@ + placeholders(first as nat, count as nat),
    decreases count,
{
    if count == 0 {
        assert(old(out)@ + placeholders(first as nat, 0) =~= old(out)@);
        return;
    }
    let ghost before = out@;
    if count == 1 {
        out.append("?");
        proof {
            reveal_strlit("?");
        }
    } else {
        push_placeholders(out, first, count - 1);
        out.append(", ?");
        proof {
            reveal_strlit(", ?");
        }
    }
    push_decimal(out, first + count - 1);
    proof {
        if count == 1 {
            assert(before + placeholders(first as nat, 1) =~= before + seq!['?'] + decimal(first as nat));
        } else {
            assert(before + placeholders(first as nat, count as nat) =~= before + placeholders(
                first as nat,
                (count - 1) as nat,
            ) + ", ?"@ + decimal((first + count - 1) as nat));
        }
    }
}

impl MemoryRepo {
    /// The statements that list memories of a space, newest first, with the
    /// optional filters: allowed provenances (ignored when empty), a lowest
    /// trust level, and a review status; placeholders are numbered in the
    /// order the filters appear, the page size and offset last.
    pub fn list_query(
        provenance: Option<&[Provenance]>,
        min_trust: bool,
        review_status: Option<ReviewStatus>,
    ) -> (res: ListQuery)
        requires
            provenance matches Some(p) ==> p@.len() <= isize::MAX,
        ensures
            ({
                let provs = match provenance {
                    Some(p) => p@,
                    None => Seq::empty(),
                };
                let np = provs.len();
                let w = list_where(np, min_trust, review_status is Some);
                let limit_idx = 2 + np + (if min_trust {
                    1nat
                } else {
                    0nat
                }) + (if review_status is Some {
                    1nat
                } else {
                    0nat
                });
                &&& res.count_sql@ == "SELECT COUNT(*) FROM memories WHERE "@ + w
                &&& res.page_sql@ == memory_columns() + " WHERE "@ + w
                    + " ORDER BY created_at DESC LIMIT ?"@ + decimal(limit_idx) + " OFFSET ?"@
                    + decimal(limit_idx + 1)
                &&& res.params@ == list_params(provs, min_trust, review_status)
                &&& res.params@.len() == limit_idx + 1
            }),
    {
        let ghost provs = match provenance {
            Some(p) => p@,
            None => Seq::<Provenance>::empty(),
        };
        let np: usize = match provenance {
            Some(p) => p.len(),
            None => 0,
        };
        proof {
            reveal_strlit("space_id = ?1");
            reveal_strlit(" AND provenance IN (");
            reveal_strlit(")");
            reveal_strlit(" AND trust_level >= ?");
            reveal_strlit(" AND review_status = ?");
        }
        let mut w = String::from_str("space_id = ?1");
        let mut params: Vec<ListParam> = Vec::new();
        params.push(ListParam::SpaceId);
        let ghost w0 = w@;
        if np > 0 {
            w.append(" AND provenance IN (");
            push_placeholders(&mut w, 2, np as u64);
            w.append(")");
        }
        let ghost w1 = w@;
        assert(w1 == w0 + (if np > 0 {
            " AND provenance IN ("@ + placeholders(2, np as nat) + ")"@
        } else {
            Seq::<char>::empty()
        }));
        match provenance {
            Some(p) => {
                let mut k: usize = 0;
                while k < p.len()
                    invariant
                        k <= p@.len(),
                        params@ == seq![ListParam::SpaceId] + p@.take(k as int).map_values(
                            |q: Provenance| ListParam::Provenance(q),
                        ),
                    decreases p@.len() - k,
                {
                    params.push(ListParam::Provenance(p[k]));
                    proof {
                        assert(p@.take(k + 1).map_values(|q: Provenance| ListParam::Provenance(q))
                            =~= p@.take(k as int).map_values(|q: Provenance| ListParam::Provenance(q)).push(
                            ListParam::Provenance(p@[k as int]),
                        ));
                    }
                    k = k + 1;
                }
                assert(p@.take(p@.len() as int) =~= p@);
            },
            None => {
                assert(params@ =~= seq![ListParam::SpaceId] + Seq::<Provenance>::empty().map_values(
                    |q: Provenance| ListParam::Provenance(q),
                ));
            },
        }
        let mut idx: u64 = 2 + np as u64;
        if min_trust {
            w.append(" AND trust_level >= ?");
            push_decimal(&mut w, idx);
            params.push(ListParam::MinTrust);
            idx = idx + 1;
        }
        let ghost w2 = w@;
        match review_status {
            Some(s) => {
                w.append(" AND review_status = ?");
                push_decimal(&mut w, idx);
                params.push(ListParam::ReviewStatus(s));
                idx = idx + 1;
            },
            None => {},
        }
        proof {
            assert(w@ =~= list_where(np as nat, min_trust, review_status is Some));
        }
        let mut count_sql = String::from_str("SELECT COUNT(*) FROM memories WHERE ");
        count_sql.append(w.as_str());
        let mut page_sql = String::from_str(
            "SELECT id, space_id, content, embedding_model, provenance, provenance_meta, trust_level, review_status, parent_conflict_id, last_accessed_at, access_count, created_at, updated_at\n             FROM memories",
        );
        page_sql.append(" WHERE ");
        page_sql.append(w.as_str());
        page_sql.append(" ORDER BY created_at DESC LIMIT ?");
        push_decimal(&mut page_sql, idx);
        page_sql.append(" OFFSET ?");
        push_decimal(&mut page_sql, idx + 1);
        params.push(ListParam::Limit);
        params.push(ListParam::Offset);
        proof {
            reveal_strlit("SELECT COUNT(*) FROM memories WHERE ");
            reveal_strlit(
                "SELECT id, space_id, content, embedding_model, provenance, provenance_meta, trust_level, review_status, parent_conflict_id, last_accessed_at, access_count, created_at, updated_at\n             FROM memories",
            );
            reveal_strlit(" WHERE ");
            reveal_strlit(" ORDER BY created_at DESC LIMIT ?");
            reveal_strlit(" OFFSET ?");
            assert(params@ =~= list_params(provs, min_trust, review_status));
        }
        ListQuery { count_sql, page_sql, params }
    }
}

/// Repository for search query logs.
pub struct QueryLogRepo;

impl QueryLogRepo {
    /// The statement that records one search query; it binds the log id,
    /// space, query text, result count, query type, filters (as JSON text)
    /// and time, in that order.
    pub fn insert_sql() -> (res: &'static str)
        ensures
            res@ == "INSERT INTO query_logs (id, space_id, user_id, query, result_count, query_type, filters, created_at)\n             VALUES (?1, ?2, NULL, ?3, ?4, ?5, ?6, ?7)"@,
    {
        "INSERT INTO query_logs (id, space_id, user_id, query, result_count, query_type, filters, created_at)\n             VALUES (?1, ?2, NULL, ?3, ?4, ?5, ?6, ?7)"
    }
}

/// Repository for AI proposals; its operations are not available yet.
pub struct ProposalRepo;

/// A not-implemented error with the given message.
fn not_implemented(msg: &str) -> (res: AppError)
    ensures
        res matches AppError::NotImplemented(m) && m@ == msg@,
{
    AppError::NotImplemented(String::from_str(msg))
}

impl ProposalRepo {
    /// List proposals of a space, optionally by status: not available yet.
    pub fn list(_space_id: &str, _status: Option<&str>) -> (res: Result<Vec<String>, AppError>)
        ensures
            res matches Err(AppError::NotImplemented(m)) && m@
                == "proposal listing (planned for Sprint 3)"@,
    {
        Err(not_implemented("proposal listing (planned for Sprint 3)"))
    }

    /// Store a proposal: not available yet.
    pub fn insert(_proposal: &str) -> (res: Result<(), AppError>)
        ensures
            res matches Err(AppError::NotImplemented(m)) && m@
                == "proposal creation (planned for Sprint 3)"@,
    {
        Err(not_implemented("proposal creation (planned for Sprint 3)"))
    }

    /// Change a proposal's status: not available yet.
    pub fn update_status(_id: &str, _status: &str) -> (res: Result<(), AppError>)
        ensures
            res matches Err(AppError::NotImplemented(m)) && m@
                == "proposal status update (planned for Sprint 3)"@,
    {
        Err(not_implemented("proposal status update (planned for Sprint 3)"))
    }
}

/// Repository for notifications; its operations are not available yet.
pub struct NotificationRepo;

impl NotificationRepo {
    /// List a user's notifications: not available yet.
    pub fn list_by_user(_user_id: &str) -> (res: Result<Vec<String>, AppError>)
        ensures
            res matches Err(AppError::NotImplemented(m)) && m@
                == "notification listing (planned for Sprint 3)"@,
    {
        Err(not_implemented("notification listing (planned for Sprint 3)"))
    }

    /// Store a notification: not available yet.
    pub fn create(_notification: &str) -> (res: Result<(), AppError>)
        ensures
            res matches Err(AppError::NotImplemented(m)) && m@
                == "notification creation (planned for Sprint 3)"@,
    {
        Err(not_implemented("notification creation (planned for Sprint 3)"))
    }
}

} // verus!
