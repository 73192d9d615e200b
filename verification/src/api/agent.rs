//! Agent API bodies: remembering through an API key, and managing keys.

use crate::api::{page_limit_of, page_offset_of, page_window};
use crate::auth::model::ApiKey;
use crate::memory::model::ReviewStatus;
use vstd::prelude::*;

verus! {

/// Response to an agent's remember request.
#[derive(Debug, Clone)]
pub struct AgentRememberResponse {
    pub id: String,
    pub review_status: String,
}

impl AgentRememberResponse {
    /// The response for a stored memory.
    pub fn new(id: String, review_status: ReviewStatus) -> (res: Self)
        ensures
            res.id@ == id@,
            res.review_status@ == review_status.spec_name(),
    {
        AgentRememberResponse { id, review_status: String::from_str(review_status.as_str()) }
    }
}

/// Request to create an API key.
#[derive(Debug, Clone)]
pub struct CreateApiKeyRequest {
    pub name: String,
    pub scope: String,
    pub expires_at: Option<i64>,
}

/// Response to creating an API key: the only time the secret is shown.
#[derive(Debug, Clone)]
pub struct CreateApiKeyResponse {
    pub id: String,
    pub key: String,
    pub name: String,
    pub scope: String,
    pub expires_at: Option<i64>,
    pub created_at: i64,
}

impl CreateApiKeyResponse {
    /// The response for a stored key and its secret.
    pub fn from_key(k: &ApiKey, raw_key: String) -> (res: Self)
        ensures
            res.id@ == k.id@,
            res.key@ == raw_key@,
            res.name@ == k.name@,
            res.scope@ == k.scope@,
            res.expires_at == k.expires_at,
            res.created_at == k.created_at,
    {
        CreateApiKeyResponse {
            id: k.id.clone(),
            key: raw_key,
            name: k.name.clone(),
            scope: k.scope.clone(),
            expires_at: k.expires_at,
            created_at: k.created_at,
        }
    }
}

/// An API key as listed: everything but its hash.
#[derive(Debug, Clone)]
pub struct ApiKeyResponse {
    pub id: String,
    pub space_id: String,
    pub user_id: String,
    pub scope: String,
    pub name: String,
    pub expires_at: Option<i64>,
    pub last_used_at: Option<i64>,
    pub created_at: i64,
}

impl ApiKeyResponse {
    /// The listing of a stored key.
    pub fn from_key(k: &ApiKey) -> (res: Self)
        ensures
            res.id@ == k.id@,
            res.space_id@ == k.space_id@,
            res.user_id@ == k.user_id@,
            res.scope@ == k.scope@,
            res.name@ == k.name@,
            res.expires_at == k.expires_at,
            res.last_used_at == k.last_used_at,
            res.created_at == k.created_at,
    {
        ApiKeyResponse {
            id: k.id.clone(),
            space_id: k.space_id.clone(),
            user_id: k.user_id.clone(),
            scope: k.scope.clone(),
            name: k.name.clone(),
            expires_at: k.expires_at,
            last_used_at: k.last_used_at,
            created_at: k.created_at,
        }
    }
}

/// Query of an API key listing.
#[derive(Debug, Clone)]
pub struct ListApiKeysQuery {
    pub limit: Option<usize>,
    pub offset: Option<usize>,
}

impl ListApiKeysQuery {
    /// The page asked for.
    pub fn page(&self) -> (res: (usize, usize))
        ensures
            res == (page_limit_of(self.limit), page_offset_of(self.offset)),
    {
        page_window(self.limit, self.offset)
    }
}

/// A page of API keys.
#[derive(Debug, Clone)]
pub struct ListApiKeysResponse {
    pub keys: Vec<ApiKeyResponse>,
    pub total: usize,
}

/// The secret of a new API key: `ak_` and 32 random lowercase hex digits.
pub fn new_api_key_secret() -> (res: String)
    ensures
        res@.len() == 35,
        res@.subrange(0, 3) == "ak_"@,
        forall|i: int| 3 <= i < 35 ==> crate::text::is_lower_hex_digit(#[trigger] res@[i]),
{
    let s = crate::generate_id("ak");
    proof {
        reveal_strlit("ak");
        reveal_strlit("ak_");
        assert(s@.subrange(0, 3) =~= "ak_"@);
    }
    s
}

} // verus!
