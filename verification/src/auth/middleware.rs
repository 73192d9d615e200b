//! Request authentication decisions: which credentials a request carries
//! and what the middleware does with the outcome of checking them.

use crate::auth::model::{Actor, AgentContext, SpaceRole, User};
use crate::auth::rbac::AuthContext;
use crate::error::AppError;
use crate::text::{
    chars_of, ends_with, starts_with, str_ends_with, str_starts_with, string_from_chars, trim, trim_seq,
};
use vstd::prelude::*;

verus! {

/// The space a request addresses when it names none.
pub open spec fn default_space_id() -> Seq<char> {
    "sp_default"@
}

/// The bearer token of an `Authorization` header value: what follows
/// `Bearer `, trimmed.
pub fn extract_bearer(authorization: Option<&str>) -> (res: Option<String>)
    ensures
        match authorization {
            Some(h) => if starts_with(h@, "Bearer "@) {
                res matches Some(t) && t@ == trim_seq(h@.skip("Bearer "@.len() as int))
            } else {
                res is None
            },
            None => res is None,
        },
{
    match authorization {
        None => None,
        Some(h) => {
            if str_starts_with(h, "Bearer ") {
                let cs = chars_of(h);
                let p = chars_of("Bearer ");
                let rest = string_from_chars(&cs, p.len(), cs.len());
                assert(rest@ =~= h@.skip("Bearer "@.len() as int));
                Some(trim(rest.as_str()))
            } else {
                None
            }
        },
    }
}

/// The agent API key of an `x-agent-api-key` header value, trimmed.
pub fn extract_agent_api_key(header: Option<&str>) -> (res: Option<String>)
    ensures
        match header {
            Some(h) => res matches Some(k) && k@ == trim_seq(h@),
            None => res is None,
        },
{
    match header {
        Some(h) => Some(trim(h)),
        None => None,
    }
}

/// The space a request addresses: its `x-space-id` header value, or the
/// default space.
pub fn extract_space_id(header: Option<&str>) -> (res: String)
    ensures
        match header {
            Some(h) => res@ == h@,
            None => res@ == default_space_id(),
        },
{
    match header {
        Some(h) => String::from_str(h),
        None => String::from_str("sp_default"),
    }
}

/// Where the query parameter starting at `i` ends: the next `&`, or the
/// end of the query.
pub open spec fn param_end(q: Seq<char>, i: int) -> int
    decreases q.len() - i,
{
    if i < 0 || i >= q.len() {
        q.len() as int
    } else if q[i] == '&' {
        i
    } else {
        param_end(q, i + 1)
    }
}

/// A parameter's end lies within the query, after its start, at an `&`
/// or the end, with no `&` before it.
pub proof fn lemma_param_end_bounds(q: Seq<char>, i: int)
    requires
        0 <= i <= q.len(),
    ensures
        i <= param_end(q, i) <= q.len(),
        forall|k: int| i <= k < param_end(q, i) ==> q[k] != '&',
        param_end(q, i) < q.len() ==> q[param_end(q, i)] == '&',
    decreases q.len() - i,
{
    if i < q.len() && q[i] != '&' {
        lemma_param_end_bounds(q, i + 1);
    }
}

/// The value of the first `token=` parameter of a query string, from the
/// parameter starting at `i` on.
pub open spec fn query_token_from(q: Seq<char>, i: int) -> Option<Seq<char>>
    decreases q.len() - i,
{
    if i < 0 || i > q.len() {
        None
    } else {
        let e = param_end(q, i);
        let piece = q.subrange(i, e);
        if starts_with(piece, "token="@) {
            Some(piece.skip("token="@.len() as int))
        } else if e < q.len() {
            proof {
                lemma_param_end_bounds(q, i);
            }
            query_token_from(q, e + 1)
        } else {
            None
        }
    }
}

/// The `token` query parameter of a request, if it has a query with one.
pub open spec fn query_token(query: Option<Seq<char>>) -> Option<Seq<char>> {
    match query {
        Some(q) => query_token_from(q, 0),
        None => None,
    }
}

/// The value of the first `token=` parameter of a query string (the part
/// of a URL after `?`), as it stands.
pub fn extract_query_token(query: Option<&str>) -> (res: Option<String>)
    ensures
        opt_string_view(res) == query_token(opt_str_view(query)),
{
    let q = match query {
        Some(q) => q,
        None => return None,
    };
    let cs = chars_of(q);
    let n = cs.len();
    let mut i: usize = 0;
    proof {
        reveal_strlit("token=");
    }
    while i <= n
        invariant
            i <= n + 1,
            n == cs@.len(),
            cs@ == q@,
            opt_str_view(query) == Some(q@),
            "token="@.len() == 6,
            i <= n ==> query_token_from(cs@, 0) == query_token_from(cs@, i as int),
            i > n ==> query_token_from(cs@, 0) is None,
        decreases n + 1 - i,
    {
        let mut e: usize = i;
        while e < n && cs[e] != '&'
            invariant
                i <= e <= n,
                n == cs@.len(),
                param_end(cs@, i as int) == param_end(cs@, e as int),
            decreases n - e,
        {
            e = e + 1;
        }
        proof {
            lemma_param_end_bounds(cs@, i as int);
        }
        assert(param_end(cs@, i as int) == e);
        let piece = string_from_chars(&cs, i, e);
        let ghost qi = query_token_from(cs@, i as int);
        if str_starts_with(piece.as_str(), "token=") {
            let v = string_from_chars(&cs, i + 6, e);
            assert(v@ =~= piece@.skip(6));
            assert(qi == Some(piece@.skip("token="@.len() as int)));
            return Some(v);
        }
        if e == n {
            assert(qi is None);
            return None;
        }
        assert(qi == query_token_from(cs@, e + 1));
        i = e + 1;
    }
    None
}

/// The model of an optional string slice.
pub open spec fn opt_str_view(o: Option<&str>) -> Option<Seq<char>> {
    match o {
        Some(s) => Some(s@),
        None => None,
    }
}

/// The model of an optional string.
pub open spec fn opt_string_view(o: Option<String>) -> Option<Seq<char>> {
    match o {
        Some(s) => Some(s@),
        None => None,
    }
}

/// Whether a path is under the collaboration routes, whose WebSocket
/// clients send their access token as a `token` query parameter.
pub open spec fn spec_is_collab_path(path: Seq<char>) -> bool {
    starts_with(path, "/api/v1/collab/"@)
}

/// The access token a request presents: that of its `Authorization`
/// header, or, on a collaboration path without one, its `token` query
/// parameter.
pub fn request_token(bearer: Option<String>, path: &str, query: Option<&str>) -> (res: Option<
    String,
>)
    ensures
        match bearer {
            Some(t) => res == Some(t),
            None => if spec_is_collab_path(path@) {
                opt_string_view(res) == query_token(opt_str_view(query))
            } else {
                res is None
            },
        },
{
    match bearer {
        Some(t) => Some(t),
        None => if str_starts_with(path, "/api/v1/collab/") {
            extract_query_token(query)
        } else {
            None
        },
    }
}

/// Paths that may be reached without credentials.
pub open spec fn spec_is_public_path(path: Seq<char>) -> bool {
    ends_with(path, "/system/health"@) || ends_with(path, "/system/version"@) || ends_with(
        path,
        "/auth/register"@,
    ) || ends_with(path, "/auth/login"@)
}

/// Whether a path may be reached without credentials (health, version,
/// registration and login).
pub fn is_public_path(path: &str) -> (res: bool)
    ensures
        res == spec_is_public_path(path@),
{
    str_ends_with(path, "/system/health") || str_ends_with(path, "/system/version")
        || str_ends_with(path, "/auth/register") || str_ends_with(path, "/auth/login")
}

/// An authenticated request's identity: the actor and its authorization
/// context in the addressed space.
#[derive(Debug, Clone)]
pub struct Identity {
    pub actor: Actor,
    pub context: AuthContext,
}

/// What to do after checking an agent API key.
#[derive(Debug, Clone)]
pub enum ApiKeyStep {
    /// Proceed as this identity.
    Accept(Identity),
    /// Refuse the request with this error.
    Refuse(AppError),
    /// Ignore the failed key and check the bearer token instead.
    TryBearer,
}

/// Decide after checking the agent API key of a request addressing
/// `space_id`: a valid key admits the request as the key's owner; an
/// invalid one refuses it, unless a bearer token is present too.
pub fn after_api_key(
    checked: Result<AgentContext, AppError>,
    bearer_present: bool,
    space_id: &str,
) -> (res: ApiKeyStep)
    ensures
        match checked {
            Ok(a) => (res matches ApiKeyStep::Accept(id) && id.actor.user_id == a.user_id
                && id.actor.global_role == a.user_role && id.actor.space_role == a.space_role
                && id.context.user_id == a.user_id && id.context.global_role == a.user_role
                && id.context.space_id@ == space_id@ && id.context.space_role == a.space_role),
            Err(e) => if bearer_present {
                res is TryBearer
            } else {
                res == ApiKeyStep::Refuse(e)
            },
        },
{
    match checked {
        Ok(agent) => {
            let actor = Actor {
                user_id: agent.user_id.clone(),
                global_role: agent.user_role,
                space_role: agent.space_role,
            };
            let context = AuthContext {
                user_id: agent.user_id,
                global_role: agent.user_role,
                space_id: String::from_str(space_id),
                space_role: agent.space_role,
            };
            ApiKeyStep::Accept(Identity { actor, context })
        },
        Err(e) => {
            if bearer_present {
                ApiKeyStep::TryBearer
            } else {
                ApiKeyStep::Refuse(e)
            }
        },
    }
}

/// Decide after checking a bearer token of a request addressing `space_id`:
/// a valid token admits the request as its user, with the user's role in
/// the space; an invalid one refuses it.
pub fn after_bearer(
    checked: Result<(User, Option<SpaceRole>), AppError>,
    space_id: &str,
) -> (res: Result<Identity, AppError>)
    ensures
        match checked {
            Ok((u, r)) => (res matches Ok(id) && id.actor.user_id == u.id && id.actor.global_role
                == u.global_role && id.actor.space_role == r && id.context.user_id == u.id
                && id.context.global_role == u.global_role && id.context.space_id@ == space_id@
                && id.context.space_role == r),
            Err(e) => res == Err::<Identity, AppError>(e),
        },
{
    match checked {
        Ok((user, role)) => {
            let actor = Actor::new(&user, role);
            let context = AuthContext {
                user_id: actor.user_id.clone(),
                global_role: actor.global_role,
                space_id: String::from_str(space_id),
                space_role: role,
            };
            Ok(Identity { actor, context })
        },
        Err(e) => Err(e),
    }
}

/// Decide a request that carries no usable credentials: public paths pass
/// anonymously, anything else is refused.
pub fn anonymous_access(path: &str) -> (res: Result<(), AppError>)
    ensures
        spec_is_public_path(path@) ==> res is Ok,
        !spec_is_public_path(path@) ==> (res matches Err(AppError::Unauthorized(m)) && m@
            == "missing or invalid authorization"@),
{
    if is_public_path(path) {
        Ok(())
    } else {
        Err(AppError::unauthorized("missing or invalid authorization"))
    }
}

/// Exactly the health, version, registration and login endpoints may be
/// reached without credentials; a request without usable credentials for
/// any other path is refused.
pub proof fn lemma_public_paths(path: Seq<char>)
    ensures
        ends_with(path, "/system/health"@) ==> spec_is_public_path(path),
        ends_with(path, "/system/version"@) ==> spec_is_public_path(path),
        ends_with(path, "/auth/register"@) ==> spec_is_public_path(path),
        ends_with(path, "/auth/login"@) ==> spec_is_public_path(path),
        spec_is_public_path(path) ==> (ends_with(path, "/system/health"@) || ends_with(
            path,
            "/system/version"@,
        ) || ends_with(path, "/auth/register"@) || ends_with(path, "/auth/login"@)),
{
}

} // verus!
