//! Auth domain models: users, roles, permissions, spaces, API keys.

use crate::error::{message_of, AppError};
use crate::text::{
    all_white_space, is_alpha_numeric, is_lower_case, is_upper_case, str_eq,
};
use vstd::prelude::*;

verus! {

// ============================================================
// GlobalRole
// ============================================================

/// User global role.
#[derive(Debug, Clone, Copy, PartialEq, Eq, Structural, Default)]
pub enum GlobalRole {
    Admin,
    Owner,
    Editor,
    #[default]
    Viewer,
}

impl GlobalRole {
    /// The wire name of the role.
    pub open spec fn spec_name(self) -> Seq<char> {
        match self {
            GlobalRole::Admin => "admin"@,
            GlobalRole::Owner => "owner"@,
            GlobalRole::Editor => "editor"@,
            GlobalRole::Viewer => "viewer"@,
        }
    }

    /// The role a wire name denotes, if any.
    pub open spec fn spec_parse(s: Seq<char>) -> Option<GlobalRole> {
        if s == "admin"@ {
            Some(GlobalRole::Admin)
        } else if s == "owner"@ {
            Some(GlobalRole::Owner)
        } else if s == "editor"@ {
            Some(GlobalRole::Editor)
        } else if s == "viewer"@ {
            Some(GlobalRole::Viewer)
        } else {
            None
        }
    }

    /// String representation.
    pub fn as_str(&self) -> (res: &'static str)
        ensures
            res@ == self.spec_name(),
    {
        match self {
            GlobalRole::Admin => "admin",
            GlobalRole::Owner => "owner",
            GlobalRole::Editor => "editor",
            GlobalRole::Viewer => "viewer",
        }
    }

    /// Parse from string.
    pub fn parse_str(s: &str) -> (res: Result<Self, String>)
        ensures
            match GlobalRole::spec_parse(s@) {
                Some(r) => res == Ok::<GlobalRole, String>(r),
                None => res matches Err(m) && m@ == "invalid global_role: "@ + s@,
            },
    {
        if str_eq(s, "admin") {
            Ok(GlobalRole::Admin)
        } else if str_eq(s, "owner") {
            Ok(GlobalRole::Owner)
        } else if str_eq(s, "editor") {
            Ok(GlobalRole::Editor)
        } else if str_eq(s, "viewer") {
            Ok(GlobalRole::Viewer)
        } else {
            Err(invalid_value("invalid global_role: ", s))
        }
    }
}

/// `prefix` followed by the offending input, as a message.
pub fn invalid_value(prefix: &str, s: &str) -> (res: String)
    ensures
        res@ == prefix@ + s@,
{
    let mut m = String::from_str(prefix);
    m.append(s);
    m
}

// ============================================================
// SpaceRole
// ============================================================

/// Space-level role.
#[derive(Debug, Clone, Copy, PartialEq, Eq, Structural, Default)]
pub enum SpaceRole {
    Owner,
    Editor,
    #[default]
    Viewer,
}

impl SpaceRole {
    /// The wire name of the role.
    pub open spec fn spec_name(self) -> Seq<char> {
        match self {
            SpaceRole::Owner => "owner"@,
            SpaceRole::Editor => "editor"@,
            SpaceRole::Viewer => "viewer"@,
        }
    }

    /// The role a wire name denotes, if any.
    pub open spec fn spec_parse(s: Seq<char>) -> Option<SpaceRole> {
        if s == "owner"@ {
            Some(SpaceRole::Owner)
        } else if s == "editor"@ {
            Some(SpaceRole::Editor)
        } else if s == "viewer"@ {
            Some(SpaceRole::Viewer)
        } else {
            None
        }
    }

    /// String representation.
    pub fn as_str(&self) -> (res: &'static str)
        ensures
            res@ == self.spec_name(),
    {
        match self {
            SpaceRole::Owner => "owner",
            SpaceRole::Editor => "editor",
            SpaceRole::Viewer => "viewer",
        }
    }

    /// Parse from string.
    pub fn parse_str(s: &str) -> (res: Result<Self, String>)
        ensures
            match SpaceRole::spec_parse(s@) {
                Some(r) => res == Ok::<SpaceRole, String>(r),
                None => res matches Err(m) && m@ == "invalid space_role: "@ + s@,
            },
    {
        if str_eq(s, "owner") {
            Ok(SpaceRole::Owner)
        } else if str_eq(s, "editor") {
            Ok(SpaceRole::Editor)
        } else if str_eq(s, "viewer") {
            Ok(SpaceRole::Viewer)
        } else {
            Err(invalid_value("invalid space_role: ", s))
        }
    }
}

// ============================================================
// Permission
// ============================================================

/// Permission evaluated by the RBAC engine.
#[derive(Debug, Clone, Copy, PartialEq, Eq, Structural)]
pub enum Permission {
    SpaceRead,
    SpaceWrite,
    SpaceAdmin,
    MemoryRead,
    MemoryWrite,
    MemoryAdmin,
    AgentWrite,
    ApiKeyManage,
    UserManage,
}

// ============================================================
// SpaceVisibility
// ============================================================

/// Space visibility.
#[derive(Debug, Clone, Copy, PartialEq, Eq, Structural, Default)]
pub enum SpaceVisibility {
    #[default]
    Team,
    Public,
    Private,
}

impl SpaceVisibility {
    /// The wire name of the visibility.
    pub open spec fn spec_name(self) -> Seq<char> {
        match self {
            SpaceVisibility::Public => "public"@,
            SpaceVisibility::Team => "team"@,
            SpaceVisibility::Private => "private"@,
        }
    }

    /// The visibility a wire name denotes, if any.
    pub open spec fn spec_parse(s: Seq<char>) -> Option<SpaceVisibility> {
        if s == "public"@ {
            Some(SpaceVisibility::Public)
        } else if s == "team"@ {
            Some(SpaceVisibility::Team)
        } else if s == "private"@ {
            Some(SpaceVisibility::Private)
        } else {
            None
        }
    }

    /// String representation.
    pub fn as_str(&self) -> (res: &'static str)
        ensures
            res@ == self.spec_name(),
    {
        match self {
            SpaceVisibility::Public => "public",
            SpaceVisibility::Team => "team",
            SpaceVisibility::Private => "private",
        }
    }

    /// Parse from string.
    pub fn parse_str(s: &str) -> (res: Result<Self, String>)
        ensures
            match SpaceVisibility::spec_parse(s@) {
                Some(v) => res == Ok::<SpaceVisibility, String>(v),
                None => res matches Err(m) && m@ == "invalid space visibility: "@ + s@,
            },
    {
        if str_eq(s, "public") {
            Ok(SpaceVisibility::Public)
        } else if str_eq(s, "team") {
            Ok(SpaceVisibility::Team)
        } else if str_eq(s, "private") {
            Ok(SpaceVisibility::Private)
        } else {
            Err(invalid_value("invalid space visibility: ", s))
        }
    }
}

/// Every role and visibility name parses back to the value it names.
pub proof fn lemma_auth_names_roundtrip(g: GlobalRole, r: SpaceRole, v: SpaceVisibility)
    ensures
        GlobalRole::spec_parse(g.spec_name()) == Some(g),
        SpaceRole::spec_parse(r.spec_name()) == Some(r),
        SpaceVisibility::spec_parse(v.spec_name()) == Some(v),
{
    reveal_strlit("admin");
    reveal_strlit("owner");
    reveal_strlit("editor");
    reveal_strlit("viewer");
    reveal_strlit("public");
    reveal_strlit("team");
    reveal_strlit("private");
    assert("admin"@[0] != "owner"@[0]);
    assert("admin"@[0] != "editor"@[0]);
    assert("admin"@[0] != "viewer"@[0]);
    assert("owner"@[0] != "editor"@[0]);
    assert("owner"@[0] != "viewer"@[0]);
    assert("editor"@[0] != "viewer"@[0]);
    assert("public"@[1] != "private"@[1]);
    assert("public"@[0] != "team"@[0]);
    assert("team"@[0] != "private"@[0]);
}


// ============================================================
// User
// ============================================================

/// User model.
#[derive(Debug, Clone)]
pub struct User {
    pub id: String,
    pub email: String,
    pub name: String,
    pub password_hash: Option<String>,
    pub sso_subject: Option<String>,
    pub global_role: GlobalRole,
    pub is_active: bool,
    pub created_at: i64,
    pub updated_at: i64,
}

/// `id` is a generated identifier with the given prefix: the prefix, `_`,
/// and 32 lowercase hex digits.
pub open spec fn is_generated_id(id: Seq<char>, prefix: Seq<char>) -> bool {
    &&& id.len() == prefix.len() + 33
    &&& id.subrange(0, prefix.len() as int) == prefix
    &&& id[prefix.len() as int] == '_'
    &&& forall|i: int|
        prefix.len() < i < id.len() ==> crate::text::is_lower_hex_digit(#[trigger] id[i])
}

impl User {
    /// Create a new active local user with a fresh `usr_` identifier.
    pub fn new_local(
        email: String,
        name: String,
        global_role: GlobalRole,
        password_hash: String,
    ) -> (res: Self)
        ensures
            is_generated_id(res.id@, "usr"@),
            res.email == email,
            res.name == name,
            res.password_hash == Some(password_hash),
            res.sso_subject is None,
            res.global_role == global_role,
            res.is_active,
            res.created_at == res.updated_at,
    {
        let now = crate::now_ts();
        let id = crate::generate_id("usr");
        User {
            id,
            email,
            name,
            password_hash: Some(password_hash),
            sso_subject: None,
            global_role,
            is_active: true,
            created_at: now,
            updated_at: now,
        }
    }
}

/// Actor context used for authorization and audit.
#[derive(Debug, Clone)]
pub struct Actor {
    pub user_id: String,
    pub global_role: GlobalRole,
    pub space_role: Option<SpaceRole>,
}

impl Actor {
    /// Create an actor from a user and optional space role.
    pub fn new(user: &User, space_role: Option<SpaceRole>) -> (res: Self)
        ensures
            res.user_id == user.id,
            res.global_role == user.global_role,
            res.space_role == space_role,
    {
        Actor { user_id: user.id.clone(), global_role: user.global_role, space_role }
    }
}

/// Request to create a local user.
#[derive(Debug, Clone)]
pub struct CreateLocalUserRequest {
    pub email: String,
    pub name: String,
    pub password: String,
    pub global_role: GlobalRole,
}

/// Length of a string in UTF-8 bytes, as `str::len` reports it.
pub open spec fn byte_len(s: Seq<char>) -> usize {
    vstd::utf8::encode_utf8(s).len() as usize
}

/// Message of the password-composition rule.
pub open spec fn password_rule_message() -> Seq<char> {
    "password must contain at least one uppercase letter, one lowercase letter, one digit, and one special character"@
}

/// Whether a password has an uppercase and a lowercase letter, an ASCII
/// digit and a character that is not alphanumeric.
pub open spec fn password_has_all_classes(p: Seq<char>) -> bool {
    &&& exists|i: int| 0 <= i < p.len() && is_upper_case(#[trigger] p[i])
    &&& exists|i: int| 0 <= i < p.len() && is_lower_case(#[trigger] p[i])
    &&& exists|i: int| 0 <= i < p.len() && '0' <= #[trigger] p[i] && p[i] <= '9'
    &&& exists|i: int| 0 <= i < p.len() && !is_alpha_numeric(#[trigger] p[i])
}

/// The first rule a registration request breaks, as its message; `None`
/// when it is valid.
pub open spec fn user_request_violation(
    email: Seq<char>,
    name: Seq<char>,
    password: Seq<char>,
) -> Option<Seq<char>> {
    if all_white_space(email) || !email.contains('@') {
        Some("email is invalid"@)
    } else if all_white_space(name) {
        Some("name must not be empty"@)
    } else if byte_len(password) < 12 {
        Some("password must be at least 12 characters"@)
    } else if byte_len(password) > 128 {
        Some("password must not exceed 128 characters"@)
    } else if !password_has_all_classes(password) {
        Some(password_rule_message())
    } else {
        None
    }
}

/// The outcome of a validation: `Ok` when no rule is broken, else a bad
/// request carrying the message of the broken rule.
pub open spec fn validation_result(res: Result<(), AppError>, violation: Option<Seq<char>>) -> bool {
    match violation {
        None => res is Ok,
        Some(m) => res matches Err(e) && e is BadRequest && message_of(e) == m,
    }
}

impl CreateLocalUserRequest {
    /// Validate the request.
    pub fn validate(&self) -> (res: Result<(), AppError>)
        ensures
            validation_result(res, user_request_violation(self.email@, self.name@, self.password@)),
    {
        if crate::text::is_blank(self.email.as_str()) || !crate::text::contains_char(
            self.email.as_str(),
            '@',
        ) {
            return Err(AppError::bad_request("email is invalid"));
        }
        if crate::text::is_blank(self.name.as_str()) {
            return Err(AppError::bad_request("name must not be empty"));
        }
        let len = self.password.as_str().len();
        if len < 12 {
            return Err(AppError::bad_request("password must be at least 12 characters"));
        }
        if len > 128 {
            return Err(AppError::bad_request("password must not exceed 128 characters"));
        }
        let cs = crate::text::chars_of(self.password.as_str());
        let mut has_upper = false;
        let mut has_lower = false;
        let mut has_digit = false;
        let mut has_special = false;
        let mut i: usize = 0;
        while i < cs.len()
            invariant
                i <= cs@.len(),
                cs@ == self.password@,
                has_upper == exists|k: int| 0 <= k < i && is_upper_case(#[trigger] cs@[k]),
                has_lower == exists|k: int| 0 <= k < i && is_lower_case(#[trigger] cs@[k]),
                has_digit == exists|k: int| 0 <= k < i && '0' <= #[trigger] cs@[k] && cs@[k] <= '9',
                has_special == exists|k: int| 0 <= k < i && !is_alpha_numeric(#[trigger] cs@[k]),
            decreases cs@.len() - i,
        {
            let c = cs[i];
            if crate::text::char_is_uppercase(c) {
                has_upper = true;
            }
            if crate::text::char_is_lowercase(c) {
                has_lower = true;
            }
            if '0' <= c && c <= '9' {
                has_digit = true;
            }
            if !crate::text::char_is_alphanumeric(c) {
                has_special = true;
            }
            i = i + 1;
        }
        if !has_upper || !has_lower || !has_digit || !has_special {
            return Err(
                AppError::bad_request(
                    "password must contain at least one uppercase letter, one lowercase letter, one digit, and one special character",
                ),
            );
        }
        Ok(())
    }
}

/// The first rule a login request breaks, as its message; `None` when it
/// is valid.
pub open spec fn login_request_violation(email: Seq<char>, password: Seq<char>) -> Option<
    Seq<char>,
> {
    if all_white_space(email) {
        Some("email must not be empty"@)
    } else if password.len() == 0 {
        Some("password must not be empty"@)
    } else {
        None
    }
}

/// Login request.
#[derive(Debug, Clone)]
pub struct LoginRequest {
    pub email: String,
    pub password: String,
}

impl LoginRequest {
    /// Validate the request.
    pub fn validate(&self) -> (res: Result<(), AppError>)
        ensures
            validation_result(res, login_request_violation(self.email@, self.password@)),
    {
        if crate::text::is_blank(self.email.as_str()) {
            return Err(AppError::bad_request("email must not be empty"));
        }
        if self.password.as_str().is_empty() {
            return Err(AppError::bad_request("password must not be empty"));
        }
        Ok(())
    }
}

/// Refresh token request.
#[derive(Debug, Clone)]
pub struct RefreshRequest {
    pub refresh_token: String,
}

// ============================================================
// Space membership, API keys, grants
// ============================================================

/// Space member model.
#[derive(Debug, Clone)]
pub struct SpaceMember {
    pub id: String,
    pub space_id: String,
    pub user_id: String,
    pub role: SpaceRole,
    pub created_at: i64,
}

/// API key model.
#[derive(Debug, Clone)]
pub struct ApiKey {
    pub id: String,
    pub space_id: String,
    pub user_id: String,
    pub key_hash: String,
    pub scope: String,
    pub name: String,
    pub expires_at: Option<i64>,
    pub last_used_at: Option<i64>,
    pub created_at: i64,
}

/// Agent context extracted from a valid API key.
#[derive(Debug, Clone)]
pub struct AgentContext {
    pub api_key_id: String,
    pub space_id: String,
    pub user_id: String,
    pub user_role: GlobalRole,
    pub space_role: Option<SpaceRole>,
    pub scope: String,
}

impl AgentContext {
    /// The context an authenticated user acts in through the agent API,
    /// with the scope the route grants.
    pub fn for_actor(actor: &Actor, space_id: &str, scope: &str) -> (res: Self)
        ensures
            res.api_key_id@ == "api"@,
            res.space_id@ == space_id@,
            res.user_id@ == actor.user_id@,
            res.user_role == actor.global_role,
            res.space_role == actor.space_role,
            res.scope@ == scope@,
    {
        proof {
            reveal_strlit("api");
        }
        AgentContext {
            api_key_id: String::from_str("api"),
            space_id: String::from_str(space_id),
            user_id: actor.user_id.clone(),
            user_role: actor.global_role,
            space_role: actor.space_role,
            scope: String::from_str(scope),
        }
    }

    /// The context of writes made through the MCP `remember` tool: an
    /// editor of the space with the `write` scope.
    pub fn mcp(space_id: &str) -> (res: Self)
        ensures
            res.api_key_id@ == "mcp"@,
            res.space_id@ == space_id@,
            res.user_id@ == "mcp"@,
            res.user_role == GlobalRole::Editor,
            res.space_role == Some(SpaceRole::Editor),
            res.scope@ == "write"@,
    {
        proof {
            reveal_strlit("mcp");
            reveal_strlit("write");
        }
        AgentContext {
            api_key_id: String::from_str("mcp"),
            space_id: String::from_str(space_id),
            user_id: String::from_str("mcp"),
            user_role: GlobalRole::Editor,
            space_role: Some(SpaceRole::Editor),
            scope: String::from_str("write"),
        }
    }
}

/// Memory permission (ACL) model.
#[derive(Debug, Clone)]
pub struct MemoryPermission {
    pub id: String,
    pub memory_id: String,
    pub user_id: String,
    pub permission: String,
    pub created_at: i64,
}

/// OIDC callback request.
#[derive(Debug, Clone)]
pub struct OidcCallbackRequest {
    pub code: String,
    pub state: Option<String>,
}

} // verus!
