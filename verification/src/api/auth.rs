//! Authentication and space API bodies.

use crate::api::{page_limit_of, page_offset_of, page_window};
use crate::auth::jwt::TokenPair;
use crate::auth::model::{SpaceMember, SpaceRole, SpaceVisibility, User};
use crate::error::AppError;
use crate::text::{lowercase_of, to_lowercase};
use vstd::prelude::*;

verus! {

/// A user as the API shows it: without credentials.
#[derive(Debug, Clone)]
pub struct UserResponse {
    pub id: String,
    pub email: String,
    pub name: String,
    pub global_role: String,
    pub is_active: bool,
    pub created_at: i64,
}

impl UserResponse {
    /// The public view of a user.
    pub fn from_user(user: &User) -> (res: Self)
        ensures
            res.id@ == user.id@,
            res.email@ == user.email@,
            res.name@ == user.name@,
            res.global_role@ == user.global_role.spec_name(),
            res.is_active == user.is_active,
            res.created_at == user.created_at,
    {
        UserResponse {
            id: user.id.clone(),
            email: user.email.clone(),
            name: user.name.clone(),
            global_role: String::from_str(user.global_role.as_str()),
            is_active: user.is_active,
            created_at: user.created_at,
        }
    }
}

/// Response to a login: the tokens and the user.
#[derive(Debug, Clone)]
pub struct LoginResponse {
    pub access_token: String,
    pub refresh_token: String,
    pub expires_in: i64,
    pub user: UserResponse,
}

impl LoginResponse {
    /// The response for issued tokens and the user who logged in.
    pub fn new(tokens: TokenPair, user: &User) -> (res: Self)
        ensures
            res.access_token@ == tokens.access_token@,
            res.refresh_token@ == tokens.refresh_token@,
            res.expires_in == tokens.expires_in,
            res.user.id@ == user.id@,
            res.user.email@ == user.email@,
            res.user.global_role@ == user.global_role.spec_name(),
    {
        LoginResponse {
            access_token: tokens.access_token,
            refresh_token: tokens.refresh_token,
            expires_in: tokens.expires_in,
            user: UserResponse::from_user(user),
        }
    }
}

/// Response to a token refresh.
#[derive(Debug, Clone)]
pub struct TokenPairResponse {
    pub access_token: String,
    pub refresh_token: String,
    pub expires_in: i64,
}

impl TokenPairResponse {
    /// The response for a new token pair.
    pub fn new(tokens: TokenPair) -> (res: Self)
        ensures
            res.access_token@ == tokens.access_token@,
            res.refresh_token@ == tokens.refresh_token@,
            res.expires_in == tokens.expires_in,
    {
        TokenPairResponse {
            access_token: tokens.access_token,
            refresh_token: tokens.refresh_token,
            expires_in: tokens.expires_in,
        }
    }
}

/// Request to create a space.
#[derive(Debug, Clone)]
pub struct CreateSpaceRequest {
    pub name: String,
    pub slug: Option<String>,
    pub description: Option<String>,
}

/// The slug made from a name: lowercased, spaces turned into hyphens.
pub open spec fn slug_of(name: Seq<char>) -> Seq<char> {
    lowercase_of(name).map_values(|c: char| if c == ' ' { '-' } else { c })
}

impl CreateSpaceRequest {
    /// The slug of the new space: the one given, or one made from the name.
    pub fn slug_or_default(&self) -> (res: String)
        ensures
            match self.slug {
                Some(s) => res@ == s@,
                None => res@ == slug_of(self.name@),
            },
    {
        match &self.slug {
            Some(s) => s.clone(),
            None => {
                let lower = to_lowercase(self.name.as_str());
                let cs = crate::text::chars_of(lower.as_str());
                let mut out = String::new();
                let mut i: usize = 0;
                while i < cs.len()
                    invariant
                        i <= cs@.len(),
                        cs@ == lowercase_of(self.name@),
                        out@ == cs@.take(i as int).map_values(
                            |c: char|
                                if c == ' ' {
                                    '-'
                                } else {
                                    c
                                },
                        ),
                    decreases cs@.len() - i,
                {
                    let c = if cs[i] == ' ' {
                        '-'
                    } else {
                        cs[i]
                    };
                    crate::text::push_char(&mut out, c);
                    proof {
                        assert(cs@.take(i + 1).map_values(
                            |c: char|
                                if c == ' ' {
                                    '-'
                                } else {
                                    c
                                },
                        ) =~= cs@.take(i as int).map_values(
                            |c: char|
                                if c == ' ' {
                                    '-'
                                } else {
                                    c
                                },
                        ).push(c));
                    }
                    i = i + 1;
                }
                proof {
                    assert(cs@.take(cs@.len() as int) =~= cs@);
                }
                out
            },
        }
    }
}

/// Request to change a space's visibility.
#[derive(Debug, Clone, Copy)]
pub struct UpdateSpaceVisibilityRequest {
    pub visibility: SpaceVisibility,
}

/// Query of a space listing.
#[derive(Debug, Clone)]
pub struct ListSpacesQuery {
    pub limit: Option<usize>,
    pub offset: Option<usize>,
}

impl ListSpacesQuery {
    /// The page asked for.
    pub fn page(&self) -> (res: (usize, usize))
        ensures
            res == (page_limit_of(self.limit), page_offset_of(self.offset)),
    {
        page_window(self.limit, self.offset)
    }
}

/// Query of a member listing.
#[derive(Debug, Clone)]
pub struct ListMembersQuery {
    pub limit: Option<usize>,
    pub offset: Option<usize>,
}

impl ListMembersQuery {
    /// The page asked for.
    pub fn page(&self) -> (res: (usize, usize))
        ensures
            res == (page_limit_of(self.limit), page_offset_of(self.offset)),
    {
        page_window(self.limit, self.offset)
    }
}

/// A page of space members.
#[derive(Debug, Clone)]
pub struct ListMembersResponse {
    pub members: Vec<SpaceMember>,
    pub total: usize,
}

/// Request to add a user to a space.
#[derive(Debug, Clone)]
pub struct InviteMemberRequest {
    pub email: String,
    pub role: SpaceRole,
}

impl InviteMemberRequest {
    /// The error when no user has the invited e-mail address.
    pub fn user_not_found(&self) -> (res: AppError)
        ensures
            res matches AppError::NotFound(m) && m@ == "user not found: "@ + self.email@,
    {
        let mut m = String::from_str("user not found: ");
        m.append(self.email.as_str());
        proof {
            reveal_strlit("user not found: ");
        }
        AppError::NotFound(m)
    }
}

} // verus!
