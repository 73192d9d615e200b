//! Token claims: what an issued token pair carries and which decoded
//! tokens are accepted. Signing and signature checking of the encoded
//! tokens is done by the application with the `jsonwebtoken` crate.

use crate::auth::model::{GlobalRole, User};
use crate::config::AppConfig;
use crate::error::AppError;
use crate::text::str_eq;
use std::sync::Arc;
use vstd::prelude::*;

verus! {

/// Claims carried in access tokens.
#[derive(Debug, Clone)]
pub struct JwtClaims {
    pub sub: String,
    pub email: String,
    pub global_role: GlobalRole,
    pub exp: usize,
    pub iat: usize,
    pub token_type: String,
}

/// Claims carried in refresh tokens.
#[derive(Debug, Clone)]
pub struct RefreshClaims {
    pub sub: String,
    pub exp: usize,
    pub iat: usize,
    pub token_type: String,
}

/// Issued token pair.
#[derive(Debug, Clone)]
pub struct TokenPair {
    pub access_token: String,
    pub refresh_token: String,
    pub expires_in: i64,
}

/// Token issuer / verifier settings.
pub struct JwtIssuer {
    secret: String,
    access_ttl: i64,
    refresh_ttl: i64,
}

impl JwtIssuer {
    /// The signing secret.
    pub closed spec fn spec_secret(&self) -> Seq<char> {
        self.secret@
    }

    /// Access token lifetime in seconds.
    pub closed spec fn spec_access_ttl(&self) -> i64 {
        self.access_ttl
    }

    /// Refresh token lifetime in seconds.
    pub closed spec fn spec_refresh_ttl(&self) -> i64 {
        self.refresh_ttl
    }

    /// Create a new issuer from configuration.
    pub fn new(config: &AppConfig) -> (res: Self)
        ensures
            res.spec_secret() == config.jwt_secret@,
            res.spec_access_ttl() == config.jwt_access_ttl,
            res.spec_refresh_ttl() == config.jwt_refresh_ttl,
    {
        JwtIssuer {
            secret: config.jwt_secret.clone(),
            access_ttl: config.jwt_access_ttl,
            refresh_ttl: config.jwt_refresh_ttl,
        }
    }

    /// The signing secret.
    pub fn secret(&self) -> (res: &str)
        ensures
            res@ == self.spec_secret(),
    {
        self.secret.as_str()
    }

    /// Claims of the access token issued to `user` at time `now`: subject,
    /// email and role of the user, issued now, expiring after the access
    /// lifetime.
    pub fn access_claims(&self, user: &User, now: i64) -> (res: JwtClaims)
        requires
            i64::MIN <= now + self.spec_access_ttl() <= i64::MAX,
        ensures
            res.sub == user.id,
            res.email == user.email,
            res.global_role == user.global_role,
            res.iat == now as usize,
            res.exp == (now + self.spec_access_ttl()) as usize,
            res.token_type@ == "access"@,
    {
        JwtClaims {
            sub: user.id.clone(),
            email: user.email.clone(),
            global_role: user.global_role,
            iat: now as usize,
            exp: (now + self.access_ttl) as usize,
            token_type: String::from_str("access"),
        }
    }

    /// Claims of the refresh token issued to `user` at time `now`.
    pub fn refresh_claims(&self, user: &User, now: i64) -> (res: RefreshClaims)
        requires
            i64::MIN <= now + self.spec_refresh_ttl() <= i64::MAX,
        ensures
            res.sub == user.id,
            res.iat == now as usize,
            res.exp == (now + self.spec_refresh_ttl()) as usize,
            res.token_type@ == "refresh"@,
    {
        RefreshClaims {
            sub: user.id.clone(),
            iat: now as usize,
            exp: (now + self.refresh_ttl) as usize,
            token_type: String::from_str("refresh"),
        }
    }

    /// The token pair handed out: both encoded tokens, and the access
    /// lifetime as `expires_in`.
    pub fn token_pair(&self, access_token: String, refresh_token: String) -> (res: TokenPair)
        ensures
            res.access_token == access_token,
            res.refresh_token == refresh_token,
            res.expires_in == self.spec_access_ttl(),
    {
        TokenPair { access_token, refresh_token, expires_in: self.access_ttl }
    }

    /// Accept decoded access-token claims only when they are of an access
    /// token.
    pub fn accept_access(&self, claims: JwtClaims) -> (res: Result<JwtClaims, AppError>)
        ensures
            claims.token_type@ == "access"@ ==> res == Ok::<JwtClaims, AppError>(claims),
            claims.token_type@ != "access"@ ==> (res matches Err(AppError::Jwt(m)) && m@
                == "token is not an access token"@),
    {
        if str_eq(claims.token_type.as_str(), "access") {
            Ok(claims)
        } else {
            Err(AppError::Jwt(String::from_str("token is not an access token")))
        }
    }

    /// Accept decoded refresh-token claims only when they are of a refresh
    /// token; gives the subject.
    pub fn accept_refresh(&self, claims: RefreshClaims) -> (res: Result<String, AppError>)
        ensures
            claims.token_type@ == "refresh"@ ==> res == Ok::<String, AppError>(claims.sub),
            claims.token_type@ != "refresh"@ ==> (res matches Err(AppError::Jwt(m)) && m@
                == "token is not a refresh token"@),
    {
        if str_eq(claims.token_type.as_str(), "refresh") {
            Ok(claims.sub)
        } else {
            Err(AppError::Jwt(String::from_str("token is not a refresh token")))
        }
    }
}

/// Build an issuer wrapped in `Arc` for shared use.
pub fn build_jwt_issuer(config: Arc<AppConfig>) -> (res: Arc<JwtIssuer>)
    ensures
        res.spec_secret() == config.jwt_secret@,
        res.spec_access_ttl() == config.jwt_access_ttl,
        res.spec_refresh_ttl() == config.jwt_refresh_ttl,
{
    Arc::new(JwtIssuer::new(&config))
}

/// The kinds that access and refresh claims carry differ, so
/// `accept_refresh` refuses claims made by `access_claims` and
/// `accept_access` refuses claims made by `refresh_claims`.
pub proof fn lemma_token_kinds_distinct()
    ensures
        "access"@ != "refresh"@,
{
    reveal_strlit("access");
    reveal_strlit("refresh");
    assert("access"@[0] != "refresh"@[0]);
}

} // verus!
