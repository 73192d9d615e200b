//! Authentication decisions: password hashing, API key hashing, and what
//! registration, login, refresh and API key checks decide once the stored
//! records have been looked up.

use crate::auth::model::{
    byte_len, login_request_violation, user_request_violation, validation_result, AgentContext,
    ApiKey, CreateLocalUserRequest, GlobalRole, LoginRequest, SpaceRole, User,
};
use crate::auth::rbac::AuthContext;
use crate::error::{message_of, AppError};
use crate::text::{push_char, utf8_bytes};
use sha2::Digest;
use vstd::prelude::*;

verus! {

/// The outcome of `bcrypt::verify` for a password and a stored hash: whether
/// they match, or the message of the error for a malformed hash.
pub uninterp spec fn bcrypt_verify_result(password: Seq<char>, hash: Seq<char>) -> Result<
    bool,
    Seq<char>,
>;

/// The SHA-256 digest of a byte sequence.
pub uninterp spec fn sha256_digest(data: Seq<u8>) -> Seq<u8>;

/// Hash a password with bcrypt at the default cost and a random salt.
///
/// Wraps `bcrypt::hash(password, bcrypt::DEFAULT_COST)`. The hash depends on
/// the random salt. As the crate's source shows, a hash it produces
/// verifies against the same password (`bcrypt::verify` recomputes it with
/// the stored salt and cost and compares). An error carries its message.
#[verifier::external_body]
fn bcrypt_hash(password: &str) -> (res: Result<String, String>)
    ensures
        match res {
            Ok(h) => bcrypt_verify_result(password@, h@) == Ok::<bool, Seq<char>>(true),
            Err(_) => true,
        },
{
    bcrypt::hash(password, bcrypt::DEFAULT_COST).map_err(|e| e.to_string())
}

/// Check a password against a bcrypt hash.
///
/// Wraps `bcrypt::verify(password, hash)`; its outcome, a match flag or the
/// error message, is named by `bcrypt_verify_result`.
#[verifier::external_body]
fn bcrypt_verify(password: &str, hash: &str) -> (res: Result<bool, String>)
    ensures
        match res {
            Ok(b) => bcrypt_verify_result(password@, hash@) == Ok::<bool, Seq<char>>(b),
            Err(m) => bcrypt_verify_result(password@, hash@) == Err::<bool, Seq<char>>(m@),
        },
{
    bcrypt::verify(password, hash).map_err(|e| e.to_string())
}

/// SHA-256 of a byte slice.
///
/// Wraps `sha2::Sha256::digest`; the digest is named by `sha256_digest` and
/// is 32 bytes long.
#[verifier::external_body]
fn sha256(data: &[u8]) -> (res: Vec<u8>)
    ensures
        res@ == sha256_digest(data@),
        res@.len() == 32,
{
    sha2::Sha256::digest(data).to_vec()
}

/// Hash a password using bcrypt.
pub fn hash_password(password: &str) -> (res: Result<String, AppError>)
    ensures
        res matches Ok(h) ==> bcrypt_verify_result(password@, h@) == Ok::<bool, Seq<char>>(true),
        res matches Err(e) ==> (e is PasswordHash && exists|m: Seq<char>|
            message_of(e) == "failed to hash password: "@ + m),
{
    match bcrypt_hash(password) {
        Ok(h) => Ok(h),
        Err(m) => {
            let mut msg = String::from_str("failed to hash password: ");
            msg.append(m.as_str());
            Err(AppError::PasswordHash(msg))
        },
    }
}

/// Verify a password against a bcrypt hash.
pub fn verify_password(password: &str, hash: &str) -> (res: Result<bool, AppError>)
    ensures
        match bcrypt_verify_result(password@, hash@) {
            Ok(b) => res == Ok::<bool, AppError>(b),
            Err(m) => (res matches Err(e) && e is PasswordHash && message_of(e)
                == "failed to verify password: "@ + m),
        },
{
    match bcrypt_verify(password, hash) {
        Ok(b) => Ok(b),
        Err(m) => {
            let mut msg = String::from_str("failed to verify password: ");
            msg.append(m.as_str());
            Err(AppError::PasswordHash(msg))
        },
    }
}

// ============================================================
// Hex encoding and API key hashing
// ============================================================

/// Lowercase hex digit of a value below 16.
pub open spec fn hex_digit(v: u8) -> char {
    if v < 10 {
        ((v + 48) as u8) as char
    } else {
        ((v + 87) as u8) as char
    }
}

/// Lowercase hex encoding: two digits per byte, high nibble first.
pub open spec fn spec_hex(bytes: Seq<u8>) -> Seq<char>
    decreases bytes.len(),
{
    if bytes.len() == 0 {
        Seq::empty()
    } else {
        spec_hex(bytes.drop_last()).push(hex_digit(bytes.last() / 16)).push(
            hex_digit(bytes.last() % 16),
        )
    }
}

/// The hex digit of a nibble.
fn nibble_digit(v: u8) -> (c: char)
    requires
        v < 16,
    ensures
        c == hex_digit(v),
{
    if v < 10 {
        (v + 48) as char
    } else {
        (v + 87) as char
    }
}

/// Encode bytes as lowercase hexadecimal, two digits per byte.
pub fn encode(bytes: &[u8]) -> (res: String)
    ensures
        res@ == spec_hex(bytes@),
{
    let mut out = String::new();
    let mut i: usize = 0;
    while i < bytes.len()
        invariant
            i <= bytes@.len(),
            out@ == spec_hex(bytes@.take(i as int)),
        decreases bytes@.len() - i,
    {
        let b = bytes[i];
        assert(bytes@.take(i + 1).drop_last() =~= bytes@.take(i as int));
        push_char(&mut out, nibble_digit(b / 16));
        push_char(&mut out, nibble_digit(b % 16));
        i = i + 1;
    }
    assert(bytes@.take(bytes@.len() as int) =~= bytes@);
    out
}

/// The bytes hashed for an API key: the key, then the salt if any.
pub open spec fn api_key_material(key: Seq<char>, salt: Option<Seq<char>>) -> Seq<u8> {
    match salt {
        Some(s) => utf8_bytes(key) + utf8_bytes(s),
        None => utf8_bytes(key),
    }
}

/// Hash an API key with SHA-256 over the key followed by the optional salt,
/// as lowercase hex.
pub fn hash_api_key(key: &str, salt: Option<&str>) -> (res: String)
    ensures
        res@ == spec_hex(
            sha256_digest(
                api_key_material(
                    key@,
                    match salt {
                        Some(s) => Some(s@),
                        None => None,
                    },
                ),
            ),
        ),
{
    let mut material: Vec<u8> = Vec::new();
    let kb = key.as_bytes();
    let mut i: usize = 0;
    while i < kb.len()
        invariant
            i <= kb@.len(),
            kb@ == utf8_bytes(key@),
            material@ == kb@.take(i as int),
        decreases kb@.len() - i,
    {
        material.push(kb[i]);
        i = i + 1;
    }
    assert(kb@.take(kb@.len() as int) =~= kb@);
    if let Some(s) = salt {
        let sb = s.as_bytes();
        let mut j: usize = 0;
        while j < sb.len()
            invariant
                j <= sb@.len(),
                sb@ == utf8_bytes(s@),
                material@ == utf8_bytes(key@) + sb@.take(j as int),
            decreases sb@.len() - j,
        {
            material.push(sb[j]);
            j = j + 1;
            assert(material@ =~= utf8_bytes(key@) + sb@.take(j as int));
        }
        assert(sb@.take(sb@.len() as int) =~= sb@);
    }
    let digest = sha256(material.as_slice());
    encode(digest.as_slice())
}

/// An API key hash is always 64 hex digits.
pub proof fn lemma_hex_len(bytes: Seq<u8>)
    ensures
        spec_hex(bytes).len() == 2 * bytes.len(),
    decreases bytes.len(),
{
    if bytes.len() > 0 {
        lemma_hex_len(bytes.drop_last());
    }
}

// ============================================================
// Decisions of the authentication service
// ============================================================

/// Decide a registration once it is known whether the email is taken:
/// the request must be valid, then the email free.
pub fn check_registration(req: &CreateLocalUserRequest, email_taken: bool) -> (res: Result<
    (),
    AppError,
>)
    ensures
        user_request_violation(req.email@, req.name@, req.password@) is Some ==> validation_result(
            res,
            user_request_violation(req.email@, req.name@, req.password@),
        ),
        user_request_violation(req.email@, req.name@, req.password@) is None ==> if email_taken {
            res matches Err(AppError::Conflict(m)) && m@ == "user with email "@ + req.email@
                + " already exists"@
        } else {
            res is Ok
        },
{
    req.validate()?;
    if email_taken {
        let mut m = String::from_str("user with email ");
        m.append(req.email.as_str());
        m.append(" already exists");
        return Err(AppError::Conflict(m));
    }
    Ok(())
}

/// Register: validate, refuse a taken email, hash the password and build
/// the new active user.
pub fn register_user(req: CreateLocalUserRequest, email_taken: bool) -> (res: Result<
    User,
    AppError,
>)
    ensures
        user_request_violation(req.email@, req.name@, req.password@) is Some ==> validation_result(
            match res {
                Ok(_) => Ok(()),
                Err(e) => Err(e),
            },
            user_request_violation(req.email@, req.name@, req.password@),
        ),
        user_request_violation(req.email@, req.name@, req.password@) is None && email_taken ==> (
        res matches Err(AppError::Conflict(_))),
        user_request_violation(req.email@, req.name@, req.password@) is None && !email_taken ==> (
        res matches Err(e) ==> e is PasswordHash),
        res matches Ok(u) ==> {
            &&& user_request_violation(req.email@, req.name@, req.password@) is None
            &&& !email_taken
            &&& u.email == req.email
            &&& u.name == req.name
            &&& u.global_role == req.global_role
            &&& u.is_active
            &&& u.password_hash matches Some(h) && bcrypt_verify_result(req.password@, h@) == Ok::<
                bool,
                Seq<char>,
            >(true)
        },
{
    check_registration(&req, email_taken)?;
    let hash = hash_password(req.password.as_str())?;
    Ok(User::new_local(req.email, req.name, req.global_role, hash))
}

/// Whether `res` is what a login with this email and password gives when
/// the lookup by email found `found`: an invalid request is refused with
/// its message; an unknown user, a user without a password, or a wrong
/// password with "invalid email or password"; an inactive user with
/// "user account is disabled"; a malformed stored hash with the verifier's
/// message; otherwise the user is accepted.
pub open spec fn login_result(
    res: Result<User, AppError>,
    email: Seq<char>,
    password: Seq<char>,
    found: Option<User>,
) -> bool {
    match login_request_violation(email, password) {
        Some(m) => res matches Err(AppError::BadRequest(x)) && x@ == m,
        None => match found {
            None => res matches Err(AppError::Unauthorized(x)) && x@ == "invalid email or password"@,
            Some(u) => if !u.is_active {
                res matches Err(AppError::Forbidden(x)) && x@ == "user account is disabled"@
            } else {
                match u.password_hash {
                    None => res matches Err(AppError::Unauthorized(x)) && x@
                        == "invalid email or password"@,
                    Some(h) => match bcrypt_verify_result(password, h@) {
                        Ok(true) => res == Ok::<User, AppError>(u),
                        Ok(false) => res matches Err(AppError::Unauthorized(x)) && x@
                            == "invalid email or password"@,
                        Err(m) => res matches Err(AppError::PasswordHash(x)) && x@
                            == "failed to verify password: "@ + m,
                    },
                }
            }
        },
    }
}

/// Decide a login once the user with the request's email has been looked
/// up: the request must be valid, the user known and active, with a
/// password hash that the password verifies against.
pub fn authenticate(req: &LoginRequest, found: Option<User>) -> (res: Result<User, AppError>)
    ensures
        login_result(res, req.email@, req.password@, found),
{
    req.validate()?;
    let user = match found {
        Some(u) => u,
        None => return Err(AppError::unauthorized("invalid email or password")),
    };
    if !user.is_active {
        return Err(AppError::forbidden("user account is disabled"));
    }
    let ok = match &user.password_hash {
        Some(hash) => verify_password(req.password.as_str(), hash.as_str())?,
        None => return Err(AppError::unauthorized("invalid email or password")),
    };
    if !ok {
        return Err(AppError::unauthorized("invalid email or password"));
    }
    Ok(user)
}

/// A user that registration created logs in with the email and password it
/// registered with.
pub proof fn lemma_registered_user_logs_in(
    email: Seq<char>,
    name: Seq<char>,
    password: Seq<char>,
    user: User,
    res: Result<User, AppError>,
)
    requires
        user_request_violation(email, name, password) is None,
        user.is_active,
        user.password_hash matches Some(h) && bcrypt_verify_result(password, h@) == Ok::<
            bool,
            Seq<char>,
        >(true),
        login_result(res, email, password, Some(user)),
    ensures
        res == Ok::<User, AppError>(user),
{
    if password.len() == 0 {
        assert(password =~= Seq::<char>::empty());
        assert(vstd::utf8::encode_utf8(password).len() == 0);
    }
}

/// Decide a token refresh or an access check once the token's user has been
/// loaded: an inactive user is refused.
pub fn check_active(user: User) -> (res: Result<User, AppError>)
    ensures
        user.is_active ==> res == Ok::<User, AppError>(user),
        !user.is_active ==> (res matches Err(AppError::Forbidden(m)) && m@
            == "user account is disabled"@),
{
    if !user.is_active {
        return Err(AppError::forbidden("user account is disabled"));
    }
    Ok(user)
}

/// Decide an API key check once the key has been looked up by its hash and
/// space: the key must exist, must not have expired at `now`, and agent
/// writes must be enabled.
pub fn check_api_key(found: Option<ApiKey>, now: i64, agent_write_enabled: bool) -> (res: Result<
    ApiKey,
    AppError,
>)
    ensures
        match found {
            None => (res matches Err(AppError::Unauthorized(m)) && m@ == "invalid api key"@),
            Some(k) => if k.expires_at matches Some(exp) && exp < now {
                res matches Err(AppError::Unauthorized(m)) && m@ == "api key expired"@
            } else if !agent_write_enabled {
                res matches Err(AppError::Forbidden(m)) && m@ == "agent writes are disabled"@
            } else {
                res == Ok::<ApiKey, AppError>(k)
            },
        },
{
    let key = match found {
        Some(k) => k,
        None => return Err(AppError::unauthorized("invalid api key")),
    };
    if let Some(exp) = key.expires_at {
        if exp < now {
            return Err(AppError::unauthorized("api key expired"));
        }
    }
    if !agent_write_enabled {
        return Err(AppError::forbidden("agent writes are disabled"));
    }
    Ok(key)
}

/// The agent context of an accepted API key, from its owner's global role
/// and space role.
pub fn agent_context(key: ApiKey, user_role: GlobalRole, space_role: Option<SpaceRole>) -> (res:
    AgentContext)
    ensures
        res.api_key_id == key.id,
        res.space_id == key.space_id,
        res.user_id == key.user_id,
        res.user_role == user_role,
        res.space_role == space_role,
        res.scope == key.scope,
{
    AgentContext {
        api_key_id: key.id,
        space_id: key.space_id,
        user_id: key.user_id,
        user_role,
        space_role,
        scope: key.scope,
    }
}

/// The authorization context of a user in a space.
pub fn build_context(user: &User, space_id: &str, space_role: Option<SpaceRole>) -> (res:
    AuthContext)
    ensures
        res.user_id == user.id,
        res.global_role == user.global_role,
        res.space_id@ == space_id@,
        res.space_role == space_role,
{
    AuthContext {
        user_id: user.id.clone(),
        global_role: user.global_role,
        space_id: String::from_str(space_id),
        space_role,
    }
}

} // verus!
