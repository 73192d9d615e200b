//! Unified application error type and its wire codes.

use vstd::prelude::*;

verus! {

/// Application error.
///
/// Errors raised by outside services (the database, JSON, I/O, the
/// full-text index, HTTP) carry the rendered message of the outside error.
#[derive(Debug, Clone)]
pub enum AppError {
    BadRequest(String),
    NotFound(String),
    Internal(String),
    NotImplemented(String),
    Unauthorized(String),
    Forbidden(String),
    Conflict(String),
    Jwt(String),
    PasswordHash(String),
    Database(String),
    Serde(String),
    Io(String),
    Tantivy(String),
    TantivyQueryParse(String),
    Http(String),
}

/// The message carried by an error.
pub open spec fn message_of(e: AppError) -> Seq<char> {
    match e {
        AppError::BadRequest(m) => m@,
        AppError::NotFound(m) => m@,
        AppError::Internal(m) => m@,
        AppError::NotImplemented(m) => m@,
        AppError::Unauthorized(m) => m@,
        AppError::Forbidden(m) => m@,
        AppError::Conflict(m) => m@,
        AppError::Jwt(m) => m@,
        AppError::PasswordHash(m) => m@,
        AppError::Database(m) => m@,
        AppError::Serde(m) => m@,
        AppError::Io(m) => m@,
        AppError::Tantivy(m) => m@,
        AppError::TantivyQueryParse(m) => m@,
        AppError::Http(m) => m@,
    }
}

/// Numeric error code of each error kind, as sent in response bodies.
pub open spec fn spec_error_code(e: AppError) -> i32 {
    match e {
        AppError::BadRequest(_) => 40000,
        AppError::Unauthorized(_) => 40100,
        AppError::Jwt(_) => 40101,
        AppError::Forbidden(_) => 40300,
        AppError::NotFound(_) => 40400,
        AppError::Conflict(_) => 40900,
        AppError::Internal(_) => 50000,
        AppError::NotImplemented(_) => 50100,
        AppError::Database(_) => 50001,
        AppError::Serde(_) => 50002,
        AppError::Io(_) => 50003,
        AppError::Tantivy(_) => 50004,
        AppError::Http(_) => 50005,
        AppError::TantivyQueryParse(_) => 50006,
        AppError::PasswordHash(_) => 50007,
    }
}

/// HTTP status of each error kind.
pub open spec fn spec_status_code(e: AppError) -> u16 {
    match e {
        AppError::BadRequest(_) => 400,
        AppError::Unauthorized(_) | AppError::Jwt(_) => 401,
        AppError::Forbidden(_) => 403,
        AppError::NotFound(_) => 404,
        AppError::Conflict(_) => 409,
        AppError::NotImplemented(_) => 501,
        _ => 500,
    }
}

/// The human-readable prefix of each error kind.
pub open spec fn display_prefix(e: AppError) -> Seq<char> {
    match e {
        AppError::BadRequest(_) => "bad request: "@,
        AppError::NotFound(_) => "not found: "@,
        AppError::Internal(_) => "internal error: "@,
        AppError::NotImplemented(_) => "not implemented: "@,
        AppError::Unauthorized(_) => "unauthorized: "@,
        AppError::Forbidden(_) => "forbidden: "@,
        AppError::Conflict(_) => "conflict: "@,
        AppError::Jwt(_) => "jwt error: "@,
        AppError::PasswordHash(_) => "password hash error: "@,
        AppError::Database(_) => "database error: "@,
        AppError::Serde(_) => "serde error: "@,
        AppError::Io(_) => "io error: "@,
        AppError::Tantivy(_) => "tantivy error: "@,
        AppError::TantivyQueryParse(_) => "tantivy query parse error: "@,
        AppError::Http(_) => "http error: "@,
    }
}

impl AppError {
    /// The human-readable rendering of the error: its kind, then its message.
    pub fn to_string(&self) -> (res: String)
        ensures
            res@ == display_prefix(*self) + message_of(*self),
    {
        let (prefix, m) = match self {
            AppError::BadRequest(m) => ("bad request: ", m),
            AppError::NotFound(m) => ("not found: ", m),
            AppError::Internal(m) => ("internal error: ", m),
            AppError::NotImplemented(m) => ("not implemented: ", m),
            AppError::Unauthorized(m) => ("unauthorized: ", m),
            AppError::Forbidden(m) => ("forbidden: ", m),
            AppError::Conflict(m) => ("conflict: ", m),
            AppError::Jwt(m) => ("jwt error: ", m),
            AppError::PasswordHash(m) => ("password hash error: ", m),
            AppError::Database(m) => ("database error: ", m),
            AppError::Serde(m) => ("serde error: ", m),
            AppError::Io(m) => ("io error: ", m),
            AppError::Tantivy(m) => ("tantivy error: ", m),
            AppError::TantivyQueryParse(m) => ("tantivy query parse error: ", m),
            AppError::Http(m) => ("http error: ", m),
        };
        let mut res = String::from_str(prefix);
        res.append(m.as_str());
        res
    }

    /// Create a bad request error.
    pub fn bad_request(msg: &str) -> (res: Self)
        ensures
            res matches AppError::BadRequest(m) && m@ == msg@,
    {
        AppError::BadRequest(String::from_str(msg))
    }

    /// Create a not found error.
    pub fn not_found(msg: &str) -> (res: Self)
        ensures
            res matches AppError::NotFound(m) && m@ == msg@,
    {
        AppError::NotFound(String::from_str(msg))
    }

    /// Create an internal error.
    pub fn internal(msg: &str) -> (res: Self)
        ensures
            res matches AppError::Internal(m) && m@ == msg@,
    {
        AppError::Internal(String::from_str(msg))
    }

    /// Create a not implemented error.
    pub fn not_implemented(msg: &str) -> (res: Self)
        ensures
            res matches AppError::NotImplemented(m) && m@ == msg@,
    {
        AppError::NotImplemented(String::from_str(msg))
    }

    /// Create an unauthorized error.
    pub fn unauthorized(msg: &str) -> (res: Self)
        ensures
            res matches AppError::Unauthorized(m) && m@ == msg@,
    {
        AppError::Unauthorized(String::from_str(msg))
    }

    /// Create a forbidden error.
    pub fn forbidden(msg: &str) -> (res: Self)
        ensures
            res matches AppError::Forbidden(m) && m@ == msg@,
    {
        AppError::Forbidden(String::from_str(msg))
    }

    /// Create a conflict error.
    pub fn conflict(msg: &str) -> (res: Self)
        ensures
            res matches AppError::Conflict(m) && m@ == msg@,
    {
        AppError::Conflict(String::from_str(msg))
    }

    /// Numeric error code sent in the response body.
    pub fn error_code(&self) -> (code: i32)
        ensures
            code == spec_error_code(*self),
    {
        match self {
            AppError::BadRequest(_) => 40000,
            AppError::Unauthorized(_) => 40100,
            AppError::Jwt(_) => 40101,
            AppError::Forbidden(_) => 40300,
            AppError::NotFound(_) => 40400,
            AppError::Conflict(_) => 40900,
            AppError::Internal(_) => 50000,
            AppError::NotImplemented(_) => 50100,
            AppError::Database(_) => 50001,
            AppError::Serde(_) => 50002,
            AppError::Io(_) => 50003,
            AppError::Tantivy(_) => 50004,
            AppError::Http(_) => 50005,
            AppError::TantivyQueryParse(_) => 50006,
            AppError::PasswordHash(_) => 50007,
        }
    }

    /// HTTP status code of the response.
    pub fn status_code(&self) -> (status: u16)
        ensures
            status == spec_status_code(*self),
    {
        match self {
            AppError::BadRequest(_) => 400,
            AppError::Unauthorized(_) | AppError::Jwt(_) => 401,
            AppError::Forbidden(_) => 403,
            AppError::NotFound(_) => 404,
            AppError::Conflict(_) => 409,
            AppError::NotImplemented(_) => 501,
            _ => 500,
        }
    }
}

/// Every error code lies in the hundredfold range of its HTTP status:
/// `code / 100 == status`.
pub proof fn lemma_code_matches_status(e: AppError)
    ensures
        spec_error_code(e) / 100 == spec_status_code(e) as i32,
{
}

} // verus!
