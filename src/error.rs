use crate::text::owned;
use vstd::prelude::*;
use vstd::string::*;

verus! {

/// Failures surfaced to callers; each maps to one HTTP status.
#[derive(Debug, PartialEq, Eq)]
pub enum ApiError {
    DatabaseError(String),
    ValidationError(String),
    NotFound(String),
    AuthenticationError(String),
    InternalServerError,
}

/// The HTTP status that an error answers with.
pub open spec fn status_of(e: ApiError) -> u16 {
    match e {
        ApiError::DatabaseError(_) => 500,
        ApiError::InternalServerError => 500,
        ApiError::ValidationError(_) => 400,
        ApiError::NotFound(_) => 404,
        ApiError::AuthenticationError(_) => 401,
    }
}

/// The `error` field of the response body.
pub open spec fn kind_of(e: ApiError) -> Seq<char> {
    match e {
        ApiError::DatabaseError(_) => "DatabaseError"@,
        ApiError::ValidationError(_) => "ValidationError"@,
        ApiError::NotFound(_) => "NotFound"@,
        ApiError::AuthenticationError(_) => "AuthenticationError"@,
        ApiError::InternalServerError => "InternalServerError"@,
    }
}

/// The `message` field of the response body.
pub open spec fn message_of(e: ApiError) -> Seq<char> {
    match e {
        ApiError::DatabaseError(m) => m@,
        ApiError::ValidationError(m) => m@,
        ApiError::NotFound(m) => m@,
        ApiError::AuthenticationError(m) => m@,
        ApiError::InternalServerError => "An unexpected error occurred"@,
    }
}

/// The one-line description of an error.
pub open spec fn description_of(e: ApiError) -> Seq<char> {
    match e {
        ApiError::DatabaseError(m) => "Database error: "@ + m@,
        ApiError::ValidationError(m) => "Validation error: "@ + m@,
        ApiError::NotFound(m) => "Not found: "@ + m@,
        ApiError::AuthenticationError(m) => "Authentication error: "@ + m@,
        ApiError::InternalServerError => "Internal server error"@,
    }
}

impl ApiError {
    pub fn status_code(&self) -> (r: u16)
        ensures
            r == status_of(*self),
    {
        match self {
            ApiError::DatabaseError(_) => 500,
            ApiError::InternalServerError => 500,
            ApiError::ValidationError(_) => 400,
            ApiError::NotFound(_) => 404,
            ApiError::AuthenticationError(_) => 401,
        }
    }

    /// The `(error, message)` pair of the JSON body sent with the status.
    pub fn error_response(&self) -> (r: (String, String))
        ensures
            r.0@ == kind_of(*self),
            r.1@ == message_of(*self),
    {
        match self {
            ApiError::DatabaseError(m) => (owned("DatabaseError"), m.clone()),
            ApiError::ValidationError(m) => (owned("ValidationError"), m.clone()),
            ApiError::NotFound(m) => (owned("NotFound"), m.clone()),
            ApiError::AuthenticationError(m) => (owned("AuthenticationError"), m.clone()),
            ApiError::InternalServerError => (
                owned("InternalServerError"),
                owned("An unexpected error occurred"),
            ),
        }
    }

    /// The error as one line of text.
    pub fn describe(&self) -> (r: String)
        ensures
            r@ == description_of(*self),
    {
        match self {
            ApiError::DatabaseError(m) => owned("Database error: ").concat(m.as_str()),
            ApiError::ValidationError(m) => owned("Validation error: ").concat(m.as_str()),
            ApiError::NotFound(m) => owned("Not found: ").concat(m.as_str()),
            ApiError::AuthenticationError(m) => owned("Authentication error: ").concat(
                m.as_str(),
            ),
            ApiError::InternalServerError => owned("Internal server error"),
        }
    }
}

} // verus!
