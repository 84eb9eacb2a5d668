use vstd::prelude::*;

verus! {

/// The errors the record API answers with, each with its message.
#[derive(Clone, Debug)]
pub enum ApiError {
    NotFound(String),
    Conflict(String),
    VersionMismatch(String),
    BadRequest(String),
    Internal(String),
}

impl ApiError {
    /// The HTTP status of the error.
    pub open spec fn status_spec(&self) -> u16 {
        match self {
            ApiError::NotFound(_) => 404,
            ApiError::Conflict(_) => 409,
            ApiError::VersionMismatch(_) => 412,
            ApiError::BadRequest(_) => 400,
            ApiError::Internal(_) => 500,
        }
    }

    /// The machine-readable error code of the response body.
    pub open spec fn code_spec(&self) -> Seq<char> {
        match self {
            ApiError::NotFound(_) => "NOT_FOUND"@,
            ApiError::Conflict(_) => "CONFLICT"@,
            ApiError::VersionMismatch(_) => "VERSION_MISMATCH"@,
            ApiError::BadRequest(_) => "BAD_REQUEST"@,
            ApiError::Internal(_) => "INTERNAL"@,
        }
    }

    /// The human-readable message.
    pub open spec fn message_spec(&self) -> Seq<char> {
        match self {
            ApiError::NotFound(m) => m@,
            ApiError::Conflict(m) => m@,
            ApiError::VersionMismatch(m) => m@,
            ApiError::BadRequest(m) => m@,
            ApiError::Internal(m) => m@,
        }
    }

    pub fn status(&self) -> (r: u16)
        ensures
            r == self.status_spec(),
    {
        match self {
            ApiError::NotFound(_) => 404,
            ApiError::Conflict(_) => 409,
            ApiError::VersionMismatch(_) => 412,
            ApiError::BadRequest(_) => 400,
            ApiError::Internal(_) => 500,
        }
    }

    pub fn code(&self) -> (r: &'static str)
        ensures
            r@ == self.code_spec(),
    {
        match self {
            ApiError::NotFound(_) => "NOT_FOUND",
            ApiError::Conflict(_) => "CONFLICT",
            ApiError::VersionMismatch(_) => "VERSION_MISMATCH",
            ApiError::BadRequest(_) => "BAD_REQUEST",
            ApiError::Internal(_) => "INTERNAL",
        }
    }

    pub fn message(&self) -> (r: &str)
        ensures
            r@ == self.message_spec(),
    {
        match self {
            ApiError::NotFound(m) => m.as_str(),
            ApiError::Conflict(m) => m.as_str(),
            ApiError::VersionMismatch(m) => m.as_str(),
            ApiError::BadRequest(m) => m.as_str(),
            ApiError::Internal(m) => m.as_str(),
        }
    }
}

} // verus!
