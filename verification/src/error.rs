//! Error envelope and error codes: every non-2xx response carries one envelope.

use vstd::prelude::*;

verus! {

/// Machine-readable error code.
#[derive(Debug, Clone, Copy, PartialEq, Eq, Structural)]
pub enum ErrorCode {
    /// 401: missing or wrong Bearer token.
    Unauthorized,
    /// 404: resource missing (routes outside the contract included).
    NotFound,
    /// 409: state conflict.
    Conflict,
    /// 422: request body or parameters do not match the contract schema.
    ValidationFailed,
    /// 500: internal server error.
    Internal,
}

/// HTTP status of each error code.
pub open spec fn status_of(code: ErrorCode) -> u16 {
    match code {
        ErrorCode::Unauthorized => 401,
        ErrorCode::NotFound => 404,
        ErrorCode::Conflict => 409,
        ErrorCode::ValidationFailed => 422,
        ErrorCode::Internal => 500,
    }
}

/// Where a validation failure points (an entry of a 422 envelope's detail).
#[derive(Debug, Clone, PartialEq)]
pub struct FieldError {
    /// Field path (such as `entries[0].title`).
    pub field: String,
    /// Why it failed (human-readable).
    pub message: String,
}

/// The uniform error envelope.
#[derive(Debug, Clone, PartialEq)]
pub struct ErrorEnvelope {
    /// Machine-readable code.
    pub code: ErrorCode,
    /// Human-readable message.
    pub message: String,
    /// Optional detail (field locations of a 422).
    pub detail: Option<Vec<FieldError>>,
}

impl ErrorEnvelope {
    /// An envelope without detail.
    pub fn new(code: ErrorCode, message: &str) -> (e: Self)
        ensures
            e.code == code,
            e.message@ == message@,
            e.detail is None,
    {
        ErrorEnvelope { code, message: message.to_owned(), detail: None }
    }

    /// A validation failure (422) carrying field locations; empty detail is left out.
    pub fn validation(message: &str, detail: Vec<FieldError>) -> (e: Self)
        ensures
            e.code == ErrorCode::ValidationFailed,
            e.message@ == message@,
            detail.len() == 0 ==> e.detail is None,
            detail.len() > 0 ==> e.detail == Some(detail),
    {
        let empty = detail.len() == 0;
        ErrorEnvelope {
            code: ErrorCode::ValidationFailed,
            message: message.to_owned(),
            detail: if empty { None } else { Some(detail) },
        }
    }

    /// The HTTP status of this envelope's code.
    pub fn status(&self) -> (s: u16)
        ensures
            s == status_of(self.code),
    {
        match self.code {
            ErrorCode::Unauthorized => 401,
            ErrorCode::NotFound => 404,
            ErrorCode::Conflict => 409,
            ErrorCode::ValidationFailed => 422,
            ErrorCode::Internal => 500,
        }
    }
}

} // verus!
