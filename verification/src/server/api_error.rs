//! Errors of the domain API and their mapping onto HTTP statuses and envelopes.

use vstd::prelude::*;
use vstd::string::*;
use crate::error::{status_of, ErrorCode, ErrorEnvelope, FieldError};

verus! {

/// An error of a handler: the only way out to an envelope.
#[derive(Debug)]
pub enum ApiError {
    /// 404: the resource is missing.
    NotFound(String),
    /// 422: the body or the parameters are invalid (with field locations).
    Validation(String, Vec<FieldError>),
    /// 500: internal error.
    Internal(String),
}

impl ApiError {
    /// A 422 pointing at one field.
    pub fn validation(message: &str, field: String, detail: String) -> (e: Self)
        ensures
            e matches ApiError::Validation(m, d) && m@ == message@ && d.len() == 1 && d[0].field
                == field && d[0].message == detail,
    {
        let mut d: Vec<FieldError> = Vec::new();
        d.push(FieldError { field, message: detail });
        ApiError::Validation(message.to_owned(), d)
    }

    /// The HTTP status and the envelope of the error.
    pub fn into_envelope(self) -> (r: (u16, ErrorEnvelope))
        ensures
            r.0 == status_of(r.1.code),
            match self {
                ApiError::NotFound(m) => r.0 == 404 && r.1.code == ErrorCode::NotFound
                    && r.1.message@ == m@ && r.1.detail is None,
                ApiError::Validation(m, d) => r.0 == 422 && r.1.code == ErrorCode::ValidationFailed
                    && r.1.message@ == m@ && (d.len() == 0 ==> r.1.detail is None) && (d.len() > 0
                    ==> r.1.detail == Some(d)),
                ApiError::Internal(m) => r.0 == 500 && r.1.code == ErrorCode::Internal
                    && r.1.message@ == m@ && r.1.detail is None,
            },
    {
        match self {
            ApiError::NotFound(m) => (404, ErrorEnvelope::new(ErrorCode::NotFound, m.as_str())),
            ApiError::Validation(m, d) => (422, ErrorEnvelope::validation(m.as_str(), d)),
            ApiError::Internal(m) => (500, ErrorEnvelope::new(ErrorCode::Internal, m.as_str())),
        }
    }
}

} // verus!
