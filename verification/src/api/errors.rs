//! The answer to a request that failed with a domain error.
use vstd::prelude::*;
use crate::entities::errors::{domain_error_message, DomainError, DomainErrorView};

verus! {

/// A domain error on its way to becoming an HTTP response.
pub struct AppError(pub DomainError);

impl From<DomainError> for AppError {
    fn from(err: DomainError) -> (r: Self) {
        AppError(err)
    }
}

impl vstd::std_specs::convert::FromSpecImpl<DomainError> for AppError {
    open spec fn obeys_from_spec() -> bool {
        true
    }

    open spec fn from_spec(v: DomainError) -> Self {
        AppError(v)
    }
}

/// The HTTP status answering each kind of domain error.
pub open spec fn error_status(e: DomainErrorView) -> u16 {
    match e {
        DomainErrorView::NotFound(_) => 404,
        DomainErrorView::Validation(_) => 400,
        DomainErrorView::AiError(_) => 502,
        DomainErrorView::PersistenceError(_) => 500,
    }
}

/// The machine-readable code answering each kind of domain error.
pub open spec fn error_code(e: DomainErrorView) -> Seq<char> {
    match e {
        DomainErrorView::NotFound(_) => "NOT_FOUND"@,
        DomainErrorView::Validation(_) => "VALIDATION_ERROR"@,
        DomainErrorView::AiError(_) => "AI_ERROR"@,
        DomainErrorView::PersistenceError(_) => "INTERNAL_ERROR"@,
    }
}

impl AppError {
    /// The HTTP status of the response.
    pub fn status(&self) -> (s: u16)
        ensures
            s == error_status(self.0@),
    {
        match &self.0 {
            DomainError::NotFound(_) => 404,
            DomainError::Validation(_) => 400,
            DomainError::AiError(_) => 502,
            DomainError::PersistenceError(_) => 500,
        }
    }

    /// The `code` field of the response body.
    pub fn code(&self) -> (c: &'static str)
        ensures
            c@ == error_code(self.0@),
    {
        match &self.0 {
            DomainError::NotFound(_) => "NOT_FOUND",
            DomainError::Validation(_) => "VALIDATION_ERROR",
            DomainError::AiError(_) => "AI_ERROR",
            DomainError::PersistenceError(_) => "INTERNAL_ERROR",
        }
    }

    /// The `error` field of the response body: the error's display text.
    pub fn error_text(&self) -> (s: String)
        ensures
            s@ == domain_error_message(self.0@),
    {
        self.0.message()
    }
}

} // verus!
