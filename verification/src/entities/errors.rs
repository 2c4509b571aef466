use vstd::prelude::*;
use vstd::string::*;

verus! {

/// Errors of the diagram domain.
pub enum DomainError {
    NotFound(String),
    Validation(String),
    AiError(String),
    PersistenceError(String),
}

/// The text a domain error is displayed as.
pub open spec fn domain_error_message(e: DomainErrorView) -> Seq<char> {
    match e {
        DomainErrorView::NotFound(m) => "Entity not found: "@ + m,
        DomainErrorView::Validation(m) => "Validation error: "@ + m,
        DomainErrorView::AiError(m) => "AI provider error: "@ + m,
        DomainErrorView::PersistenceError(m) => "Persistence error: "@ + m,
    }
}

pub enum DomainErrorView {
    NotFound(Seq<char>),
    Validation(Seq<char>),
    AiError(Seq<char>),
    PersistenceError(Seq<char>),
}

impl View for DomainError {
    type V = DomainErrorView;

    open spec fn view(&self) -> DomainErrorView {
        match self {
            DomainError::NotFound(m) => DomainErrorView::NotFound(m@),
            DomainError::Validation(m) => DomainErrorView::Validation(m@),
            DomainError::AiError(m) => DomainErrorView::AiError(m@),
            DomainError::PersistenceError(m) => DomainErrorView::PersistenceError(m@),
        }
    }
}

impl DomainError {
    /// The display text of the error.
    pub fn message(&self) -> (s: String)
        ensures
            s@ == domain_error_message(self@),
    {
        match self {
            DomainError::NotFound(m) => String::from_str("Entity not found: ").concat(m.as_str()),
            DomainError::Validation(m) => String::from_str("Validation error: ").concat(m.as_str()),
            DomainError::AiError(m) => String::from_str("AI provider error: ").concat(m.as_str()),
            DomainError::PersistenceError(m) => String::from_str("Persistence error: ").concat(
                m.as_str(),
            ),
        }
    }
}

} // verus!
