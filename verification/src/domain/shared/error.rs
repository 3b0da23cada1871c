//! Domain errors.
use vstd::prelude::*;

verus! {

/// Domain error kinds, each with a detail message.
#[derive(Debug, Clone)]
pub enum DomainError {
    InvalidStateTransition(String),
    InvalidOperation(String),
    NotFound(String),
    AlreadyExists(String),
    Unauthorized(String),
    ValidationError(String),
    Conflict(String),
    Internal(String),
}

impl DomainError {
    /// The label that precedes the detail in the error's text.
    pub open spec fn spec_label(&self) -> Seq<char> {
        match self {
            DomainError::InvalidStateTransition(_) => "Invalid state transition: "@,
            DomainError::InvalidOperation(_) => "Invalid operation: "@,
            DomainError::NotFound(_) => "Entity not found: "@,
            DomainError::AlreadyExists(_) => "Entity already exists: "@,
            DomainError::Unauthorized(_) => "Unauthorized: "@,
            DomainError::ValidationError(_) => "Validation error: "@,
            DomainError::Conflict(_) => "Conflict: "@,
            DomainError::Internal(_) => "Internal error: "@,
        }
    }

    /// The detail message.
    pub open spec fn spec_detail(&self) -> Seq<char> {
        match self {
            DomainError::InvalidStateTransition(m) => m@,
            DomainError::InvalidOperation(m) => m@,
            DomainError::NotFound(m) => m@,
            DomainError::AlreadyExists(m) => m@,
            DomainError::Unauthorized(m) => m@,
            DomainError::ValidationError(m) => m@,
            DomainError::Conflict(m) => m@,
            DomainError::Internal(m) => m@,
        }
    }

    /// The error's text: its label followed by its detail.
    pub fn to_string(&self) -> (r: String)
        ensures
            r@ == self.spec_label() + self.spec_detail(),
    {
        let (label, detail) = match self {
            DomainError::InvalidStateTransition(m) => ("Invalid state transition: ", m),
            DomainError::InvalidOperation(m) => ("Invalid operation: ", m),
            DomainError::NotFound(m) => ("Entity not found: ", m),
            DomainError::AlreadyExists(m) => ("Entity already exists: ", m),
            DomainError::Unauthorized(m) => ("Unauthorized: ", m),
            DomainError::ValidationError(m) => ("Validation error: ", m),
            DomainError::Conflict(m) => ("Conflict: ", m),
            DomainError::Internal(m) => ("Internal error: ", m),
        };
        let mut r = String::from_str(label);
        r.append(detail.as_str());
        r
    }
}

} // verus!
