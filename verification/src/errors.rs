//! The library's error type.  Mirrors the two error classes the pipeline
//! distinguishes when building a response: a missing item and an invalid
//! input; only the first maps to a 404 status.

use vstd::prelude::*;

verus! {

/// The two error classes, without detail text; contracts speak in these.
pub enum ErrKind {
    NotFound,
    InvalidInput,
}

/// Why a lookup, a resolution or a check failed.  The carried string is a
/// human-readable detail for logs and error bodies.
#[derive(Debug)]
pub enum HookError {
    NotFound(String),
    InvalidInput(String),
}

impl HookError {
    /// The class of this error.
    pub open spec fn kind(&self) -> ErrKind {
        match self {
            HookError::NotFound(_) => ErrKind::NotFound,
            HookError::InvalidInput(_) => ErrKind::InvalidInput,
        }
    }
}

impl HookError {
    /// Whether this error is classified as "not found".
    pub fn is_not_found(&self) -> (r: bool)
        ensures
            r == (self is NotFound),
    {
        match self {
            HookError::NotFound(_) => true,
            HookError::InvalidInput(_) => false,
        }
    }

    /// The carried detail text.
    pub fn message(&self) -> (r: String)
        ensures
            r@ == self.message_view(),
    {
        match self {
            HookError::NotFound(m) => m.clone(),
            HookError::InvalidInput(m) => m.clone(),
        }
    }

    pub open spec fn message_view(&self) -> Seq<char> {
        match self {
            HookError::NotFound(m) => m@,
            HookError::InvalidInput(m) => m@,
        }
    }
}

} // verus!
