//! The library's error taxonomy.
use vstd::prelude::*;

use crate::text::cat;

verus! {

/// The view of a [`RagError`].
pub enum ErrV {
    InvalidInput(Seq<char>),
    PermissionDenied(Seq<char>),
    NotFound(Seq<char>),
    SchemaInvalid(Seq<char>),
    Internal(Seq<char>),
}

#[derive(Debug, Clone, PartialEq, Eq)]
pub enum RagError {
    /// Malformed arguments, contradictory arguments, or missing configuration.
    InvalidInput(String),
    /// Host refused a secret or an out-of-allowlist URL; upstream 401/403.
    PermissionDenied(String),
    /// Collection or point absent; upstream 404.
    NotFound(String),
    /// Embedding dimensions disagree with the collection.
    SchemaInvalid(String),
    /// Transport failure, 5xx, or an unparseable response body.
    Internal(String),
}

impl View for RagError {
    type V = ErrV;

    open spec fn view(&self) -> ErrV {
        match self {
            RagError::InvalidInput(m) => ErrV::InvalidInput(m@),
            RagError::PermissionDenied(m) => ErrV::PermissionDenied(m@),
            RagError::NotFound(m) => ErrV::NotFound(m@),
            RagError::SchemaInvalid(m) => ErrV::SchemaInvalid(m@),
            RagError::Internal(m) => ErrV::Internal(m@),
        }
    }
}

/// The one-line description of an error: its kind, a colon, its message.
pub open spec fn describe_spec(e: ErrV) -> Seq<char> {
    match e {
        ErrV::InvalidInput(m) => "invalid input: "@ + m,
        ErrV::PermissionDenied(m) => "permission denied: "@ + m,
        ErrV::NotFound(m) => "not found: "@ + m,
        ErrV::SchemaInvalid(m) => "schema invalid: "@ + m,
        ErrV::Internal(m) => "internal: "@ + m,
    }
}

impl RagError {
    /// The text `Display` shows for this error in the host's logs.
    pub fn describe(&self) -> (r: String)
        ensures
            r@ == describe_spec(self@),
    {
        match self {
            RagError::InvalidInput(m) => cat("invalid input: ", m.as_str()),
            RagError::PermissionDenied(m) => cat("permission denied: ", m.as_str()),
            RagError::NotFound(m) => cat("not found: ", m.as_str()),
            RagError::SchemaInvalid(m) => cat("schema invalid: ", m.as_str()),
            RagError::Internal(m) => cat("internal: ", m.as_str()),
        }
    }

    /// A copy of this error.
    pub fn duplicate(&self) -> (r: RagError)
        ensures
            r@ == self@,
    {
        match self {
            RagError::InvalidInput(m) => RagError::InvalidInput(m.clone()),
            RagError::PermissionDenied(m) => RagError::PermissionDenied(m.clone()),
            RagError::NotFound(m) => RagError::NotFound(m.clone()),
            RagError::SchemaInvalid(m) => RagError::SchemaInvalid(m.clone()),
            RagError::Internal(m) => RagError::Internal(m.clone()),
        }
    }
}

} // verus!
