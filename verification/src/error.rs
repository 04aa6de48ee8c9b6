//! The kinds of failure that the service tells apart.

use vstd::prelude::*;

verus! {

/// Why an operation failed.
#[derive(Debug, Clone, Copy, PartialEq, Eq, Structural)]
pub enum ErrorKind {
    /// No item has the id or hash that was asked for.
    NotFound,
    /// An item with the same content hash is already stored.
    Conflict,
    /// The request is malformed or names an empty set of ids.
    InvalidArgument,
    /// The clipboard tool could not be run or reported a failure.
    ExternalToolFailure,
    /// The store could not carry out the operation.
    StoreFailure,
    /// An artifact file could not be written, decoded or encoded.
    ArtifactFailure,
}

impl ErrorKind {
    /// The name of the kind, as it is written in a response.
    pub fn name(&self) -> (name: &'static str)
        ensures
            name@ == kind_name(*self),
    {
        match self {
            ErrorKind::NotFound => "not found",
            ErrorKind::Conflict => "conflict",
            ErrorKind::InvalidArgument => "invalid argument",
            ErrorKind::ExternalToolFailure => "external tool failure",
            ErrorKind::StoreFailure => "store failure",
            ErrorKind::ArtifactFailure => "artifact failure",
        }
    }
}

/// The name of each kind.
pub open spec fn kind_name(kind: ErrorKind) -> Seq<char> {
    match kind {
        ErrorKind::NotFound => "not found"@,
        ErrorKind::Conflict => "conflict"@,
        ErrorKind::InvalidArgument => "invalid argument"@,
        ErrorKind::ExternalToolFailure => "external tool failure"@,
        ErrorKind::StoreFailure => "store failure"@,
        ErrorKind::ArtifactFailure => "artifact failure"@,
    }
}

} // verus!
