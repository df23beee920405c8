//! Error values returned by the library.

use vstd::prelude::*;

verus! {

/// The category of an error.
#[derive(Debug, Clone, Copy, PartialEq, Eq, Structural)]
pub enum ErrorKind {
    /// An argument or on-disk value is outside what the operation accepts.
    InvalidInput,
    /// On-disk metadata failed a consistency check.
    Corrupted,
    /// The requested object does not exist.
    NotFound,
    /// Not enough room for the requested operation.
    NoSpace,
    /// The device reported a failure.
    Io,
    /// The operation is not supported.
    Unsupported,
    /// The object is not in a state that allows the operation.
    InvalidState,
    /// An entry of that name already exists.
    AlreadyExists,
    /// The directory still holds entries.
    NotEmpty,
}

/// An error: a kind and a static description.
#[derive(Debug, Clone, Copy)]
pub struct Error {
    kind: ErrorKind,
    message: &'static str,
}

impl Error {
    /// The kind of this error, as a specification value.
    pub closed spec fn spec_kind(&self) -> ErrorKind {
        self.kind
    }

    /// The description of this error, as a specification value.
    pub closed spec fn spec_message(&self) -> &'static str {
        self.message
    }

    /// Creates an error of the given kind.
    pub fn new(kind: ErrorKind, message: &'static str) -> (e: Error)
        ensures
            e.spec_kind() == kind,
            e.spec_message() == message,
    {
        Error { kind, message }
    }

    /// The kind of this error.
    #[verifier::when_used_as_spec(spec_kind)]
    pub fn kind(&self) -> (k: ErrorKind)
        ensures
            k == self.spec_kind(),
    {
        self.kind
    }

    /// The description given when the error was created.
    pub fn message(&self) -> (r: &'static str)
        ensures
            r == self.spec_message(),
    {
        self.message
    }
}

/// Result type of the library.
pub type Result<T> = core::result::Result<T, Error>;

} // verus!
