//! The error type of the library.
use vstd::prelude::*;

verus! {

/// What kind of failure an [`Error`] reports.
#[derive(Clone, Copy, PartialEq, Eq, Structural, Debug)]
pub enum ErrorKind {
    /// Something that should not happen did happen.
    Unexpected,
    /// Data that was read is not valid.
    DataInvalid,
    /// A feature is not supported.
    FeatureUnsupported,
}

/// A failure, with a message for people.
#[derive(PartialEq, Eq, Debug)]
pub struct Error {
    /// The kind of the failure.
    pub kind: ErrorKind,
    /// What went wrong.
    pub message: String,
}

impl Error {
    /// An error of the given kind with the given message.
    pub fn new(kind: ErrorKind, message: &str) -> (error: Self)
        ensures
            error.kind == kind,
            error.message@ == message@,
    {
        Error { kind, message: message.to_string() }
    }

    /// The kind of the failure.
    pub fn kind(&self) -> (kind: ErrorKind)
        ensures
            kind == self.kind,
    {
        self.kind
    }

    /// Whether this is an error of the given kind that carries the given message.
    pub open spec fn says(self, kind: ErrorKind, message: Seq<char>) -> bool {
        self.kind == kind && self.message@ == message
    }
}

} // verus!
