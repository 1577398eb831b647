//! The error kinds that the backup subsystem surfaces.

use vstd::prelude::*;

verus! {

/// What went wrong, by the part of the system that failed.
#[derive(Clone, Copy, Debug, PartialEq, Eq, Structural)]
pub enum ErrorKind {
    Unknown,
    Filesystem,
    Backup,
    Restore,
    Serialization,
    Database,
    ParseDbField,
    IncorrectPassword,
    ValidateS9pk,
}

/// An error: its kind and a message for the operator.
#[derive(Debug)]
pub struct Error {
    pub kind: ErrorKind,
    pub message: String,
}

impl Error {
    /// An error of the given kind that carries `message` unchanged.
    pub fn new(kind: ErrorKind, message: String) -> (e: Error)
        ensures
            e.kind == kind,
            e.message@ == message@,
    {
        Error { kind, message }
    }

    /// A second error of the same kind with the same message.
    pub fn duplicate(&self) -> (e: Error)
        ensures
            e.kind == self.kind,
            e.message@ == self.message@,
    {
        Error { kind: self.kind, message: self.message.clone() }
    }

    /// The error as plain values: its kind and its message.
    pub open spec fn parts(&self) -> (ErrorKind, Seq<char>) {
        (self.kind, self.message@)
    }
}

} // verus!
