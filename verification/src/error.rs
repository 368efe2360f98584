//! The named conditions under which resolution, validation or a step of a
//! run fails, each with the line that is shown to the operator.

use vstd::prelude::*;

verus! {

/// What went wrong.
#[derive(Clone, Copy, Debug, PartialEq, Eq, Structural)]
pub enum ErrorKind {
    /// A serial or uuid matches more than one inventory entry.
    NonUniqueIdentifier,
    /// The target file of a backup exists already.
    AlreadyPresent,
    /// The destination has too little free space for the source device.
    InsufficientSpace,
    /// The destination filesystem could not be mounted.
    MountFailure,
    /// The destination filesystem could not be unmounted.
    UnmountFailure,
    /// An external command could not be started or did not succeed.
    CommandExecutionFailure,
    /// The oldest backup could not be removed.
    RetentionDeletionFailure,
    /// The configuration or the command line is not acceptable.
    ConfigurationError,
    /// A size string has no number in front of its unit.
    InvalidSize,
    /// No inventory entry carries the serial that was asked for.
    DeviceNotFound,
}

/// A failure: its kind and its message.
#[derive(Debug, PartialEq, Eq)]
pub struct Error {
    pub kind: ErrorKind,
    pub message: String,
}

/// The mathematical value of an [`Error`].
pub struct ErrorView {
    pub kind: ErrorKind,
    pub message: Seq<char>,
}

impl View for Error {
    type V = ErrorView;

    open spec fn view(&self) -> ErrorView {
        ErrorView { kind: self.kind, message: self.message@ }
    }
}

impl Clone for Error {
    fn clone(&self) -> (r: Self)
        ensures
            r@ == self@,
    {
        Error { kind: self.kind, message: self.message.clone() }
    }
}

impl Error {
    /// An error of the given kind with the given message.
    pub fn new(kind: ErrorKind, message: String) -> (r: Error)
        ensures
            r@ == (ErrorView { kind, message: message@ }),
    {
        Error { kind, message }
    }

    /// The line shown to the operator.
    pub fn message(&self) -> (r: String)
        ensures
            r@ == self@.message,
    {
        self.message.clone()
    }
}

} // verus!
