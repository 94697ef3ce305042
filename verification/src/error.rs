//! What can go wrong, and what the process reports for it.

use vstd::prelude::*;

verus! {

/// Exit status of a command that did what it was asked.
pub const EXIT_SUCCESS: u8 = 0;

/// Exit status where the named file was not found.
pub const EXIT_NOT_FOUND: u8 = 1;

/// Exit status where a file could not be read or written.
pub const EXIT_IO: u8 = 2;

/// Exit status where the arguments cannot be used.
pub const EXIT_USAGE: u8 = 64;

/// The kinds of failure, by what follows from them.
#[derive(Clone, Copy, Debug, PartialEq, Eq, Structural)]
pub enum ErrorKind {
    /// The arguments cannot be used. Nothing on disk was touched.
    Usage,
    /// The file named for a single-file command was not found.
    NotFound,
    /// One file of a scan could not be read. The scan goes on without it.
    SkippableIo,
    /// The one file of a single-file command could not be read or written.
    FatalIo,
}

impl ErrorKind {
    /// Whether the command ends here. Only a file skipped by a scan lets it
    /// go on.
    pub open spec fn is_fatal(self) -> bool {
        self != ErrorKind::SkippableIo
    }

    /// The exit status that belongs to a fatal kind. A skipped file ends
    /// nothing, so it has none.
    pub open spec fn exit_code(self) -> Option<u8> {
        match self {
            ErrorKind::Usage => Some(EXIT_USAGE),
            ErrorKind::NotFound => Some(EXIT_NOT_FOUND),
            ErrorKind::SkippableIo => None,
            ErrorKind::FatalIo => Some(EXIT_IO),
        }
    }

    /// Whether the command ends here.
    pub fn fatal(self) -> (fatal: bool)
        ensures
            fatal == self.is_fatal(),
    {
        match self {
            ErrorKind::SkippableIo => false,
            _ => true,
        }
    }

    /// The exit status that belongs to this kind, if it ends the command.
    pub fn code(self) -> (code: Option<u8>)
        ensures
            code == self.exit_code(),
            code is Some <==> self.is_fatal(),
            code matches Some(status) ==> status != EXIT_SUCCESS,
    {
        match self {
            ErrorKind::Usage => Some(EXIT_USAGE),
            ErrorKind::NotFound => Some(EXIT_NOT_FOUND),
            ErrorKind::SkippableIo => None,
            ErrorKind::FatalIo => Some(EXIT_IO),
        }
    }
}

/// The exit status of a command that ended with `outcome`.
pub open spec fn exit_status_of(outcome: Result<(), ErrorKind>) -> u8 {
    match outcome {
        Ok(()) => EXIT_SUCCESS,
        Err(kind) => match kind.exit_code() {
            Some(status) => status,
            None => EXIT_SUCCESS,
        },
    }
}

/// The exit status of a command that ended with `outcome`: zero exactly
/// where nothing fatal happened.
pub fn exit_status(outcome: Result<(), ErrorKind>) -> (status: u8)
    ensures
        status == exit_status_of(outcome),
        status == EXIT_SUCCESS <==> (outcome matches Err(kind) ==> !kind.is_fatal()),
{
    match outcome {
        Ok(()) => EXIT_SUCCESS,
        Err(kind) => match kind.code() {
            Some(status) => status,
            None => EXIT_SUCCESS,
        },
    }
}

/// An argument that no command can work with.
#[derive(Clone, Copy, Debug, PartialEq, Eq, Structural)]
pub enum UsageError {
    /// The text to search for is empty.
    EmptySearchText,
}

impl UsageError {
    /// What the user is told.
    pub open spec fn description(self) -> Seq<char> {
        match self {
            UsageError::EmptySearchText => "The text to search for must not be empty."@,
        }
    }

    /// What the user is told.
    pub fn describe(self) -> (message: String)
        ensures
            message@ == self.description(),
    {
        match self {
            UsageError::EmptySearchText => "The text to search for must not be empty.".to_owned(),
        }
    }

    /// Every usage error is of the kind `Usage`.
    pub fn kind(self) -> (kind: ErrorKind)
        ensures
            kind == ErrorKind::Usage,
    {
        ErrorKind::Usage
    }
}

} // verus!
