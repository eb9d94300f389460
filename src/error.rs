//! Errors of the package-tracking engine.

use vstd::prelude::*;

verus! {

/// What went wrong.
#[derive(Clone, Copy, Debug, PartialEq, Eq, Structural)]
pub enum ErrorKind {
    /// A package-manager definition file exists but cannot be read as text.
    FileUnreadable,
    /// The desired-packages file is missing or is not text.
    PackagesFileUnreadable,
    /// The excluded-packages file is missing or is not text.
    ExcludedFileUnreadable,
    /// A definition file is not a well-formed definition.
    InvalidDefinitionFormat,
    /// Two definitions in one file share a name.
    DuplicateManagerName,
    /// A definition file names another package manager than its folder does.
    NameMismatch,
    /// A folder path has no final component to name a package system by.
    InvalidFolder,
    /// A package-system folder holds no definition file.
    NoPackageManagerFile,
    /// A command could not be started, or its output not captured.
    CommandFailedToRun,
    /// A command ran and exited with a failure status.
    CommandReturnedError,
    /// The output of a list command is not UTF-8 text.
    InvalidOutputEncoding,
    /// The desired-packages file could not be created or truncated.
    FileCreateFailed,
    /// Writing the desired-packages file failed partway.
    WriteFailed,
}

/// An error, with the file, folder or package-manager name it concerns.
#[derive(Clone, Debug, PartialEq, Eq)]
pub struct PacError {
    pub kind: ErrorKind,
    pub subject: String,
}

impl View for PacError {
    type V = (ErrorKind, Seq<char>);

    open spec fn view(&self) -> (ErrorKind, Seq<char>) {
        (self.kind, self.subject@)
    }
}

impl PacError {
    pub fn new(kind: ErrorKind, subject: String) -> (r: PacError)
        ensures
            r.kind == kind,
            r.subject@ == subject@,
    {
        PacError { kind, subject }
    }
}

} // verus!
