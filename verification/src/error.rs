//! The ways an operation can fail.

use vstd::prelude::*;
use vstd::string::*;

verus! {

/// Why an operation was given up.
#[derive(Debug, PartialEq, Eq)]
pub enum ArchiveError {
    /// A path has a `..` component.
    Traversal,
    /// The directory to archive does not exist.
    NotFound,
    /// A path cannot be written as text.
    InvalidEncoding,
    /// The host could not create, open, read, write, seal or delete
    /// something; the text is the host's own description.
    Io(String),
    /// The host refused the pattern that lists a directory.
    GlobPattern(String),
}

/// An [`ArchiveError`] with its texts as sequences of characters.
pub enum Failure {
    Traversal,
    NotFound,
    InvalidEncoding,
    Io(Seq<char>),
    GlobPattern(Seq<char>),
}

impl View for ArchiveError {
    type V = Failure;

    open spec fn view(&self) -> Failure {
        match self {
            ArchiveError::Traversal => Failure::Traversal,
            ArchiveError::NotFound => Failure::NotFound,
            ArchiveError::InvalidEncoding => Failure::InvalidEncoding,
            ArchiveError::Io(m) => Failure::Io(m@),
            ArchiveError::GlobPattern(m) => Failure::GlobPattern(m@),
        }
    }
}

/// The message that describes `f`.
pub open spec fn message_of(f: Failure) -> Seq<char> {
    match f {
        Failure::Traversal => "path transversal"@,
        Failure::NotFound => "folder not found"@,
        Failure::InvalidEncoding => "path contains invalid UTF-8"@,
        Failure::Io(m) => m,
        Failure::GlobPattern(m) => m,
    }
}

impl ArchiveError {
    /// A message for the caller, in words.
    pub fn message(&self) -> (text: String)
        ensures
            text@ == message_of(self@),
    {
        match self {
            ArchiveError::Traversal => String::from_str("path transversal"),
            ArchiveError::NotFound => String::from_str("folder not found"),
            ArchiveError::InvalidEncoding => String::from_str("path contains invalid UTF-8"),
            ArchiveError::Io(m) => m.clone(),
            ArchiveError::GlobPattern(m) => m.clone(),
        }
    }

    /// A copy of this error.
    pub fn duplicate(&self) -> (copy: ArchiveError)
        ensures
            copy@ == self@,
    {
        match self {
            ArchiveError::Traversal => ArchiveError::Traversal,
            ArchiveError::NotFound => ArchiveError::NotFound,
            ArchiveError::InvalidEncoding => ArchiveError::InvalidEncoding,
            ArchiveError::Io(m) => ArchiveError::Io(m.clone()),
            ArchiveError::GlobPattern(m) => ArchiveError::GlobPattern(m.clone()),
        }
    }
}

} // verus!
