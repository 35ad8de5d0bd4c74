//! What an operation asks of its host, and what the host tells it.
//!
//! The library never touches the file system or an archive itself. An
//! operation is a value that hands out one [`Request`] at a time; the host
//! carries it out and hands back a [`Reply`], until the request is
//! [`Request::Succeed`] or [`Request::Fail`].

use crate::error::{ArchiveError, Failure};
use crate::member::{listed_of, Found, Listed};
use vstd::prelude::*;
use vstd::string::*;

verus! {

/// One thing for the host to do.
#[derive(Debug, PartialEq, Eq)]
pub enum Request {
    /// Create the archive at `path`, replacing what is there.
    CreateArchive { path: String },
    /// Say whether `path` exists and whether it is a regular file.
    ProbeFile { path: String },
    /// Start an entry called `name` and copy the bytes of the file `source`
    /// into it; with `large_file`, the entry may grow beyond 4 GiB.
    StoreFile { source: String, name: String, large_file: bool },
    /// Write what closes the archive.
    SealArchive,
    /// Say whether `path` exists.
    ProbeFolder { path: String },
    /// List the paths that match `pattern`.
    ListFolder { pattern: String },
    /// Open the archive at `path` and say how many entries it holds.
    OpenArchive { path: String },
    /// Report the name, the comment and the stored mode of entry `index`.
    ReadEntry { index: usize },
    /// Log the comment of entry `index`. A failure to do so is ignored.
    Note { index: usize, comment: String },
    /// Make sure that the directory `path` exists, with every directory
    /// above it.
    MakeDir { path: String },
    /// Create the file `path` and copy the bytes of entry `index` into it.
    ExtractEntry { index: usize, path: String },
    /// Give `path` the permission bits `mode`.
    SetMode { path: String, mode: u32 },
    /// Delete the file `path`.
    RemoveFile { path: String },
    /// Delete the directory `path` with all that it holds.
    RemoveTree { path: String },
    /// Nothing more: the operation has succeeded.
    Succeed,
    /// Nothing more: the operation has failed.
    Fail(ArchiveError),
}

/// A [`Request`] with its texts as sequences of characters.
pub enum Ask {
    CreateArchive { path: Seq<char> },
    ProbeFile { path: Seq<char> },
    StoreFile { source: Seq<char>, name: Seq<char>, large_file: bool },
    SealArchive,
    ProbeFolder { path: Seq<char> },
    ListFolder { pattern: Seq<char> },
    OpenArchive { path: Seq<char> },
    ReadEntry { index: nat },
    Note { index: nat, comment: Seq<char> },
    MakeDir { path: Seq<char> },
    ExtractEntry { index: nat, path: Seq<char> },
    SetMode { path: Seq<char>, mode: u32 },
    RemoveFile { path: Seq<char> },
    RemoveTree { path: Seq<char> },
    Succeed,
    Fail(Failure),
}

impl View for Request {
    type V = Ask;

    open spec fn view(&self) -> Ask {
        match self {
            Request::CreateArchive { path } => Ask::CreateArchive { path: path@ },
            Request::ProbeFile { path } => Ask::ProbeFile { path: path@ },
            Request::StoreFile { source, name, large_file } => Ask::StoreFile {
                source: source@,
                name: name@,
                large_file: *large_file,
            },
            Request::SealArchive => Ask::SealArchive,
            Request::ProbeFolder { path } => Ask::ProbeFolder { path: path@ },
            Request::ListFolder { pattern } => Ask::ListFolder { pattern: pattern@ },
            Request::OpenArchive { path } => Ask::OpenArchive { path: path@ },
            Request::ReadEntry { index } => Ask::ReadEntry { index: *index as nat },
            Request::Note { index, comment } => Ask::Note {
                index: *index as nat,
                comment: comment@,
            },
            Request::MakeDir { path } => Ask::MakeDir { path: path@ },
            Request::ExtractEntry { index, path } => Ask::ExtractEntry {
                index: *index as nat,
                path: path@,
            },
            Request::SetMode { path, mode } => Ask::SetMode { path: path@, mode: *mode },
            Request::RemoveFile { path } => Ask::RemoveFile { path: path@ },
            Request::RemoveTree { path } => Ask::RemoveTree { path: path@ },
            Request::Succeed => Ask::Succeed,
            Request::Fail(e) => Ask::Fail(e@),
        }
    }
}

/// What the host reports of the request it was given.
#[derive(Debug, PartialEq, Eq)]
pub enum Reply {
    /// The request was carried out.
    Done,
    /// The request could not be carried out; the text says why.
    Failed(String),
    /// The answer to a probe.
    Probed { exists: bool, regular: bool },
    /// The items that a pattern matched, in the order they were found.
    Listing(Vec<Found>),
    /// The pattern was refused; the text says why.
    BadPattern(String),
    /// The archive is open and holds `entries` entries.
    Opened { entries: usize },
    /// What is stored of one entry: its name, its comment and, where the
    /// archive holds one, its mode.
    Entry { name: String, comment: String, mode: Option<u32> },
}

/// A [`Reply`] with its texts as sequences of characters.
pub enum Answer {
    Done,
    Failed(Seq<char>),
    Probed { exists: bool, regular: bool },
    Listing(Seq<Listed>),
    BadPattern(Seq<char>),
    Opened { entries: nat },
    Entry { name: Seq<char>, comment: Seq<char>, mode: Option<u32> },
}

impl View for Reply {
    type V = Answer;

    open spec fn view(&self) -> Answer {
        match self {
            Reply::Done => Answer::Done,
            Reply::Failed(m) => Answer::Failed(m@),
            Reply::Probed { exists, regular } => Answer::Probed {
                exists: *exists,
                regular: *regular,
            },
            Reply::Listing(items) => Answer::Listing(listed_of(items@)),
            Reply::BadPattern(m) => Answer::BadPattern(m@),
            Reply::Opened { entries } => Answer::Opened { entries: *entries as nat },
            Reply::Entry { name, comment, mode } => Answer::Entry {
                name: name@,
                comment: comment@,
                mode: *mode,
            },
        }
    }
}

/// What is said when the host answers with a reply that does not fit the
/// request it was given, or goes on after the end.
pub open spec fn unexpected_message() -> Seq<char> {
    "unexpected reply from the host"@
}

/// The failure for a reply that does not fit.
pub open spec fn unexpected() -> Failure {
    Failure::Io(unexpected_message())
}

/// The failure that a reply other than the awaited one stands for: the
/// host's own words where it reports a failure, and a note that the reply
/// was not expected otherwise.
pub open spec fn failure_of(a: Answer) -> Failure {
    match a {
        Answer::Failed(m) => Failure::Io(m),
        _ => unexpected(),
    }
}

/// The error for a reply other than the awaited one.
pub fn error_of(reply: Reply) -> (e: ArchiveError)
    ensures
        e@ == failure_of(reply@),
{
    match reply {
        Reply::Failed(m) => ArchiveError::Io(m),
        _ => ArchiveError::Io(String::from_str("unexpected reply from the host")),
    }
}

} // verus!
