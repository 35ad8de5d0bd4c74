//! The rules of extraction, as a state and a step function over plain
//! mathematical values. [`crate::extractor::Extractor`] is the executable
//! form of this model.

use crate::archive_model::deletion_wanted;
use crate::enclosed::is_enclosed;
use crate::error::Failure;
use crate::locate::{parent_of, without_extension};
use crate::path::{has_parent_component, is_separator, join};
use crate::protocol::{failure_of, unexpected, Answer, Ask};
use vstd::prelude::*;

verus! {

/// What an extraction is waiting for.
#[derive(Clone, Copy, Debug, PartialEq, Eq, Structural)]
pub enum Phase {
    /// The archive being opened.
    Opening,
    /// What is stored of the entry at the cursor.
    Reading,
    /// The comment of the entry at the cursor being logged.
    Noting,
    /// The directory that the entry at the cursor stands for.
    MakingDir,
    /// The directory that will hold the file of the entry at the cursor.
    MakingParent,
    /// The file of the entry at the cursor being written.
    Writing,
    /// The mode of what the entry at the cursor gave being set.
    SettingMode,
    /// The deletion of the archive.
    Removing,
    /// Nothing: the extraction is over.
    Finished,
}

/// The state of an extraction.
pub struct ExtractorModel {
    pub phase: Phase,
    /// The archive that is read.
    pub input: Seq<char>,
    /// The directory that the entries are extracted into.
    pub target: Seq<char>,
    /// How many entries the archive holds.
    pub entries: nat,
    /// The entry that is dealt with.
    pub cursor: nat,
    /// The name of that entry.
    pub name: Seq<char>,
    /// The mode stored with that entry, if any.
    pub mode: Option<u32>,
    /// Whether the host knows permission bits.
    pub apply_modes: bool,
    /// Whether the archive is deleted after a success.
    pub delete: bool,
}

/// `name` ends with a separator: the entry stands for a directory.
pub open spec fn names_directory(name: Seq<char>) -> bool {
    name.len() > 0 && is_separator(name.last())
}

/// Where the entry at the cursor is extracted to.
pub open spec fn out_path(m: ExtractorModel) -> Seq<char> {
    join(m.target, m.name)
}

/// The directory to make before the file at `out` is written, if there is
/// one to make.
pub open spec fn parent_to_make(out: Seq<char>) -> Option<Seq<char>> {
    match parent_of(out) {
        Some(p) => if p.len() > 0 {
            Some(p)
        } else {
            None
        },
        None => None,
    }
}

/// Whether an entry is being placed: its name has been read and accepted.
pub open spec fn placing(p: Phase) -> bool {
    p == Phase::Noting || p == Phase::MakingDir || p == Phase::MakingParent || p == Phase::Writing
        || p == Phase::SettingMode
}

/// What holds of every state that an extraction reaches.
pub open spec fn extractor_wf(m: ExtractorModel) -> bool {
    &&& m.phase != Phase::Finished ==> !has_parent_component(m.input) && !has_parent_component(
        m.target,
    )
    &&& (m.phase == Phase::Reading || placing(m.phase)) ==> m.cursor < m.entries
    &&& placing(m.phase) ==> is_enclosed(m.name)
    &&& m.phase == Phase::MakingDir ==> names_directory(m.name)
    &&& (m.phase == Phase::MakingParent || m.phase == Phase::Writing) ==> !names_directory(m.name)
    &&& m.phase == Phase::MakingParent ==> parent_to_make(out_path(m)) is Some
    &&& m.phase == Phase::SettingMode ==> m.mode is Some && m.apply_modes
}

/// The extraction ends with the failure `f`.
pub open spec fn stop(m: ExtractorModel, f: Failure) -> (ExtractorModel, Ask) {
    (ExtractorModel { phase: Phase::Finished, ..m }, Ask::Fail(f))
}

/// The extraction ends well.
pub open spec fn succeed(m: ExtractorModel) -> (ExtractorModel, Ask) {
    (ExtractorModel { phase: Phase::Finished, ..m }, Ask::Succeed)
}

/// What follows the last entry: the archive is deleted where that was asked
/// for, and nothing more is done otherwise.
pub open spec fn wrap_up(m: ExtractorModel) -> (ExtractorModel, Ask) {
    if m.delete {
        (ExtractorModel { phase: Phase::Removing, ..m }, Ask::RemoveFile { path: m.input })
    } else {
        succeed(m)
    }
}

/// The entry at the cursor is asked for, or the extraction wraps up when
/// the cursor is past the last entry.
pub open spec fn read_next(m: ExtractorModel) -> (ExtractorModel, Ask) {
    if m.cursor >= m.entries {
        wrap_up(m)
    } else {
        (ExtractorModel { phase: Phase::Reading, ..m }, Ask::ReadEntry { index: m.cursor })
    }
}

/// The state with the cursor on the entry after the present one.
pub open spec fn past_entry(m: ExtractorModel) -> ExtractorModel {
    ExtractorModel { phase: Phase::Opening, cursor: m.cursor + 1, ..m }
}

/// The file of the entry at the cursor is written.
pub open spec fn write_file(m: ExtractorModel) -> (ExtractorModel, Ask) {
    (
        ExtractorModel { phase: Phase::Writing, ..m },
        Ask::ExtractEntry { index: m.cursor, path: out_path(m) },
    )
}

/// The entry at the cursor is put in its place. A name that ends with a
/// separator gives a directory. Any other gives a file, and the directory
/// that will hold it is made first, so that nothing needs to exist before
/// the extraction.
pub open spec fn place(m: ExtractorModel) -> (ExtractorModel, Ask) {
    if names_directory(m.name) {
        (ExtractorModel { phase: Phase::MakingDir, ..m }, Ask::MakeDir { path: out_path(m) })
    } else {
        match parent_to_make(out_path(m)) {
            Some(p) => (ExtractorModel { phase: Phase::MakingParent, ..m }, Ask::MakeDir { path: p }),
            None => write_file(m),
        }
    }
}

/// What follows once the entry at the cursor is in its place: its stored
/// mode is set where it has one and the host knows permission bits, and
/// the next entry is read otherwise.
pub open spec fn settle(m: ExtractorModel) -> (ExtractorModel, Ask) {
    if m.apply_modes && m.mode is Some {
        (
            ExtractorModel { phase: Phase::SettingMode, ..m },
            Ask::SetMode { path: out_path(m), mode: m.mode->0 },
        )
    } else {
        read_next(past_entry(m))
    }
}

/// One step of an extraction: the state after the host's answer, and what
/// the host is asked next. An entry whose name is not enclosed is passed
/// over. An answer that reports a failure, or does not fit what was asked,
/// ends the extraction, except after a request to log a comment, where any
/// answer lets it go on.
pub open spec fn extractor_step(m: ExtractorModel, a: Answer) -> (ExtractorModel, Ask) {
    match m.phase {
        Phase::Opening => match a {
            Answer::Opened { entries } => read_next(ExtractorModel { entries, cursor: 0, ..m }),
            _ => stop(m, failure_of(a)),
        },
        Phase::Reading => match a {
            Answer::Entry { name, comment, mode } => if !is_enclosed(name) {
                read_next(past_entry(m))
            } else if comment.len() > 0 {
                (
                    ExtractorModel { phase: Phase::Noting, name, mode, ..m },
                    Ask::Note { index: m.cursor, comment },
                )
            } else {
                place(ExtractorModel { phase: Phase::Noting, name, mode, ..m })
            },
            _ => stop(m, failure_of(a)),
        },
        Phase::Noting => place(m),
        Phase::MakingDir => match a {
            Answer::Done => settle(m),
            _ => stop(m, failure_of(a)),
        },
        Phase::MakingParent => match a {
            Answer::Done => write_file(m),
            _ => stop(m, failure_of(a)),
        },
        Phase::Writing => match a {
            Answer::Done => settle(m),
            _ => stop(m, failure_of(a)),
        },
        Phase::SettingMode => match a {
            Answer::Done => read_next(past_entry(m)),
            _ => stop(m, failure_of(a)),
        },
        Phase::Removing => match a {
            Answer::Done => succeed(m),
            _ => stop(m, failure_of(a)),
        },
        Phase::Finished => stop(m, unexpected()),
    }
}

/// Extracting `input` into `target` begins: with a failure where either
/// path has a `..` component, else with the opening of the archive.
pub open spec fn start_reader(
    input: Seq<char>,
    target: Seq<char>,
    apply_modes: bool,
    delete: bool,
) -> (ExtractorModel, Ask) {
    let m = ExtractorModel {
        phase: Phase::Finished,
        input,
        target,
        entries: 0,
        cursor: 0,
        name: Seq::<char>::empty(),
        mode: None,
        apply_modes,
        delete,
    };
    if has_parent_component(input) || has_parent_component(target) {
        stop(m, Failure::Traversal)
    } else {
        (ExtractorModel { phase: Phase::Opening, ..m }, Ask::OpenArchive { path: input })
    }
}

/// The directory that `input` is extracted into: the one the caller names,
/// resolved against `root`, or otherwise the resolved archive path without
/// its extension.
pub open spec fn extraction_target(root: Seq<char>, input: Seq<char>, target: Option<Seq<char>>) -> Seq<
    char,
> {
    match target {
        Some(t) => join(root, t),
        None => without_extension(join(root, input)),
    }
}

/// Extracting an archive begins. The paths are relative to `root`.
pub open spec fn start_unzip(
    root: Seq<char>,
    input: Seq<char>,
    target: Option<Seq<char>>,
    apply_modes: bool,
    delete: Option<bool>,
) -> (ExtractorModel, Ask) {
    start_reader(
        join(root, input),
        extraction_target(root, input, target),
        apply_modes,
        deletion_wanted(delete),
    )
}

} // verus!
