//! The rules of archiving, as a state and a step function over plain
//! mathematical values. [`crate::archiver::Archiver`] is the executable
//! form of this model.

use crate::error::Failure;
use crate::member::{
    explicit_members, folder_members, listing_pattern, Chosen, Member, Wanted,
};
use crate::path::{has_parent_component, join};
use crate::protocol::{failure_of, unexpected, Answer, Ask};
use vstd::prelude::*;

verus! {

/// What an archiving operation is waiting for.
#[derive(Clone, Copy, Debug, PartialEq, Eq, Structural)]
pub enum Stage {
    /// Whether the directory to archive exists.
    ProbingFolder,
    /// What the directory holds.
    Listing,
    /// The creation of the archive.
    Creating,
    /// Whether the member at the cursor is a regular file.
    Probing,
    /// The member at the cursor being stored.
    Storing,
    /// The archive being sealed.
    Sealing,
    /// The deletion of the stored source at the cursor.
    RemovingFile,
    /// The deletion of the archived directory.
    RemovingTree,
    /// Nothing: the operation is over.
    Finished,
}

/// The state of an archiving operation.
pub struct ArchiverModel {
    pub stage: Stage,
    /// The archive to write.
    pub output: Seq<char>,
    /// The directory that is archived, where one is.
    pub folder: Option<Seq<char>>,
    /// The members to store, in order.
    pub members: Seq<Member>,
    /// The member that is looked at, or the stored source that is deleted.
    pub cursor: nat,
    /// The sources of the members stored so far, in order.
    pub stored: Seq<Seq<char>>,
    /// Whether what was archived is deleted after a success.
    pub delete: bool,
}

/// None of `paths` has a `..` component.
pub open spec fn all_plain(paths: Seq<Seq<char>>) -> bool {
    forall|k: int| 0 <= k < paths.len() ==> !has_parent_component(#[trigger] paths[k])
}

/// What holds of every state that an operation reaches.
pub open spec fn archiver_wf(m: ArchiverModel) -> bool {
    &&& m.stage != Stage::Finished ==> !has_parent_component(m.output)
    &&& (m.stage != Stage::Finished && m.folder is Some) ==> !has_parent_component(m.folder->0)
    &&& (m.stage == Stage::ProbingFolder || m.stage == Stage::Listing || m.stage
        == Stage::RemovingTree) ==> m.folder is Some
    &&& (m.stage == Stage::Probing || m.stage == Stage::Storing) ==> m.cursor < m.members.len()
        && !has_parent_component(m.members[m.cursor as int].source)
    &&& m.stage == Stage::Creating ==> m.cursor <= m.members.len()
    &&& m.stage == Stage::RemovingFile ==> m.cursor < m.stored.len()
    &&& (m.stage == Stage::RemovingFile || m.stage == Stage::RemovingTree) ==> m.delete
    &&& all_plain(m.stored)
}

/// Whether the caller asked for what was archived, or extracted, to be
/// deleted afterwards. Saying nothing keeps it.
pub open spec fn deletion_wanted(flag: Option<bool>) -> bool {
    flag == Some(true)
}

/// The operation ends with the failure `f`.
pub open spec fn stop(m: ArchiverModel, f: Failure) -> (ArchiverModel, Ask) {
    (ArchiverModel { stage: Stage::Finished, ..m }, Ask::Fail(f))
}

/// The operation ends well.
pub open spec fn succeed(m: ArchiverModel) -> (ArchiverModel, Ask) {
    (ArchiverModel { stage: Stage::Finished, ..m }, Ask::Succeed)
}

/// The archive is created, and the first member comes next.
pub open spec fn begin_writing(m: ArchiverModel) -> (ArchiverModel, Ask) {
    (ArchiverModel { stage: Stage::Creating, cursor: 0, ..m }, Ask::CreateArchive { path: m.output })
}

/// The member at the cursor is looked at. After the last one the archive is
/// sealed. A member whose source has a `..` component ends the operation,
/// before the host is asked anything about it; any other is probed.
pub open spec fn consider(m: ArchiverModel) -> (ArchiverModel, Ask) {
    if m.cursor >= m.members.len() {
        (ArchiverModel { stage: Stage::Sealing, ..m }, Ask::SealArchive)
    } else if has_parent_component(m.members[m.cursor as int].source) {
        stop(m, Failure::Traversal)
    } else {
        (
            ArchiverModel { stage: Stage::Probing, ..m },
            Ask::ProbeFile { path: m.members[m.cursor as int].source },
        )
    }
}

/// The state once the member at the cursor has been dealt with: stored
/// where `kept`, passed over otherwise.
pub open spec fn pass_on(m: ArchiverModel, kept: bool) -> ArchiverModel {
    ArchiverModel {
        stage: Stage::Creating,
        cursor: m.cursor + 1,
        stored: if kept {
            m.stored.push(m.members[m.cursor as int].source)
        } else {
            m.stored
        },
        ..m
    }
}

/// The stored source at the cursor is deleted, or the operation ends well
/// when none is left.
pub open spec fn remove_next(m: ArchiverModel) -> (ArchiverModel, Ask) {
    if m.cursor >= m.stored.len() {
        succeed(m)
    } else {
        (
            ArchiverModel { stage: Stage::RemovingFile, ..m },
            Ask::RemoveFile { path: m.stored[m.cursor as int] },
        )
    }
}

/// What follows a sealed archive: nothing where the sources are kept;
/// else the archived directory is deleted as a whole, or, where single
/// files were named, each stored source in turn.
pub open spec fn clean_up(m: ArchiverModel) -> (ArchiverModel, Ask) {
    if !m.delete {
        succeed(m)
    } else {
        match m.folder {
            Some(f) => (
                ArchiverModel { stage: Stage::RemovingTree, ..m },
                Ask::RemoveTree { path: f },
            ),
            None => remove_next(ArchiverModel { cursor: 0, ..m }),
        }
    }
}

/// One step of an archiving operation: the state after the host's answer,
/// and what the host is asked next. An answer that reports a failure, or
/// does not fit what was asked, ends the operation.
pub open spec fn archiver_step(m: ArchiverModel, a: Answer) -> (ArchiverModel, Ask) {
    match m.stage {
        Stage::ProbingFolder => match a {
            Answer::Probed { exists, regular } => if exists {
                (
                    ArchiverModel { stage: Stage::Listing, ..m },
                    Ask::ListFolder { pattern: listing_pattern(m.folder->0) },
                )
            } else {
                stop(m, Failure::NotFound)
            },
            _ => stop(m, failure_of(a)),
        },
        Stage::Listing => match a {
            Answer::Listing(items) => match folder_members(m.folder->0, items) {
                Ok(ms) => begin_writing(ArchiverModel { members: ms, ..m }),
                Err(e) => stop(m, e),
            },
            Answer::BadPattern(text) => stop(m, Failure::GlobPattern(text)),
            _ => stop(m, failure_of(a)),
        },
        Stage::Creating => match a {
            Answer::Done => consider(m),
            _ => stop(m, failure_of(a)),
        },
        Stage::Probing => match a {
            Answer::Probed { exists, regular } => if exists && regular {
                (
                    ArchiverModel { stage: Stage::Storing, ..m },
                    Ask::StoreFile {
                        source: m.members[m.cursor as int].source,
                        name: m.members[m.cursor as int].name,
                        large_file: true,
                    },
                )
            } else {
                consider(pass_on(m, false))
            },
            _ => stop(m, failure_of(a)),
        },
        Stage::Storing => match a {
            Answer::Done => consider(pass_on(m, true)),
            _ => stop(m, failure_of(a)),
        },
        Stage::Sealing => match a {
            Answer::Done => clean_up(m),
            _ => stop(m, failure_of(a)),
        },
        Stage::RemovingFile => match a {
            Answer::Done => remove_next(ArchiverModel { cursor: m.cursor + 1, ..m }),
            _ => stop(m, failure_of(a)),
        },
        Stage::RemovingTree => match a {
            Answer::Done => succeed(m),
            _ => stop(m, failure_of(a)),
        },
        Stage::Finished => stop(m, unexpected()),
    }
}

/// An operation that has not begun: nothing stored, nothing awaited.
pub open spec fn idle(
    output: Seq<char>,
    folder: Option<Seq<char>>,
    members: Seq<Member>,
    delete: bool,
) -> ArchiverModel {
    ArchiverModel {
        stage: Stage::Finished,
        output,
        folder,
        members,
        cursor: 0,
        stored: Seq::<Seq<char>>::empty(),
        delete,
    }
}

/// Writing `members` to `output` begins: with a failure where `output` has a
/// `..` component, else with the creation of the archive.
pub open spec fn start_writer(output: Seq<char>, members: Seq<Member>, delete: bool) -> (
    ArchiverModel,
    Ask,
) {
    let m = idle(output, None, members, delete);
    if has_parent_component(output) {
        stop(m, Failure::Traversal)
    } else {
        begin_writing(m)
    }
}

/// Archiving the named entries begins. Both paths are resolved against
/// `root`. With no entry at all there is nothing to do and nothing is asked
/// of the host, whatever the output path is.
pub open spec fn start_files(
    root: Seq<char>,
    output: Seq<char>,
    wanted: Seq<Wanted>,
    delete: Option<bool>,
) -> (ArchiverModel, Ask) {
    if wanted.len() == 0 {
        succeed(idle(join(root, output), None, Seq::<Member>::empty(), deletion_wanted(delete)))
    } else {
        start_writer(join(root, output), explicit_members(root, wanted), deletion_wanted(delete))
    }
}

/// Archiving a directory begins. Both paths are resolved against `root`,
/// and a `..` component in either ends the operation before the host is
/// asked anything; else the host is asked whether the directory exists.
pub open spec fn start_folder(
    root: Seq<char>,
    output: Seq<char>,
    folder: Seq<char>,
    delete: Option<bool>,
) -> (ArchiverModel, Ask) {
    let m = idle(
        join(root, output),
        Some(join(root, folder)),
        Seq::<Member>::empty(),
        deletion_wanted(delete),
    );
    if has_parent_component(join(root, folder)) || has_parent_component(join(root, output)) {
        stop(m, Failure::Traversal)
    } else {
        (
            ArchiverModel { stage: Stage::ProbingFolder, ..m },
            Ask::ProbeFolder { path: join(root, folder) },
        )
    }
}

/// Archiving begins, in the way that `source` selects.
pub open spec fn start_zip(
    root: Seq<char>,
    output: Seq<char>,
    source: Chosen,
    delete: Option<bool>,
) -> (ArchiverModel, Ask) {
    match source {
        Chosen::Folder(folder) => start_folder(root, output, folder, delete),
        Chosen::Files(wanted) => start_files(root, output, wanted, delete),
    }
}

} // verus!
