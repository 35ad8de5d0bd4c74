//! What holds of every archiving operation, proved over its model.

use crate::archive_model::{
    all_plain, archiver_step, archiver_wf, consider, pass_on, start_files, start_folder,
    start_writer, stop, ArchiverModel, Stage,
};
use crate::error::Failure;
use crate::member::{explicit_members, folder_members, wanted_path, Listed, Member, Wanted};
use crate::path::{has_parent_component, law_join_keeps_parent_component};
use crate::protocol::{Answer, Ask};
use vstd::prelude::*;

verus! {

/// No path that `ask` hands to the host has a `..` component.
pub open spec fn names_plain_paths(ask: Ask) -> bool {
    match ask {
        Ask::CreateArchive { path } => !has_parent_component(path),
        Ask::ProbeFile { path } => !has_parent_component(path),
        Ask::StoreFile { source, name, large_file } => !has_parent_component(source),
        Ask::ProbeFolder { path } => !has_parent_component(path),
        Ask::OpenArchive { path } => !has_parent_component(path),
        Ask::RemoveFile { path } => !has_parent_component(path),
        Ask::RemoveTree { path } => !has_parent_component(path),
        _ => true,
    }
}

/// `ask` deletes something.
pub open spec fn is_removal(ask: Ask) -> bool {
    ask is RemoveFile || ask is RemoveTree
}

/// Writing begins in a well-formed state, and the first request names no
/// path with a `..` component.
pub proof fn law_writer_starts_well(output: Seq<char>, members: Seq<Member>, delete: bool)
    ensures
        archiver_wf(start_writer(output, members, delete).0),
        names_plain_paths(start_writer(output, members, delete).1),
{
}

/// Archiving named entries begins in a well-formed state, and the first
/// request names no path with a `..` component.
pub proof fn law_files_start_well(
    root: Seq<char>,
    output: Seq<char>,
    wanted: Seq<Wanted>,
    delete: Option<bool>,
)
    ensures
        archiver_wf(start_files(root, output, wanted, delete).0),
        names_plain_paths(start_files(root, output, wanted, delete).1),
{
}

/// Archiving a directory begins in a well-formed state, and the first
/// request names no path with a `..` component.
pub proof fn law_folder_starts_well(
    root: Seq<char>,
    output: Seq<char>,
    folder: Seq<char>,
    delete: Option<bool>,
)
    ensures
        archiver_wf(start_folder(root, output, folder, delete).0),
        names_plain_paths(start_folder(root, output, folder, delete).1),
{
}

/// Every step keeps the state well-formed and asks the host only about
/// paths without a `..` component: no file behind such a path is ever
/// probed, opened, created or deleted.
pub proof fn law_archiver_never_names_a_parent(m: ArchiverModel, a: Answer)
    requires
        archiver_wf(m),
    ensures
        archiver_wf(archiver_step(m, a).0),
        names_plain_paths(archiver_step(m, a).1),
{
    let next = archiver_step(m, a).0;
    if m.stage == Stage::Storing && a is Done {
        let grown = pass_on(m, true);
        assert(all_plain(grown.stored)) by {
            assert forall|k: int| 0 <= k < grown.stored.len() implies !has_parent_component(
                #[trigger] grown.stored[k],
            ) by {
                if k < m.stored.len() {
                    assert(grown.stored[k] == m.stored[k]);
                }
            }
        }
    }
}

/// A directory or an output path with a `..` component ends the archiving
/// of a directory with `Traversal` before the host is asked anything.
pub proof fn law_folder_refuses_traversal(
    root: Seq<char>,
    output: Seq<char>,
    folder: Seq<char>,
    delete: Option<bool>,
)
    requires
        has_parent_component(output) || has_parent_component(folder),
    ensures
        start_folder(root, output, folder, delete).1 == Ask::Fail(Failure::Traversal),
{
    if has_parent_component(output) {
        law_join_keeps_parent_component(root, output);
    }
    if has_parent_component(folder) {
        law_join_keeps_parent_component(root, folder);
    }
}

/// An output path with a `..` component ends the archiving of named
/// entries with `Traversal` before the host is asked anything, where there
/// is an entry at all.
pub proof fn law_files_refuse_traversal(
    root: Seq<char>,
    output: Seq<char>,
    wanted: Seq<Wanted>,
    delete: Option<bool>,
)
    requires
        has_parent_component(output),
        wanted.len() > 0,
    ensures
        start_files(root, output, wanted, delete).1 == Ask::Fail(Failure::Traversal),
{
    law_join_keeps_parent_component(root, output);
}

/// An entry whose path has a `..` component gives a member whose source has
/// one, and when that member's turn comes the operation ends with
/// `Traversal`, without the host being asked about it.
pub proof fn law_member_with_parent_ends_operation(
    root: Seq<char>,
    wanted: Seq<Wanted>,
    k: int,
    m: ArchiverModel,
)
    requires
        0 <= k < wanted.len(),
        has_parent_component(wanted_path(wanted[k])),
        m.members == explicit_members(root, wanted),
        m.cursor == k,
    ensures
        has_parent_component(explicit_members(root, wanted)[k].source),
        consider(m).1 == Ask::Fail(Failure::Traversal),
        consider(m).0.stage == Stage::Finished,
{
    law_join_keeps_parent_component(root, wanted_path(wanted[k]));
}

/// Archiving an empty list of entries does nothing: the operation ends well
/// at once and the host is asked for nothing, so no archive is created.
pub proof fn law_empty_list_is_noop(root: Seq<char>, output: Seq<char>, delete: Option<bool>)
    ensures
        start_files(root, output, Seq::<Wanted>::empty(), delete).1 == Ask::Succeed,
        start_files(root, output, Seq::<Wanted>::empty(), delete).0.stage == Stage::Finished,
{
}

/// Archiving a directory that holds nothing still creates the archive and
/// seals it, with no entry in between.
pub proof fn law_empty_folder_gives_empty_archive(m: ArchiverModel)
    requires
        archiver_wf(m),
        m.stage == Stage::Listing,
    ensures
        ({
            let listed = archiver_step(m, Answer::Listing(Seq::<Listed>::empty()));
            &&& listed.1 == Ask::CreateArchive { path: m.output }
            &&& archiver_step(listed.0, Answer::Done).1 == Ask::SealArchive
        }),
{
    let none = Seq::<Listed>::empty();
    assert(folder_members(m.folder->0, none) == Ok::<Seq<Member>, Failure>(
        Seq::<Member>::empty(),
    ));
}

/// A member whose source is missing, or is no regular file, is passed over
/// without a failure: nothing is stored for it, and the operation goes on
/// with the member after it just as if that one came next.
pub proof fn law_missing_member_is_skipped(m: ArchiverModel, exists: bool, regular: bool)
    requires
        archiver_wf(m),
        m.stage == Stage::Probing,
        !(exists && regular),
    ensures
        ({
            let next = archiver_step(m, Answer::Probed { exists, regular });
            &&& next == consider(pass_on(m, false))
            &&& next.0.stored == m.stored
            &&& next.0.cursor == m.cursor + 1
            &&& next.1 is Fail ==> m.cursor + 1 < m.members.len() && has_parent_component(
                m.members[m.cursor as int + 1].source,
            )
            &&& m.cursor + 1 < m.members.len() && !has_parent_component(
                m.members[m.cursor as int + 1].source,
            ) ==> next.1 == Ask::ProbeFile { path: m.members[m.cursor as int + 1].source }
            &&& m.cursor + 1 == m.members.len() ==> next.1 == Ask::SealArchive
        }),
{
}

/// A member that is a regular file is stored under its archive name, with
/// room for more than 4 GiB.
pub proof fn law_regular_member_is_stored(m: ArchiverModel)
    requires
        archiver_wf(m),
        m.stage == Stage::Probing,
    ensures
        archiver_step(m, (Answer::Probed { exists: true, regular: true })).1 == (Ask::StoreFile {
            source: m.members[m.cursor as int].source,
            name: m.members[m.cursor as int].name,
            large_file: true,
        }),
{
}

/// Something is deleted only on request and only after success: a step
/// asks for a deletion only if deletion was asked for and the host has just
/// reported that the archive was sealed, or that the deletion before went
/// well.
pub proof fn law_removal_needs_success(m: ArchiverModel, a: Answer)
    requires
        archiver_wf(m),
        is_removal(archiver_step(m, a).1),
    ensures
        m.delete,
        (a is Done),
        m.stage == Stage::Sealing || m.stage == Stage::RemovingFile,
{
}

/// Once the archive is sealed, what was asked for is done: with deletion,
/// the archived directory is deleted as a whole, or the first stored source
/// where single files were named; without, the operation ends well and
/// nothing is deleted.
pub proof fn law_sealed_archive_is_cleaned_up(m: ArchiverModel)
    requires
        archiver_wf(m),
        m.stage == Stage::Sealing,
    ensures
        ({
            let ask = archiver_step(m, Answer::Done).1;
            &&& !m.delete ==> ask == Ask::Succeed
            &&& m.delete && m.folder is Some ==> ask == Ask::RemoveTree { path: m.folder->0 }
            &&& m.delete && m.folder is None && m.stored.len() > 0 ==> ask == Ask::RemoveFile {
                path: m.stored[0],
            }
            &&& m.delete && m.folder is None && m.stored.len() == 0 ==> ask == Ask::Succeed
        }),
{
}

/// A failure reported by the host ends the operation with that failure, in
/// the host's words, and nothing is deleted.
pub proof fn law_host_failure_ends_operation(m: ArchiverModel, text: Seq<char>)
    requires
        m.stage != Stage::Finished,
    ensures
        archiver_step(m, Answer::Failed(text)) == stop(m, Failure::Io(text)),
{
}

} // verus!
