//! What holds of every extraction, proved over its model.

use crate::enclosed::{destination, is_enclosed, law_enclosed_stays_under_target};
use crate::error::Failure;
use crate::extract_model::{
    extractor_step, extractor_wf, names_directory, out_path, parent_to_make, past_entry,
    read_next, start_reader, start_unzip, stop, ExtractorModel, Phase,
};
use crate::path::{has_parent_component, join, law_join_keeps_parent_component};
use crate::protocol::{Answer, Ask};
use vstd::prelude::*;

verus! {

/// Every path that `ask` hands to the host is the archive itself, without
/// a `..` component, or the place of the entry that `m` deals with, whose
/// name is enclosed, or the directory that holds that place.
pub open spec fn stays_in_bounds(m: ExtractorModel, ask: Ask) -> bool {
    match ask {
        Ask::OpenArchive { path } => path == m.input && !has_parent_component(path),
        Ask::RemoveFile { path } => path == m.input && !has_parent_component(path),
        Ask::MakeDir { path } => is_enclosed(m.name) && (path == out_path(m) || Some(path)
            == parent_to_make(out_path(m))),
        Ask::ExtractEntry { index, path } => is_enclosed(m.name) && path == out_path(m),
        Ask::SetMode { path, mode } => is_enclosed(m.name) && path == out_path(m),
        Ask::CreateArchive { path } => false,
        Ask::StoreFile { source, name, large_file } => false,
        Ask::RemoveTree { path } => false,
        _ => true,
    }
}

/// Reading begins in a well-formed state, and the first request stays in
/// bounds.
pub proof fn law_reader_starts_well(
    input: Seq<char>,
    target: Seq<char>,
    apply_modes: bool,
    delete: bool,
)
    ensures
        extractor_wf(start_reader(input, target, apply_modes, delete).0),
        stays_in_bounds(
            start_reader(input, target, apply_modes, delete).0,
            start_reader(input, target, apply_modes, delete).1,
        ),
{
}

/// An archive path or a target with a `..` component ends the extraction
/// with `Traversal` before the host is asked anything.
pub proof fn law_unzip_refuses_traversal(
    root: Seq<char>,
    input: Seq<char>,
    target: Option<Seq<char>>,
    apply_modes: bool,
    delete: Option<bool>,
)
    requires
        has_parent_component(input) || (target is Some && has_parent_component(target->0)),
    ensures
        start_unzip(root, input, target, apply_modes, delete).1 == Ask::Fail(Failure::Traversal),
{
    if has_parent_component(input) {
        law_join_keeps_parent_component(root, input);
    } else {
        law_join_keeps_parent_component(root, target->0);
    }
}

/// Every step keeps the state well-formed and stays in bounds: the host is
/// never asked to write anywhere but at the place of an enclosed entry name
/// under the target, or to make a directory but there or just above it.
pub proof fn law_extractor_stays_in_bounds(m: ExtractorModel, a: Answer)
    requires
        extractor_wf(m),
    ensures
        extractor_wf(extractor_step(m, a).0),
        stays_in_bounds(extractor_step(m, a).0, extractor_step(m, a).1),
{
}

/// The place of an enclosed entry leads where the target leads and then
/// only further down: nothing is extracted above or beside the target.
pub proof fn law_place_is_below_target(m: ExtractorModel)
    requires
        is_enclosed(m.name),
    ensures
        destination(out_path(m)) == destination(m.target) + destination(m.name),
{
    law_enclosed_stays_under_target(m.target, m.name);
}

/// An entry whose name is not enclosed is passed over without a failure:
/// nothing is made or written for it, and the extraction goes on with the
/// entry after it.
pub proof fn law_unsafe_entry_is_skipped(
    m: ExtractorModel,
    name: Seq<char>,
    comment: Seq<char>,
    mode: Option<u32>,
)
    requires
        extractor_wf(m),
        m.phase == Phase::Reading,
        !is_enclosed(name),
    ensures
        extractor_step(m, (Answer::Entry { name, comment, mode })) == read_next(past_entry(m)),
        !(extractor_step(m, (Answer::Entry { name, comment, mode })).1 is Fail),
{
}

/// A comment is logged before its entry is placed, and whatever comes of
/// the logging, the entry is placed next.
pub proof fn law_comment_is_logged_first(
    m: ExtractorModel,
    name: Seq<char>,
    comment: Seq<char>,
    mode: Option<u32>,
    a: Answer,
)
    requires
        extractor_wf(m),
        m.phase == Phase::Reading,
        is_enclosed(name),
        comment.len() > 0,
    ensures
        ({
            let read = extractor_step(m, Answer::Entry { name, comment, mode });
            let logged = extractor_step(read.0, a);
            let silent = extractor_step(
                m,
                Answer::Entry { name, comment: Seq::<char>::empty(), mode },
            );
            &&& read.1 == Ask::Note { index: m.cursor, comment }
            &&& logged.1 == silent.1
            &&& logged.0 == silent.0
        }),
{
}

/// An entry whose name ends with a separator gives a directory at its
/// place, made with every directory above it.
pub proof fn law_directory_entry_is_made(m: ExtractorModel, name: Seq<char>, mode: Option<u32>)
    requires
        extractor_wf(m),
        m.phase == Phase::Reading,
        is_enclosed(name),
        names_directory(name),
    ensures
        extractor_step(m, (Answer::Entry { name, comment: Seq::<char>::empty(), mode })).1 == (
        Ask::MakeDir { path: join(m.target, name) }),
{
}

/// A file entry never needs a directory to exist beforehand: where its
/// place has a directory above it, that directory is made first, with every
/// directory above it, and only then is the file written at the place of
/// the entry.
pub proof fn law_parent_is_made_before_file(
    m: ExtractorModel,
    name: Seq<char>,
    mode: Option<u32>,
    parent: Seq<char>,
)
    requires
        extractor_wf(m),
        m.phase == Phase::Reading,
        is_enclosed(name),
        !names_directory(name),
        parent_to_make(join(m.target, name)) == Some(parent),
    ensures
        ({
            let read = extractor_step(
                m,
                Answer::Entry { name, comment: Seq::<char>::empty(), mode },
            );
            let made = extractor_step(read.0, Answer::Done);
            &&& read.1 == Ask::MakeDir { path: parent }
            &&& made.1 == Ask::ExtractEntry { index: m.cursor, path: join(m.target, name) }
        }),
{
}

/// Once a file is written or a directory made, the mode stored with the
/// entry is set on it, where the entry has one and the host knows
/// permission bits; otherwise the extraction goes on with the next entry.
pub proof fn law_stored_mode_is_applied(m: ExtractorModel)
    requires
        extractor_wf(m),
        m.phase == Phase::Writing || m.phase == Phase::MakingDir,
    ensures
        ({
            let next = extractor_step(m, Answer::Done);
            &&& m.apply_modes && m.mode is Some ==> next.1 == Ask::SetMode {
                path: out_path(m),
                mode: m.mode->0,
            }
            &&& !(m.apply_modes && m.mode is Some) ==> next == read_next(past_entry(m))
        }),
{
}

/// The archive is deleted only on request and only after success: a step
/// asks for the deletion only if it was asked for, the host has reported no
/// failure of what it was last asked to do, and no entry is left.
pub proof fn law_archive_is_removed_only_at_end(m: ExtractorModel, a: Answer)
    requires
        extractor_wf(m),
        extractor_step(m, a).1 is RemoveFile,
    ensures
        m.delete,
        extractor_step(m, a).0.cursor >= extractor_step(m, a).0.entries,
        !(a is Failed),
{
}

/// Whenever the cursor has passed the last entry, whether entries were
/// extracted or passed over or there was none, the archive is deleted where
/// that was asked for, and the extraction ends well at once where it was
/// not.
pub proof fn law_after_last_entry(m: ExtractorModel)
    requires
        m.cursor >= m.entries,
    ensures
        m.delete ==> read_next(m).1 == (Ask::RemoveFile { path: m.input }),
        !m.delete ==> read_next(m).1 == Ask::Succeed,
{
}

/// The step that deals with the last entry is followed at once by what
/// ends the extraction.
pub proof fn law_last_entry_ends_extraction(m: ExtractorModel)
    requires
        extractor_wf(m),
        m.phase == Phase::SettingMode || ((m.phase == Phase::Writing || m.phase
            == Phase::MakingDir) && !(m.apply_modes && m.mode is Some)),
        m.cursor + 1 == m.entries,
    ensures
        extractor_step(m, Answer::Done) == read_next(past_entry(m)),
        m.delete ==> extractor_step(m, Answer::Done).1 == (Ask::RemoveFile { path: m.input }),
        !m.delete ==> extractor_step(m, Answer::Done).1 == Ask::Succeed,
{
}

/// A failure reported by the host ends the extraction with that failure, in
/// the host's words, except where only a comment was to be logged.
pub proof fn law_host_failure_ends_extraction(m: ExtractorModel, text: Seq<char>)
    requires
        m.phase != Phase::Finished,
        m.phase != Phase::Noting,
    ensures
        extractor_step(m, Answer::Failed(text)) == stop(m, Failure::Io(text)),
{
}

} // verus!
