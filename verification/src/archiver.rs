//! Archiving, step by step.

use crate::archive_model::{
    archiver_step, archiver_wf, begin_writing, clean_up, consider, deletion_wanted, idle,
    pass_on,
    remove_next, start_files, start_folder, start_writer, start_zip, stop, succeed, ArchiverModel, Stage,
};
use crate::error::ArchiveError;
use crate::member::{
    collect_explicit, collect_folder, listing_pattern_of, members_of, wanted_of, ArchiveFile,
    Member, Named, Source,
};
use crate::path::{has_parent_component, is_path_transversal, resolve};
use crate::protocol::{error_of, Reply, Request};
use crate::text::{texts_of, view_of};
use vstd::prelude::*;

verus! {

/// An archiving operation in progress.
///
/// It begins with [`Archiver::zip`], [`Archiver::folder`],
/// [`Archiver::files`] or [`Archiver::write`], each of which hands out the
/// first request. The host carries a request out and passes what came of it
/// to [`Archiver::advance`], which hands out the next one, until the
/// request is [`Request::Succeed`] or [`Request::Fail`].
///
/// The archive is created before the members are looked at one by one, so
/// an operation that fails half way may leave a part of an archive behind.
pub struct Archiver {
    stage: Stage,
    output: String,
    /// The directory that is archived, where `by_folder` says there is one.
    folder: String,
    by_folder: bool,
    members: Vec<ArchiveFile>,
    cursor: usize,
    stored: Vec<String>,
    delete: bool,
}

impl View for Archiver {
    type V = ArchiverModel;

    closed spec fn view(&self) -> ArchiverModel {
        ArchiverModel {
            stage: self.stage,
            output: self.output@,
            folder: if self.by_folder {
                Some(self.folder@)
            } else {
                None
            },
            members: members_of(self.members@),
            cursor: self.cursor as nat,
            stored: texts_of(self.stored@),
            delete: self.delete,
        }
    }
}

/// Whether the caller asked for a deletion afterwards. Saying nothing asks
/// for none.
pub fn delete_requested(delete: Option<bool>) -> (flag: bool)
    ensures
        flag == deletion_wanted(delete),
{
    match delete {
        Some(flag) => flag,
        None => false,
    }
}

impl Archiver {
    #[verifier::type_invariant]
    spec fn well_formed(self) -> bool {
        archiver_wf(self@)
    }

    /// An operation that has not begun.
    fn idle(
        output: String,
        folder: Option<String>,
        members: Vec<ArchiveFile>,
        delete: bool,
    ) -> (job: Archiver)
        ensures
            job@ == idle(
                output@,
                view_of(folder),
                members_of(members@),
                delete,
            ),
    {
        let stored: Vec<String> = Vec::new();
        assert(texts_of(stored@) == Seq::<Seq<char>>::empty());
        match folder {
            Some(f) => Archiver {
                stage: Stage::Finished,
                output,
                folder: f,
                by_folder: true,
                members,
                cursor: 0,
                stored,
                delete,
            },
            None => Archiver {
                stage: Stage::Finished,
                output,
                folder: String::new(),
                by_folder: false,
                members,
                cursor: 0,
                stored,
                delete,
            },
        }
    }

    fn stop(self, e: ArchiveError) -> (next: (Archiver, Request))
        ensures
            (next.0@, next.1@) == stop(self@, e@),
    {
        proof {
            use_type_invariant(&self);
        }
        (Archiver { stage: Stage::Finished, ..self }, Request::Fail(e))
    }

    fn succeed(self) -> (next: (Archiver, Request))
        ensures
            (next.0@, next.1@) == succeed(self@),
    {
        proof {
            use_type_invariant(&self);
        }
        (Archiver { stage: Stage::Finished, ..self }, Request::Succeed)
    }

    fn begin_writing(self) -> (next: (Archiver, Request))
        requires
            !has_parent_component(self@.output),
            self@.folder is Some ==> !has_parent_component(self@.folder->0),
        ensures
            (next.0@, next.1@) == begin_writing(self@),
    {
        proof {
            use_type_invariant(&self);
        }
        let path = self.output.clone();
        (Archiver { stage: Stage::Creating, cursor: 0, ..self }, Request::CreateArchive { path })
    }

    fn consider(self) -> (next: (Archiver, Request))
        requires
            self@.stage == Stage::Creating,
        ensures
            (next.0@, next.1@) == consider(self@),
    {
        proof {
            use_type_invariant(&self);
        }
        if self.cursor >= self.members.len() {
            return (Archiver { stage: Stage::Sealing, ..self }, Request::SealArchive);
        }
        assert(members_of(self.members@)[self.cursor as int] == self.members@[self.cursor as int]@);
        if is_path_transversal(self.members[self.cursor].actual_path.as_str()) {
            self.stop(ArchiveError::Traversal)
        } else {
            let path = self.members[self.cursor].actual_path.clone();
            (Archiver { stage: Stage::Probing, ..self }, Request::ProbeFile { path })
        }
    }

    fn pass_on(self, kept: bool) -> (next: Archiver)
        requires
            self@.stage == Stage::Probing || self@.stage == Stage::Storing,
        ensures
            next@ == pass_on(self@, kept),
    {
        proof {
            use_type_invariant(&self);
            assert(self.cursor < self.members.len());
            assert(members_of(self.members@)[self.cursor as int]
                == self.members@[self.cursor as int]@);
        }
        let onward = self.cursor + 1;
        if kept {
            let source = self.members[self.cursor].actual_path.clone();
            let Archiver { stage, output, folder, by_folder, members, cursor, stored, delete } =
                self;
            let ghost before = stored@;
            let mut stored = stored;
            stored.push(source);
            assert(texts_of(stored@) == texts_of(before).push(source@));
            Archiver {
                stage: Stage::Creating,
                output,
                folder,
                by_folder,
                members,
                cursor: onward,
                stored,
                delete,
            }
        } else {
            Archiver { stage: Stage::Creating, cursor: onward, ..self }
        }
    }

    fn remove_next(self) -> (next: (Archiver, Request))
        requires
            self@.stage == Stage::Sealing,
            self@.delete,
        ensures
            (next.0@, next.1@) == remove_next(self@),
    {
        proof {
            use_type_invariant(&self);
        }
        if self.cursor >= self.stored.len() {
            self.succeed()
        } else {
            assert(texts_of(self.stored@)[self.cursor as int] == self.stored@[self.cursor as int]@);
            let path = self.stored[self.cursor].clone();
            (Archiver { stage: Stage::RemovingFile, ..self }, Request::RemoveFile { path })
        }
    }

    fn clean_up(self) -> (next: (Archiver, Request))
        requires
            self@.stage == Stage::Sealing,
        ensures
            (next.0@, next.1@) == clean_up(self@),
    {
        proof {
            use_type_invariant(&self);
        }
        if !self.delete {
            self.succeed()
        } else if self.by_folder {
            let path = self.folder.clone();
            (Archiver { stage: Stage::RemovingTree, ..self }, Request::RemoveTree { path })
        } else {
            let at_first = Archiver { cursor: 0, ..self };
            at_first.remove_next()
        }
    }

    /// Begins to write `members` to the archive `output`, which is used as
    /// it is given. With `delete`, the sources that were stored are deleted
    /// once the archive is sealed.
    pub fn write(output: String, members: Vec<ArchiveFile>, delete: bool) -> (next: (
        Archiver,
        Request,
    ))
        ensures
            (next.0@, next.1@) == start_writer(output@, members_of(members@), delete),
    {
        let refused = is_path_transversal(output.as_str());
        let ready = Archiver::idle(output, None, members, delete);
        if refused {
            ready.stop(ArchiveError::Traversal)
        } else {
            ready.begin_writing()
        }
    }

    /// Begins to archive the files that `entries` name into `output`. Both
    /// are relative to `root`. With `delete`, the sources that were stored
    /// are deleted once the archive is sealed.
    pub fn files(root: &str, output: &str, entries: &Vec<Named>, delete: Option<bool>) -> (next:
        (Archiver, Request))
        ensures
            (next.0@, next.1@) == start_files(root@, output@, wanted_of(entries@), delete),
    {
        if entries.len() == 0 {
            let none: Vec<ArchiveFile> = Vec::new();
            assert(members_of(none@) == Seq::<Member>::empty());
            Archiver::idle(resolve(root, output), None, none, delete_requested(delete)).succeed()
        } else {
            Archiver::write(
                resolve(root, output),
                collect_explicit(root, entries),
                delete_requested(delete),
            )
        }
    }

    /// Begins to archive all that the directory `folder` holds into
    /// `output`. Both are relative to `root`. With `delete`, the directory
    /// is deleted once the archive is sealed.
    pub fn folder(root: &str, output: &str, folder: &str, delete: Option<bool>) -> (next: (
        Archiver,
        Request,
    ))
        ensures
            (next.0@, next.1@) == start_folder(root@, output@, folder@, delete),
    {
        let output_path = resolve(root, output);
        let folder_path = resolve(root, folder);
        let refused = is_path_transversal(folder_path.as_str()) || is_path_transversal(
            output_path.as_str(),
        );
        let path = folder_path.clone();
        let none: Vec<ArchiveFile> = Vec::new();
        assert(members_of(none@) == Seq::<Member>::empty());
        let ready = Archiver::idle(output_path, Some(folder_path), none, delete_requested(delete));
        if refused {
            ready.stop(ArchiveError::Traversal)
        } else {
            (Archiver { stage: Stage::ProbingFolder, ..ready }, Request::ProbeFolder { path })
        }
    }

    /// Begins to archive what `source` selects into `output`: a directory
    /// as [`Archiver::folder`] does, named files as [`Archiver::files`]
    /// does.
    pub fn zip(root: &str, output: &str, source: &Source, delete: Option<bool>) -> (next: (
        Archiver,
        Request,
    ))
        ensures
            (next.0@, next.1@) == start_zip(root@, output@, source@, delete),
    {
        match source {
            Source::Folder(folder) => Archiver::folder(root, output, folder.as_str(), delete),
            Source::Files(entries) => Archiver::files(root, output, entries, delete),
        }
    }

    /// Brings to a caller's proof what holds of every operation: its state
    /// is well-formed. Nothing is computed.
    pub fn note_well_formed(&self)
        ensures
            archiver_wf(self@),
    {
        proof {
            use_type_invariant(self);
        }
    }

    /// Whether the operation is over.
    pub fn is_finished(&self) -> (over: bool)
        ensures
            over == (self@.stage == Stage::Finished),
    {
        match self.stage {
            Stage::Finished => true,
            _ => false,
        }
    }

    /// Takes the host's reply to the last request and hands out the next
    /// request.
    pub fn advance(self, reply: Reply) -> (next: (Archiver, Request))
        ensures
            (next.0@, next.1@) == archiver_step(self@, reply@),
    {
        proof {
            use_type_invariant(&self);
        }
        match self.stage {
            Stage::ProbingFolder => match reply {
                Reply::Probed { exists, regular } => {
                    if exists {
                        let pattern = listing_pattern_of(self.folder.as_str());
                        (Archiver { stage: Stage::Listing, ..self }, Request::ListFolder { pattern })
                    } else {
                        self.stop(ArchiveError::NotFound)
                    }
                },
                other => self.stop(error_of(other)),
            },
            Stage::Listing => match reply {
                Reply::Listing(items) => match collect_folder(self.folder.as_str(), &items) {
                    Ok(found) => {
                        let ready = Archiver { members: found, ..self };
                        ready.begin_writing()
                    },
                    Err(e) => self.stop(e),
                },
                Reply::BadPattern(text) => self.stop(ArchiveError::GlobPattern(text)),
                other => self.stop(error_of(other)),
            },
            Stage::Creating => match reply {
                Reply::Done => self.consider(),
                other => self.stop(error_of(other)),
            },
            Stage::Probing => match reply {
                Reply::Probed { exists, regular } => {
                    if exists && regular {
                        assert(members_of(self.members@)[self.cursor as int]
                            == self.members@[self.cursor as int]@);
                        let source = self.members[self.cursor].actual_path.clone();
                        let name = self.members[self.cursor].archive_path.clone();
                        (
                            Archiver { stage: Stage::Storing, ..self },
                            Request::StoreFile { source, name, large_file: true },
                        )
                    } else {
                        self.pass_on(false).consider()
                    }
                },
                other => self.stop(error_of(other)),
            },
            Stage::Storing => match reply {
                Reply::Done => self.pass_on(true).consider(),
                other => self.stop(error_of(other)),
            },
            Stage::Sealing => match reply {
                Reply::Done => self.clean_up(),
                other => self.stop(error_of(other)),
            },
            Stage::RemovingFile => match reply {
                Reply::Done => {
                    assert(self.cursor < self.stored.len());
                    let onward = self.cursor + 1;
                    let sealed = Archiver { stage: Stage::Sealing, cursor: onward, ..self };
                    sealed.remove_next()
                },
                other => self.stop(error_of(other)),
            },
            Stage::RemovingTree => match reply {
                Reply::Done => self.succeed(),
                other => self.stop(error_of(other)),
            },
            Stage::Finished => self.stop(error_of(Reply::Done)),
        }
    }
}

} // verus!
