//! Extraction, step by step.

use crate::archiver::delete_requested;
use crate::enclosed::is_enclosed_name;
use crate::error::ArchiveError;
use crate::extract_model::{
    extractor_step, extractor_wf, names_directory, parent_to_make,
    past_entry, place, placing, read_next, settle, start_reader, start_unzip, stop, succeed, wrap_up,
    write_file, ExtractorModel, Phase,
};
use crate::locate::{parent_dir, strip_extension};
use crate::path::{is_path_transversal, resolve};
use crate::protocol::{error_of, Reply, Request};
use crate::text::{chars_of, view_of};
use vstd::prelude::*;

verus! {

/// An extraction in progress.
///
/// It begins with [`Extractor::read`] or [`Extractor::unzip`], each of
/// which hands out the first request. The host carries a request out and
/// passes what came of it to [`Extractor::advance`], which hands out the
/// next one, until the request is [`Request::Succeed`] or
/// [`Request::Fail`].
///
/// Nothing is rolled back: what was extracted before a failure stays.
pub struct Extractor {
    phase: Phase,
    input: String,
    target: String,
    entries: usize,
    cursor: usize,
    name: String,
    mode: Option<u32>,
    apply_modes: bool,
    delete: bool,
}

impl View for Extractor {
    type V = ExtractorModel;

    closed spec fn view(&self) -> ExtractorModel {
        ExtractorModel {
            phase: self.phase,
            input: self.input@,
            target: self.target@,
            entries: self.entries as nat,
            cursor: self.cursor as nat,
            name: self.name@,
            mode: self.mode,
            apply_modes: self.apply_modes,
            delete: self.delete,
        }
    }
}

/// Whether `name` ends with a separator.
pub fn ends_with_separator(name: &str) -> (b: bool)
    ensures
        b == names_directory(name@),
{
    let chars = chars_of(name);
    chars.len() > 0 && (chars[chars.len() - 1] == '/' || chars[chars.len() - 1] == '\\')
}

/// The directory to make before the file at `out` is written.
pub fn parent_needed(out: &str) -> (parent: Option<String>)
    ensures
        view_of(parent) == parent_to_make(out@),
{
    match parent_dir(out) {
        Some(p) => {
            if p.as_str().is_empty() {
                None
            } else {
                Some(p)
            }
        },
        None => None,
    }
}

impl Extractor {
    #[verifier::type_invariant]
    spec fn well_formed(self) -> bool {
        extractor_wf(self@)
    }

    fn stop(self, e: ArchiveError) -> (next: (Extractor, Request))
        ensures
            (next.0@, next.1@) == stop(self@, e@),
    {
        proof {
            use_type_invariant(&self);
        }
        (Extractor { phase: Phase::Finished, ..self }, Request::Fail(e))
    }

    fn succeed(self) -> (next: (Extractor, Request))
        ensures
            (next.0@, next.1@) == succeed(self@),
    {
        proof {
            use_type_invariant(&self);
        }
        (Extractor { phase: Phase::Finished, ..self }, Request::Succeed)
    }

    fn wrap_up(self) -> (next: (Extractor, Request))
        requires
            self@.phase != Phase::Finished,
        ensures
            (next.0@, next.1@) == wrap_up(self@),
    {
        proof {
            use_type_invariant(&self);
        }
        if self.delete {
            let path = self.input.clone();
            (Extractor { phase: Phase::Removing, ..self }, Request::RemoveFile { path })
        } else {
            self.succeed()
        }
    }

    fn read_next(self) -> (next: (Extractor, Request))
        requires
            self@.phase != Phase::Finished,
        ensures
            (next.0@, next.1@) == read_next(self@),
    {
        proof {
            use_type_invariant(&self);
        }
        if self.cursor >= self.entries {
            self.wrap_up()
        } else {
            let index = self.cursor;
            (Extractor { phase: Phase::Reading, ..self }, Request::ReadEntry { index })
        }
    }

    fn past_entry(self) -> (next: Extractor)
        requires
            self@.phase == Phase::Reading || placing(self@.phase),
        ensures
            next@ == past_entry(self@),
    {
        proof {
            use_type_invariant(&self);
        }
        let onward = self.cursor + 1;
        Extractor { phase: Phase::Opening, cursor: onward, ..self }
    }

    fn write_file(self) -> (next: (Extractor, Request))
        requires
            placing(self@.phase),
            !names_directory(self@.name),
        ensures
            (next.0@, next.1@) == write_file(self@),
    {
        proof {
            use_type_invariant(&self);
        }
        let path = resolve(self.target.as_str(), self.name.as_str());
        let index = self.cursor;
        (Extractor { phase: Phase::Writing, ..self }, Request::ExtractEntry { index, path })
    }

    fn place(self) -> (next: (Extractor, Request))
        requires
            self@.phase == Phase::Noting,
        ensures
            (next.0@, next.1@) == place(self@),
    {
        proof {
            use_type_invariant(&self);
        }
        let out = resolve(self.target.as_str(), self.name.as_str());
        if ends_with_separator(self.name.as_str()) {
            (Extractor { phase: Phase::MakingDir, ..self }, Request::MakeDir { path: out })
        } else {
            match parent_needed(out.as_str()) {
                Some(p) => (
                    Extractor { phase: Phase::MakingParent, ..self },
                    Request::MakeDir { path: p },
                ),
                None => self.write_file(),
            }
        }
    }

    fn settle(self) -> (next: (Extractor, Request))
        requires
            self@.phase == Phase::MakingDir || self@.phase == Phase::Writing,
        ensures
            (next.0@, next.1@) == settle(self@),
    {
        proof {
            use_type_invariant(&self);
        }
        if self.apply_modes {
            match self.mode {
                Some(mode) => {
                    let path = resolve(self.target.as_str(), self.name.as_str());
                    return (
                        Extractor { phase: Phase::SettingMode, ..self },
                        Request::SetMode { path, mode },
                    );
                },
                None => {},
            }
        }
        self.past_entry().read_next()
    }

    /// Begins to extract the archive `input` into the directory `target`;
    /// both paths are used as they are given. With `apply_modes`, stored
    /// permission bits are set on what is extracted: a host that knows no
    /// such bits passes `false`. With `delete`, the archive is deleted once
    /// every entry has been dealt with.
    pub fn read(input: String, target: String, apply_modes: bool, delete: bool) -> (next: (
        Extractor,
        Request,
    ))
        ensures
            (next.0@, next.1@) == start_reader(input@, target@, apply_modes, delete),
    {
        let refused = is_path_transversal(input.as_str()) || is_path_transversal(target.as_str());
        if refused {
            let ready = Extractor {
                phase: Phase::Finished,
                input,
                target,
                entries: 0,
                cursor: 0,
                name: String::new(),
                mode: None,
                apply_modes,
                delete,
            };
            ready.stop(ArchiveError::Traversal)
        } else {
            let path = input.clone();
            let ready = Extractor {
                phase: Phase::Opening,
                input,
                target,
                entries: 0,
                cursor: 0,
                name: String::new(),
                mode: None,
                apply_modes,
                delete,
            };
            (ready, Request::OpenArchive { path })
        }
    }

    /// Begins to extract the archive `input`. The paths are relative to
    /// `root`; without a `target`, the archive is extracted into the
    /// directory named like the archive without its extension.
    pub fn unzip(
        root: &str,
        input: &str,
        target: Option<&str>,
        apply_modes: bool,
        delete: Option<bool>,
    ) -> (next: (Extractor, Request))
        ensures
            (next.0@, next.1@) == start_unzip(
                root@,
                input@,
                match target {
                    Some(t) => Some(t@),
                    None => None,
                },
                apply_modes,
                delete,
            ),
    {
        let input_path = resolve(root, input);
        let target_path = match target {
            Some(t) => resolve(root, t),
            None => strip_extension(input_path.as_str()),
        };
        Extractor::read(input_path, target_path, apply_modes, delete_requested(delete))
    }

    /// Brings to a caller's proof what holds of every extraction: its
    /// state is well-formed. Nothing is computed.
    pub fn note_well_formed(&self)
        ensures
            extractor_wf(self@),
    {
        proof {
            use_type_invariant(self);
        }
    }

    /// Whether the extraction is over.
    pub fn is_finished(&self) -> (over: bool)
        ensures
            over == (self@.phase == Phase::Finished),
    {
        match self.phase {
            Phase::Finished => true,
            _ => false,
        }
    }

    /// Takes the host's reply to the last request and hands out the next
    /// request.
    pub fn advance(self, reply: Reply) -> (next: (Extractor, Request))
        ensures
            (next.0@, next.1@) == extractor_step(self@, reply@),
    {
        proof {
            use_type_invariant(&self);
        }
        match self.phase {
            Phase::Opening => match reply {
                Reply::Opened { entries } => {
                    let opened = Extractor { entries, cursor: 0, ..self };
                    opened.read_next()
                },
                other => self.stop(error_of(other)),
            },
            Phase::Reading => match reply {
                Reply::Entry { name, comment, mode } => {
                    if !is_enclosed_name(name.as_str()) {
                        self.past_entry().read_next()
                    } else if !comment.as_str().is_empty() {
                        let index = self.cursor;
                        (
                            Extractor { phase: Phase::Noting, name, mode, ..self },
                            Request::Note { index, comment },
                        )
                    } else {
                        let named = Extractor { phase: Phase::Noting, name, mode, ..self };
                        named.place()
                    }
                },
                other => self.stop(error_of(other)),
            },
            Phase::Noting => self.place(),
            Phase::MakingDir => match reply {
                Reply::Done => self.settle(),
                other => self.stop(error_of(other)),
            },
            Phase::MakingParent => match reply {
                Reply::Done => self.write_file(),
                other => self.stop(error_of(other)),
            },
            Phase::Writing => match reply {
                Reply::Done => self.settle(),
                other => self.stop(error_of(other)),
            },
            Phase::SettingMode => match reply {
                Reply::Done => self.past_entry().read_next(),
                other => self.stop(error_of(other)),
            },
            Phase::Removing => match reply {
                Reply::Done => self.succeed(),
                other => self.stop(error_of(other)),
            },
            Phase::Finished => self.stop(error_of(Reply::Done)),
        }
    }
}

} // verus!
