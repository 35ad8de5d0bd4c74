//! Whole runs of the reader against a host that meets no failure.

use crate::enclosed::is_enclosed;
use crate::extract_model::{
    extractor_step, extractor_wf, names_directory, parent_to_make, past_entry, read_next,
    start_reader, ExtractorModel, Phase,
};
use crate::path::{has_parent_component, join};
use crate::protocol::{Answer, Ask};
use vstd::prelude::*;

verus! {

/// What an archive holds of one entry.
pub struct Stored {
    pub name: Seq<char>,
    pub comment: Seq<char>,
    pub mode: Option<u32>,
}

/// What a host that meets no failure answers in state `m`, where the
/// archive holds `entries`.
pub open spec fn faithful_answer(m: ExtractorModel, entries: Seq<Stored>) -> Answer {
    match m.phase {
        Phase::Opening => Answer::Opened { entries: entries.len() },
        Phase::Reading => Answer::Entry {
            name: entries[m.cursor as int].name,
            comment: entries[m.cursor as int].comment,
            mode: entries[m.cursor as int].mode,
        },
        _ => Answer::Done,
    }
}

/// The state agrees with an archive of `count` entries.
pub open spec fn fits(m: ExtractorModel, count: nat) -> bool {
    &&& extractor_wf(m)
    &&& m.phase != Phase::Finished
    &&& m.phase != Phase::Opening ==> m.entries == count
}

/// A bound on the steps that a state is away from the end.
pub open spec fn steps_left(m: ExtractorModel, count: nat) -> int {
    match m.phase {
        Phase::Opening => 6 * (count as int) + 8,
        Phase::Reading => 6 * (m.entries - m.cursor) + 6,
        Phase::Noting => 6 * (m.entries - m.cursor) + 5,
        Phase::MakingParent => 6 * (m.entries - m.cursor) + 4,
        Phase::MakingDir => 6 * (m.entries - m.cursor) + 3,
        Phase::Writing => 6 * (m.entries - m.cursor) + 3,
        Phase::SettingMode => 6 * (m.entries - m.cursor) + 2,
        Phase::Removing => 1int,
        Phase::Finished => 0int,
    }
}

/// Every step of an extraction brings it closer to its end.
pub proof fn lemma_step_makes_progress(m: ExtractorModel, entries: Seq<Stored>)
    requires
        fits(m, entries.len()),
    ensures
        ({
            let next = extractor_step(m, faithful_answer(m, entries)).0;
            &&& extractor_wf(next)
            &&& next.phase != Phase::Opening
            &&& next.entries == entries.len()
            &&& 0 <= steps_left(next, entries.len()) < steps_left(m, entries.len())
        }),
{
}

/// The requests that follow the pending one when the extraction is run
/// from `m` against a host that meets no failure, up to the last.
pub open spec fn run_trace(m: ExtractorModel, entries: Seq<Stored>) -> Seq<Ask>
    decreases steps_left(m, entries.len()),
{
    if !fits(m, entries.len()) {
        Seq::<Ask>::empty()
    } else {
        proof {
            lemma_step_makes_progress(m, entries);
        }
        let next = extractor_step(m, faithful_answer(m, entries));
        seq![next.1] + run_trace(next.0, entries)
    }
}

/// The request to log the comment of entry `i`, where it has one.
pub open spec fn note_asks(i: nat, e: Stored) -> Seq<Ask> {
    if e.comment.len() > 0 {
        seq![Ask::Note { index: i, comment: e.comment }]
    } else {
        Seq::<Ask>::empty()
    }
}

/// The requests that put entry `i` in its place under `target`: a
/// directory is made for a name that ends with a separator; for any other
/// name the directory above its place is made, where there is one, and
/// then the file is written.
pub open spec fn place_asks(target: Seq<char>, i: nat, e: Stored) -> Seq<Ask> {
    let out = join(target, e.name);
    if names_directory(e.name) {
        seq![Ask::MakeDir { path: out }]
    } else {
        match parent_to_make(out) {
            Some(p) => seq![Ask::MakeDir { path: p }, Ask::ExtractEntry { index: i, path: out }],
            None => seq![Ask::ExtractEntry { index: i, path: out }],
        }
    }
}

/// The request to set the stored mode of an entry, where it has one and
/// the host knows permission bits.
pub open spec fn mode_asks(target: Seq<char>, apply_modes: bool, e: Stored) -> Seq<Ask> {
    if apply_modes && e.mode is Some {
        seq![Ask::SetMode { path: join(target, e.name), mode: e.mode->0 }]
    } else {
        Seq::<Ask>::empty()
    }
}

/// The requests that follow the reading of entry `i`: none for a name that
/// is not enclosed; else its comment, its place and its mode, in this
/// order.
pub open spec fn after_read_asks(target: Seq<char>, apply_modes: bool, i: nat, e: Stored) -> Seq<
    Ask,
> {
    if is_enclosed(e.name) {
        note_asks(i, e) + place_asks(target, i, e) + mode_asks(target, apply_modes, e)
    } else {
        Seq::<Ask>::empty()
    }
}

/// The requests that end an extraction: the deletion of the archive where
/// that was asked for, and the notice of success.
pub open spec fn closing_asks(input: Seq<char>, delete: bool) -> Seq<Ask> {
    if delete {
        seq![Ask::RemoveFile { path: input }, Ask::Succeed]
    } else {
        seq![Ask::Succeed]
    }
}

/// The requests for the entries from `from` on, each read and then dealt
/// with, followed by those that end the extraction.
pub open spec fn asks_from(m: ExtractorModel, entries: Seq<Stored>, from: nat) -> Seq<Ask>
    decreases entries.len() - from,
{
    if from >= entries.len() {
        closing_asks(m.input, m.delete)
    } else {
        seq![Ask::ReadEntry { index: from }] + after_read_asks(
            m.target,
            m.apply_modes,
            from,
            entries[from as int],
        ) + asks_from(m, entries, from + 1)
    }
}

/// The state agrees with the entry at the cursor having been read.
pub open spec fn holds_entry(m: ExtractorModel, entries: Seq<Stored>) -> bool {
    &&& m.cursor < entries.len()
    &&& m.name == entries[m.cursor as int].name
    &&& m.mode == entries[m.cursor as int].mode
}

proof fn lemma_run_from_next(m: ExtractorModel, entries: Seq<Stored>)
    requires
        m.phase != Phase::Finished,
        extractor_wf(read_next(m).0),
        m.entries == entries.len(),
        !has_parent_component(m.input),
        !has_parent_component(m.target),
    ensures
        seq![read_next(m).1] + run_trace(read_next(m).0, entries) == asks_from(m, entries, m.cursor),
    decreases entries.len() - m.cursor, 5int,
{
    let next = read_next(m);
    if m.cursor >= m.entries {
        if m.delete {
            let gone = extractor_step(next.0, Answer::Done);
            assert(run_trace(next.0, entries) == seq![gone.1] + run_trace(gone.0, entries));
            assert(run_trace(gone.0, entries) == Seq::<Ask>::empty());
            assert(seq![next.1] + (seq![gone.1] + Seq::<Ask>::empty()) =~= closing_asks(
                m.input,
                m.delete,
            ));
        } else {
            assert(run_trace(next.0, entries) == Seq::<Ask>::empty());
            assert(seq![next.1] + Seq::<Ask>::empty() =~= closing_asks(m.input, m.delete));
        }
    } else {
        lemma_run_from_reading(next.0, entries);
        let e = entries[m.cursor as int];
        let tail = after_read_asks(m.target, m.apply_modes, m.cursor, e);
        let rest = asks_from(m, entries, m.cursor + 1);
        assert(asks_from(next.0, entries, m.cursor + 1) == rest) by {
            lemma_asks_depend_on_setup(next.0, m, entries, m.cursor + 1);
        }
        assert(seq![next.1] + (tail + rest) =~= seq![next.1] + tail + rest);
    }
}

/// The expected requests depend on the paths and the flags alone.
proof fn lemma_asks_depend_on_setup(
    a: ExtractorModel,
    b: ExtractorModel,
    entries: Seq<Stored>,
    from: nat,
)
    requires
        a.input == b.input,
        a.target == b.target,
        a.apply_modes == b.apply_modes,
        a.delete == b.delete,
    ensures
        asks_from(a, entries, from) == asks_from(b, entries, from),
    decreases entries.len() - from,
{
    if from < entries.len() {
        lemma_asks_depend_on_setup(a, b, entries, from + 1);
    }
}

proof fn lemma_run_past_entry(m: ExtractorModel, entries: Seq<Stored>)
    requires
        fits(m, entries.len()),
        m.phase != Phase::Opening,
        m.cursor < entries.len(),
    ensures
        seq![read_next(past_entry(m)).1] + run_trace(read_next(past_entry(m)).0, entries)
            == asks_from(m, entries, m.cursor + 1),
    decreases entries.len() - m.cursor, 0int,
{
    let onward = past_entry(m);
    lemma_run_from_next(onward, entries);
    lemma_asks_depend_on_setup(onward, m, entries, m.cursor + 1);
}

proof fn lemma_run_from_settled(m: ExtractorModel, entries: Seq<Stored>)
    requires
        fits(m, entries.len()),
        m.phase == Phase::MakingDir || m.phase == Phase::Writing,
        holds_entry(m, entries),
    ensures
        run_trace(m, entries) == mode_asks(m.target, m.apply_modes, entries[m.cursor as int])
            + asks_from(m, entries, m.cursor + 1),
    decreases entries.len() - m.cursor, 1int,
{
    let next = extractor_step(m, Answer::Done);
    let rest = asks_from(m, entries, m.cursor + 1);
    assert(run_trace(m, entries) == seq![next.1] + run_trace(next.0, entries));
    if m.apply_modes && m.mode is Some {
        lemma_step_makes_progress(m, entries);
        let after = extractor_step(next.0, Answer::Done);
        assert(run_trace(next.0, entries) == seq![after.1] + run_trace(after.0, entries));
        lemma_run_past_entry(next.0, entries);
        lemma_asks_depend_on_setup(next.0, m, entries, m.cursor + 1);
        assert(seq![next.1] + (seq![after.1] + run_trace(after.0, entries)) =~= seq![next.1]
            + rest);
    } else {
        lemma_run_past_entry(m, entries);
        assert(Seq::<Ask>::empty() + rest =~= rest);
    }
}

proof fn lemma_run_from_noting(m: ExtractorModel, entries: Seq<Stored>)
    requires
        fits(m, entries.len()),
        m.phase == Phase::Noting,
        holds_entry(m, entries),
    ensures
        run_trace(m, entries) == place_asks(m.target, m.cursor, entries[m.cursor as int])
            + mode_asks(m.target, m.apply_modes, entries[m.cursor as int]) + asks_from(
            m,
            entries,
            m.cursor + 1,
        ),
    decreases entries.len() - m.cursor, 2int,
{
    let e = entries[m.cursor as int];
    let next = extractor_step(m, Answer::Done);
    let modes = mode_asks(m.target, m.apply_modes, e);
    let rest = asks_from(m, entries, m.cursor + 1);
    assert(run_trace(m, entries) == seq![next.1] + run_trace(next.0, entries));
    lemma_step_makes_progress(m, entries);
    lemma_asks_depend_on_setup(next.0, m, entries, m.cursor + 1);
    if names_directory(m.name) {
        lemma_run_from_settled(next.0, entries);
        assert(seq![next.1] + (modes + rest) =~= seq![next.1] + modes + rest);
    } else if parent_to_make(join(m.target, m.name)) is Some {
        let written = extractor_step(next.0, Answer::Done);
        assert(run_trace(next.0, entries) == seq![written.1] + run_trace(written.0, entries));
        lemma_step_makes_progress(next.0, entries);
        lemma_run_from_settled(written.0, entries);
        lemma_asks_depend_on_setup(written.0, m, entries, m.cursor + 1);
        assert(seq![next.1] + (seq![written.1] + (modes + rest)) =~= seq![next.1, written.1]
            + modes + rest);
    } else {
        lemma_run_from_settled(next.0, entries);
        assert(seq![next.1] + (modes + rest) =~= seq![next.1] + modes + rest);
    }
}

proof fn lemma_run_from_reading(m: ExtractorModel, entries: Seq<Stored>)
    requires
        fits(m, entries.len()),
        m.phase == Phase::Reading,
    ensures
        run_trace(m, entries) == after_read_asks(
            m.target,
            m.apply_modes,
            m.cursor,
            entries[m.cursor as int],
        ) + asks_from(m, entries, m.cursor + 1),
    decreases entries.len() - m.cursor, 3int,
{
    let e = entries[m.cursor as int];
    let next = extractor_step(m, faithful_answer(m, entries));
    let rest = asks_from(m, entries, m.cursor + 1);
    let places = place_asks(m.target, m.cursor, e);
    let modes = mode_asks(m.target, m.apply_modes, e);
    assert(run_trace(m, entries) == seq![next.1] + run_trace(next.0, entries));
    lemma_step_makes_progress(m, entries);
    if !is_enclosed(e.name) {
        lemma_run_past_entry(m, entries);
        assert(Seq::<Ask>::empty() + rest =~= rest);
    } else if e.comment.len() > 0 {
        lemma_run_from_noting(next.0, entries);
        lemma_asks_depend_on_setup(next.0, m, entries, m.cursor + 1);
        assert(seq![next.1] + (places + modes + rest) =~= seq![next.1] + places + modes + rest);
    } else {
        let named = ExtractorModel { phase: Phase::Noting, name: e.name, mode: e.mode, ..m };
        assert(next == extractor_step(named, Answer::Done));
        assert(run_trace(named, entries) == seq![next.1] + run_trace(next.0, entries));
        lemma_run_from_noting(named, entries);
        lemma_asks_depend_on_setup(named, m, entries, m.cursor + 1);
        assert(Seq::<Ask>::empty() + places + modes + rest =~= places + modes + rest);
    }
}

/// The requests of a whole extraction, from the opening of the archive to
/// the notice of success.
pub open spec fn expected_asks(
    input: Seq<char>,
    target: Seq<char>,
    apply_modes: bool,
    delete: bool,
    entries: Seq<Stored>,
) -> Seq<Ask> {
    seq![Ask::OpenArchive { path: input }] + asks_from(
        start_reader(input, target, apply_modes, delete).0,
        entries,
        0,
    )
}

/// Against a host that meets no failure, an extraction asks for exactly
/// this, in this order: the archive is opened; each entry is read, and one
/// with an enclosed name has its comment logged, is put in its place, the
/// directory above a file first, and gets its stored mode; entries with
/// other names are passed over; after the last entry the archive is
/// deleted, where that was asked for; and the extraction ends well.
pub proof fn law_extraction_asks_exactly_this(
    input: Seq<char>,
    target: Seq<char>,
    apply_modes: bool,
    delete: bool,
    entries: Seq<Stored>,
)
    requires
        !has_parent_component(input),
        !has_parent_component(target),
    ensures
        ({
            let start = start_reader(input, target, apply_modes, delete);
            seq![start.1] + run_trace(start.0, entries) == expected_asks(
                input,
                target,
                apply_modes,
                delete,
                entries,
            )
        }),
{
    let start = start_reader(input, target, apply_modes, delete);
    let opened = extractor_step(start.0, faithful_answer(start.0, entries));
    assert(run_trace(start.0, entries) == seq![opened.1] + run_trace(opened.0, entries));
    let ready = ExtractorModel { entries: entries.len(), cursor: 0, ..start.0 };
    assert(opened == read_next(ready));
    lemma_run_from_next(ready, entries);
    lemma_asks_depend_on_setup(ready, start.0, entries, 0);
}

} // verus!
