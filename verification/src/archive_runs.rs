//! Whole runs of the writer against a host that meets no failure.

use crate::archive_laws::law_archiver_never_names_a_parent;
use crate::archive_model::{
    archiver_step, archiver_wf, consider, pass_on, start_writer, ArchiverModel, Stage,
};
use crate::member::Member;
use crate::path::has_parent_component;
use crate::protocol::{Answer, Ask};
use vstd::prelude::*;

verus! {

/// The archive exists or is being created: the members are known.
pub open spec fn writing(s: Stage) -> bool {
    s == Stage::Creating || s == Stage::Probing || s == Stage::Storing || s == Stage::Sealing || s
        == Stage::RemovingFile || s == Stage::RemovingTree
}

/// No member in `members` has a source with a `..` component.
pub open spec fn all_sources_plain(members: Seq<Member>) -> bool {
    forall|k: int| 0 <= k < members.len() ==> !has_parent_component(#[trigger] members[k].source)
}

/// The sources of the members that are regular files, in order:
/// `regular[i]` says whether member `i` is one.
pub open spec fn kept_sources(members: Seq<Member>, regular: Seq<bool>) -> Seq<Seq<char>>
    decreases members.len(),
{
    if members.len() == 0 {
        Seq::<Seq<char>>::empty()
    } else {
        let before = kept_sources(members.drop_last(), regular.drop_last());
        if regular.last() {
            before.push(members.last().source)
        } else {
            before
        }
    }
}

/// What a host that meets no failure answers in state `m`: whether the
/// member at the cursor is a regular file where that is asked, and that the
/// request was carried out otherwise.
pub open spec fn faithful_answer(m: ArchiverModel, regular: Seq<bool>) -> Answer {
    if m.stage == Stage::Probing {
        Answer::Probed { exists: regular[m.cursor as int], regular: regular[m.cursor as int] }
    } else {
        Answer::Done
    }
}

/// A bound on the steps that a well-formed state is away from the end.
pub open spec fn steps_left(m: ArchiverModel) -> int {
    match m.stage {
        Stage::Creating => m.stored.len() + 3 * (m.members.len() - m.cursor) + 4,
        Stage::Probing => m.stored.len() + 3 * (m.members.len() - m.cursor) + 3,
        Stage::Storing => m.stored.len() + 3 * (m.members.len() - m.cursor) + 2,
        Stage::Sealing => m.stored.len() as int + 2,
        Stage::RemovingFile => m.stored.len() - m.cursor,
        Stage::RemovingTree => 1int,
        _ => 0int,
    }
}

/// Every step of a writing operation brings it closer to its end.
pub proof fn lemma_step_makes_progress(m: ArchiverModel, a: Answer)
    requires
        archiver_wf(m),
        writing(m.stage),
    ensures
        archiver_wf(archiver_step(m, a).0),
        writing(archiver_step(m, a).0.stage) || archiver_step(m, a).0.stage == Stage::Finished,
        0 <= steps_left(archiver_step(m, a).0) < steps_left(m),
{
    law_archiver_never_names_a_parent(m, a);
}

/// The state and the request with which the operation ends when it is run
/// from `m`, with `ask` pending, against a host that meets no failure.
pub open spec fn run_to_end(m: ArchiverModel, ask: Ask, regular: Seq<bool>) -> (
    ArchiverModel,
    Ask,
)
    decreases steps_left(m),
{
    if !archiver_wf(m) || !writing(m.stage) {
        (m, ask)
    } else {
        proof {
            lemma_step_makes_progress(m, faithful_answer(m, regular));
        }
        let next = archiver_step(m, faithful_answer(m, regular));
        run_to_end(next.0, next.1, regular)
    }
}

/// Deleting the stored sources, one after the other, ends well.
proof fn lemma_removal_ends_well(m: ArchiverModel, ask: Ask, regular: Seq<bool>)
    requires
        archiver_wf(m),
        m.stage == Stage::RemovingFile,
    ensures
        run_to_end(m, ask, regular).1 == Ask::Succeed,
        run_to_end(m, ask, regular).0.stored == m.stored,
    decreases m.stored.len() - m.cursor,
{
    let next = archiver_step(m, Answer::Done);
    lemma_step_makes_progress(m, Answer::Done);
    assert(faithful_answer(m, regular) == Answer::Done);
    assert(run_to_end(m, ask, regular) == run_to_end(next.0, next.1, regular));
    if m.cursor + 1 < m.stored.len() {
        lemma_removal_ends_well(next.0, next.1, regular);
    } else {
        assert(next.0.stage == Stage::Finished);
        assert(run_to_end(next.0, next.1, regular) == next);
    }
}

/// From the point where the member at the cursor is looked at, the
/// operation ends well, and what was stored by then is followed by the
/// sources of the regular files among the members that are left.
proof fn lemma_scan_ends_well(m: ArchiverModel, regular: Seq<bool>)
    requires
        archiver_wf(m),
        m.stage == Stage::Creating,
        all_sources_plain(m.members),
        regular.len() == m.members.len(),
        m.stored == kept_sources(m.members.take(m.cursor as int), regular.take(m.cursor as int)),
    ensures
        run_to_end(consider(m).0, consider(m).1, regular).1 == Ask::Succeed,
        run_to_end(consider(m).0, consider(m).1, regular).0.stored == kept_sources(
            m.members,
            regular,
        ),
    decreases m.members.len() - m.cursor,
{
    let seen = consider(m);
    lemma_step_makes_progress(m, Answer::Done);
    assert(seen == archiver_step(m, Answer::Done));
    if m.cursor >= m.members.len() {
        assert(m.members.take(m.cursor as int) == m.members);
        assert(regular.take(m.cursor as int) == regular);
        let sealed = archiver_step(seen.0, Answer::Done);
        lemma_step_makes_progress(seen.0, Answer::Done);
        assert(run_to_end(seen.0, seen.1, regular) == run_to_end(sealed.0, sealed.1, regular));
        if !m.delete {
        } else if m.folder is Some {
            let gone = archiver_step(sealed.0, Answer::Done);
            lemma_step_makes_progress(sealed.0, Answer::Done);
            assert(run_to_end(sealed.0, sealed.1, regular) == run_to_end(gone.0, gone.1, regular));
        } else if m.stored.len() > 0 {
            lemma_removal_ends_well(sealed.0, sealed.1, regular);
        }
    } else {
        let at = m.cursor as int;
        assert(!has_parent_component(m.members[at].source));
        assert(m.members.take(at + 1).drop_last() == m.members.take(at));
        assert(regular.take(at + 1).drop_last() == regular.take(at));
        assert(m.members.take(at + 1).last() == m.members[at]);
        assert(regular.take(at + 1).last() == regular[at]);
        let probed = archiver_step(seen.0, faithful_answer(seen.0, regular));
        lemma_step_makes_progress(seen.0, faithful_answer(seen.0, regular));
        assert(run_to_end(seen.0, seen.1, regular) == run_to_end(probed.0, probed.1, regular));
        if regular[at] {
            let stored = archiver_step(probed.0, Answer::Done);
            lemma_step_makes_progress(probed.0, Answer::Done);
            assert(run_to_end(probed.0, probed.1, regular) == run_to_end(
                stored.0,
                stored.1,
                regular,
            ));
            let onward = pass_on(probed.0, true);
            assert(stored == consider(onward));
            assert(archiver_wf(onward)) by {
                assert forall|k: int| 0 <= k < onward.stored.len() implies !has_parent_component(
                    #[trigger] onward.stored[k],
                ) by {
                    if k < m.stored.len() {
                        assert(onward.stored[k] == m.stored[k]);
                    }
                }
            }
            lemma_scan_ends_well(onward, regular);
        } else {
            let onward = pass_on(seen.0, false);
            assert(probed == consider(onward));
            lemma_scan_ends_well(onward, regular);
        }
    }
}

/// Against a host that meets no failure, writing members whose paths have
/// no `..` component ends well, whatever is missing: exactly the members
/// that are regular files are stored, in the order in which they were
/// given, and a member that is missing or is no regular file takes nothing
/// from those that follow.
pub proof fn law_writer_stores_the_regular_members(
    output: Seq<char>,
    members: Seq<Member>,
    delete: bool,
    regular: Seq<bool>,
)
    requires
        !has_parent_component(output),
        all_sources_plain(members),
        regular.len() == members.len(),
    ensures
        ({
            let start = start_writer(output, members, delete);
            let end = run_to_end(start.0, start.1, regular);
            &&& end.1 == Ask::Succeed
            &&& end.0.stored == kept_sources(members, regular)
        }),
{
    let start = start_writer(output, members, delete);
    let created = archiver_step(start.0, Answer::Done);
    lemma_step_makes_progress(start.0, Answer::Done);
    assert(run_to_end(start.0, start.1, regular) == run_to_end(created.0, created.1, regular));
    assert(members.take(0) == Seq::<Member>::empty());
    assert(created == consider(start.0));
    lemma_scan_ends_well(start.0, regular);
}

/// The requests that follow the pending one when the operation is run from
/// `m` against a host that meets no failure, up to the last.
pub open spec fn run_trace(m: ArchiverModel, regular: Seq<bool>) -> Seq<Ask>
    decreases steps_left(m),
{
    if !archiver_wf(m) || !writing(m.stage) {
        Seq::<Ask>::empty()
    } else {
        proof {
            lemma_step_makes_progress(m, faithful_answer(m, regular));
        }
        let next = archiver_step(m, faithful_answer(m, regular));
        seq![next.1] + run_trace(next.0, regular)
    }
}

/// The requests for one member: it is probed, and stored under its archive
/// name where it is a regular file.
pub open spec fn member_asks(member: Member, regular: bool) -> Seq<Ask> {
    if regular {
        seq![
            Ask::ProbeFile { path: member.source },
            Ask::StoreFile { source: member.source, name: member.name, large_file: true },
        ]
    } else {
        seq![Ask::ProbeFile { path: member.source }]
    }
}

/// The requests that delete the files `paths` from index `from` on, one
/// after the other.
pub open spec fn removal_asks(paths: Seq<Seq<char>>, from: nat) -> Seq<Ask>
    decreases paths.len() - from,
{
    if from >= paths.len() {
        Seq::<Ask>::empty()
    } else {
        seq![Ask::RemoveFile { path: paths[from as int] }] + removal_asks(paths, from + 1)
    }
}

/// The requests that delete what was archived, where that was asked for:
/// the archived directory as a whole, or else each stored source.
pub open spec fn cleaning_asks(m: ArchiverModel, stored: Seq<Seq<char>>) -> Seq<Ask> {
    if !m.delete {
        Seq::<Ask>::empty()
    } else {
        match m.folder {
            Some(f) => seq![Ask::RemoveTree { path: f }],
            None => removal_asks(stored, 0),
        }
    }
}

/// The requests for the members from `from` on, followed by those that end
/// the operation: the archive is sealed, what was archived is deleted
/// where that was asked for, and success is reported.
pub open spec fn asks_from(m: ArchiverModel, regular: Seq<bool>, from: nat) -> Seq<Ask>
    decreases m.members.len() - from,
{
    if from >= m.members.len() {
        seq![Ask::SealArchive] + cleaning_asks(m, kept_sources(m.members, regular)) + seq![
            Ask::Succeed,
        ]
    } else {
        member_asks(m.members[from as int], regular[from as int]) + asks_from(
            m,
            regular,
            from + 1,
        )
    }
}

/// The expected requests depend on the members, the directory and the
/// deletion flag alone.
proof fn lemma_asks_depend_on_setup(
    a: ArchiverModel,
    b: ArchiverModel,
    regular: Seq<bool>,
    from: nat,
)
    requires
        a.members == b.members,
        a.folder == b.folder,
        a.delete == b.delete,
    ensures
        asks_from(a, regular, from) == asks_from(b, regular, from),
    decreases a.members.len() - from,
{
    if from < a.members.len() {
        lemma_asks_depend_on_setup(a, b, regular, from + 1);
    }
}

/// While the stored sources are deleted, the requests are those for the
/// sources that are left, and then the notice of success.
proof fn lemma_trace_of_removal(m: ArchiverModel, regular: Seq<bool>)
    requires
        archiver_wf(m),
        m.stage == Stage::RemovingFile,
    ensures
        run_trace(m, regular) == removal_asks(m.stored, m.cursor + 1) + seq![Ask::Succeed],
    decreases m.stored.len() - m.cursor,
{
    let next = archiver_step(m, Answer::Done);
    lemma_step_makes_progress(m, Answer::Done);
    assert(faithful_answer(m, regular) == Answer::Done);
    assert(run_trace(m, regular) == seq![next.1] + run_trace(next.0, regular));
    if m.cursor + 1 < m.stored.len() {
        lemma_trace_of_removal(next.0, regular);
        assert(seq![next.1] + (removal_asks(m.stored, m.cursor + 2) + seq![Ask::Succeed])
            =~= removal_asks(m.stored, m.cursor + 1) + seq![Ask::Succeed]);
    } else {
        assert(run_trace(next.0, regular) == Seq::<Ask>::empty());
        assert(seq![next.1] + Seq::<Ask>::empty() =~= removal_asks(m.stored, m.cursor + 1)
            + seq![Ask::Succeed]);
    }
}

/// From the point where the member at the cursor is looked at, the
/// requests are those for the members that are left and those that end the
/// operation.
proof fn lemma_trace_of_scan(m: ArchiverModel, regular: Seq<bool>)
    requires
        archiver_wf(m),
        m.stage == Stage::Creating,
        all_sources_plain(m.members),
        regular.len() == m.members.len(),
        m.stored == kept_sources(m.members.take(m.cursor as int), regular.take(m.cursor as int)),
    ensures
        seq![consider(m).1] + run_trace(consider(m).0, regular) == asks_from(m, regular, m.cursor),
    decreases m.members.len() - m.cursor,
{
    let seen = consider(m);
    lemma_step_makes_progress(m, Answer::Done);
    assert(seen == archiver_step(m, Answer::Done));
    if m.cursor >= m.members.len() {
        assert(m.members.take(m.cursor as int) == m.members);
        assert(regular.take(m.cursor as int) == regular);
        let sealed = archiver_step(seen.0, Answer::Done);
        lemma_step_makes_progress(seen.0, Answer::Done);
        assert(run_trace(seen.0, regular) == seq![sealed.1] + run_trace(sealed.0, regular));
        let cleaning = cleaning_asks(m, m.stored);
        if !m.delete {
            assert(run_trace(sealed.0, regular) == Seq::<Ask>::empty());
            assert(seq![seen.1] + (seq![sealed.1] + Seq::<Ask>::empty()) =~= seq![
                Ask::SealArchive,
            ] + cleaning + seq![Ask::Succeed]);
        } else if m.folder is Some {
            let gone = archiver_step(sealed.0, Answer::Done);
            lemma_step_makes_progress(sealed.0, Answer::Done);
            assert(run_trace(sealed.0, regular) == seq![gone.1] + run_trace(gone.0, regular));
            assert(run_trace(gone.0, regular) == Seq::<Ask>::empty());
            assert(seq![seen.1] + (seq![sealed.1] + (seq![gone.1] + Seq::<Ask>::empty()))
                =~= seq![Ask::SealArchive] + cleaning + seq![Ask::Succeed]);
        } else if m.stored.len() > 0 {
            lemma_trace_of_removal(sealed.0, regular);
            assert(removal_asks(m.stored, 0) == seq![sealed.1] + removal_asks(m.stored, 1));
            assert(seq![seen.1] + (seq![sealed.1] + (removal_asks(m.stored, 1) + seq![
                Ask::Succeed,
            ])) =~= seq![Ask::SealArchive] + cleaning + seq![Ask::Succeed]);
        } else {
            assert(run_trace(sealed.0, regular) == Seq::<Ask>::empty());
            assert(seq![seen.1] + (seq![sealed.1] + Seq::<Ask>::empty()) =~= seq![
                Ask::SealArchive,
            ] + cleaning + seq![Ask::Succeed]);
        }
    } else {
        let at = m.cursor as int;
        let rest = asks_from(m, regular, m.cursor + 1);
        assert(!has_parent_component(m.members[at].source));
        assert(m.members.take(at + 1).drop_last() == m.members.take(at));
        assert(regular.take(at + 1).drop_last() == regular.take(at));
        assert(m.members.take(at + 1).last() == m.members[at]);
        assert(regular.take(at + 1).last() == regular[at]);
        let probed = archiver_step(seen.0, faithful_answer(seen.0, regular));
        lemma_step_makes_progress(seen.0, faithful_answer(seen.0, regular));
        assert(run_trace(seen.0, regular) == seq![probed.1] + run_trace(probed.0, regular));
        if regular[at] {
            let stored = archiver_step(probed.0, Answer::Done);
            lemma_step_makes_progress(probed.0, Answer::Done);
            assert(run_trace(probed.0, regular) == seq![stored.1] + run_trace(stored.0, regular));
            let onward = pass_on(probed.0, true);
            assert(stored == consider(onward));
            assert(archiver_wf(onward)) by {
                assert forall|k: int| 0 <= k < onward.stored.len() implies !has_parent_component(
                    #[trigger] onward.stored[k],
                ) by {
                    if k < m.stored.len() {
                        assert(onward.stored[k] == m.stored[k]);
                    }
                }
            }
            lemma_trace_of_scan(onward, regular);
            lemma_asks_depend_on_setup(onward, m, regular, m.cursor + 1);
            assert(seq![seen.1] + (seq![probed.1] + rest) =~= member_asks(
                m.members[at],
                regular[at],
            ) + rest);
        } else {
            let onward = pass_on(seen.0, false);
            assert(probed == consider(onward));
            lemma_trace_of_scan(onward, regular);
            lemma_asks_depend_on_setup(onward, m, regular, m.cursor + 1);
            assert(seq![seen.1] + rest =~= member_asks(m.members[at], regular[at]) + rest);
        }
    }
}

/// Against a host that meets no failure, once the archive is created the
/// operation asks for exactly this, in this order: each member is probed,
/// and stored under its archive name where it is a regular file; the
/// archive is sealed; what was archived is deleted, where that was asked
/// for; and the operation ends well. A member that is missing, or is no
/// regular file, costs one probe and nothing else.
pub proof fn law_writing_asks_exactly_this(m: ArchiverModel, regular: Seq<bool>)
    requires
        archiver_wf(m),
        m.stage == Stage::Creating,
        m.cursor == 0,
        m.stored.len() == 0,
        all_sources_plain(m.members),
        regular.len() == m.members.len(),
    ensures
        run_trace(m, regular) == asks_from(m, regular, 0),
{
    let next = archiver_step(m, Answer::Done);
    assert(faithful_answer(m, regular) == Answer::Done);
    assert(run_trace(m, regular) == seq![next.1] + run_trace(next.0, regular));
    assert(next == consider(m));
    assert(m.members.take(0) == Seq::<Member>::empty());
    assert(m.stored =~= Seq::<Seq<char>>::empty());
    lemma_trace_of_scan(m, regular);
}

} // verus!
