//! What a patch reports, asks for and is answered with, said of the patch and of
//! its steps.

use vstd::prelude::*;

use crate::apply_patch::{
    patch_in, payload_error, text_record, AnswerView, FlowView, OutcomeView, ReportView, StageView,
    ToolPayload,
};
use crate::json::JsonView;
use crate::patch_paths::{
    bytes_before, parent_of, part_before, path_before, touched_paths, unwritable, upper,
    write_root, FilePath, PartView, PatchedFile, PrefixView,
};
use crate::patch_progress::{
    changes_view, chunk_text, chunks_text, hunk_change, hunk_changes, marked_lines, opt_hunks,
    paths_differ, source_path, too_soon, update_for, ChangeView, ConsumerView, ErrorView, FileChange, Hunk,
    UpdateFileChunk, UpdateView,
};

verus! {

/// Every line is shown, in order, with the mark before it and a line break behind
/// it.
pub proof fn law_lines_are_marked_one_by_one(mark: Seq<char>, lines: Seq<String>, line: String)
    ensures
        marked_lines(mark, Seq::empty()).len() == 0,
        marked_lines(mark, lines.push(line)) == marked_lines(mark, lines) + mark + line@ + seq![
            '\n',
        ],
{
    reveal_strlit("\n");
    assert("\n"@ =~= seq!['\n']);
    assert(lines.push(line).drop_last() =~= lines);
}

/// Every chunk is shown, in order: where it stands, all lines that go, all lines
/// that come, and whether it reaches the end of the file.
pub proof fn law_chunks_are_shown_one_by_one(
    chunks: Seq<UpdateFileChunk>,
    chunk: UpdateFileChunk,
)
    ensures
        chunks_text(Seq::empty()).len() == 0,
        chunks_text(chunks.push(chunk)) == chunks_text(chunks) + chunk_text(chunk),
        ({
            let head = if chunk.change_context is Some {
                "@@ "@ + chunk.change_context->0@ + seq!['\n']
            } else {
                "@@"@ + seq!['\n']
            };
            let lines = marked_lines(seq!['-'], chunk.old_lines@) + marked_lines(
                seq!['+'],
                chunk.new_lines@,
            );
            chunk_text(chunk) == head + lines + if chunk.is_end_of_file {
                "*** End of File"@ + seq!['\n']
            } else {
                Seq::empty()
            }
        }),
{
    reveal_strlit("\n");
    reveal_strlit("-");
    reveal_strlit("+");
    assert("\n"@ =~= seq!['\n']);
    assert("-"@ =~= seq!['-']);
    assert("+"@ =~= seq!['+']);
    assert(chunks.push(chunk).drop_last() =~= chunks);
    let head = if chunk.change_context is Some {
        "@@ "@ + chunk.change_context->0@ + seq!['\n']
    } else {
        "@@"@ + seq!['\n']
    };
    let old = marked_lines(seq!['-'], chunk.old_lines@);
    let new = marked_lines(seq!['+'], chunk.new_lines@);
    assert(head + old + new =~= head + (old + new));
}

/// What each hunk does is reported under the path of its file: what it adds, that
/// it deletes, or how it updates the file and where it moves it. A hunk takes the
/// place of an earlier one about the same file and leaves those about others.
pub proof fn law_hunks_are_reported_by_path(hunks: Seq<Hunk>, hunk: Hunk)
    ensures
        hunk_changes(Seq::empty()) == Map::<Seq<PartView>, ChangeView>::empty(),
        hunk_changes(hunks.push(hunk)) == hunk_changes(hunks).insert(
            source_path(hunk),
            hunk_change(hunk),
        ),
        match hunk {
            Hunk::AddFile { path, contents } => {
                &&& source_path(hunk) == path@
                &&& hunk_change(hunk) == ChangeView::Add(contents@)
            },
            Hunk::DeleteFile { path } => {
                &&& source_path(hunk) == path@
                &&& hunk_change(hunk) == ChangeView::Delete(Seq::empty())
            },
            Hunk::UpdateFile { path, move_path, chunks } => {
                &&& source_path(hunk) == path@
                &&& hunk_change(hunk) == (ChangeView::Update {
                    unified_diff: chunks_text(chunks@),
                    move_path: if move_path is Some {
                        Some(move_path->0@)
                    } else {
                        None
                    },
                })
            },
        },
{
    assert(hunks.push(hunk).drop_last() =~= hunks);
}

/// A list in which paths differ has no path at two places, and binds each of its
/// paths to the change beside it.
pub proof fn law_differing_paths_stand_once(
    changes: Seq<(FilePath, FileChange)>,
    i: int,
    j: int,
)
    requires
        paths_differ(changes),
        0 <= i < changes.len(),
        0 <= j < changes.len(),
    ensures
        changes[i].0@ == changes[j].0@ <==> i == j,
        changes_view(changes).contains_key(changes[i].0@),
        changes_view(changes)[changes[i].0@] == changes[i].1@,
    decreases changes.len(),
{
    if i < j {
        assert(changes[i].0@ != changes[j].0@);
    } else if j < i {
        assert(changes[j].0@ != changes[i].0@);
    }
    if i < changes.len() - 1 {
        let fewer = changes.drop_last();
        assert forall|k: int, l: int| 0 <= k < l < fewer.len() implies (#[trigger] fewer[k]).0@ != (
        #[trigger] fewer[l]).0@ by {
            assert(changes[k].0@ != changes[l].0@);
        }
        law_differing_paths_stand_once(fewer, i, i);
        assert(changes[i].0@ != changes[changes.len() - 1].0@);
    }
}

/// A list of changes binds each of its paths, the last change of a path before
/// the others.
pub proof fn law_changes_are_bound_by_path(
    changes: Seq<(FilePath, FileChange)>,
    change: (FilePath, FileChange),
)
    ensures
        changes_view(Seq::empty()) == Map::<Seq<PartView>, ChangeView>::empty(),
        changes_view(changes.push(change)) == changes_view(changes).insert(change.0@, change.1@),
{
    assert(changes.push(change).drop_last() =~= changes);
}

/// A patch that does something so far makes an event under its call's id, and one
/// that does nothing or does not parse makes none.
pub proof fn law_events_tell_what_a_patch_does(call_id: Seq<char>, hunks: Vec<Hunk>)
    ensures
        hunks@.len() > 0 ==> update_for(call_id, opt_hunks(Some(hunks))) == Some(
            UpdateView { call_id, changes: hunk_changes(hunks@) },
        ),
        hunks@.len() == 0 ==> update_for(call_id, opt_hunks(Some(hunks))) is None,
        update_for(call_id, opt_hunks(None)) is None,
{
}

/// The first event is sent at once. One that comes within half a second of the
/// last that was sent is held back in the place of the one held before, and a
/// later one is sent and nothing is held. The end of a patch sends what is held.
pub proof fn law_events_are_sent_or_held(
    consumer: ConsumerView,
    update: UpdateView,
    last: u64,
    now: u64,
)
    ensures
        consumer.after_update(None, now) == (consumer, None::<UpdateView>),
        consumer.last_sent_at is None || (consumer.last_sent_at == Some(last) && last + 500_000_000
            <= now) ==> consumer.after_update(Some(update), now) == (
            ConsumerView { last_sent_at: Some(now), pending: None },
            Some(update),
        ),
        consumer.last_sent_at == Some(last) && now < last + 500_000_000 ==> consumer.after_update(
            Some(update),
            now,
        ) == (
            ConsumerView { last_sent_at: Some(last), pending: Some(update) },
            None::<UpdateView>,
        ),
        consumer.pending is None ==> consumer.after_finish(now) == consumer,
        consumer.pending is Some ==> consumer.after_finish(now) == (ConsumerView {
            last_sent_at: Some(now),
            pending: None,
        }),
        !too_soon(None, now),
        too_soon(Some(last), now) <==> now < last + 500_000_000,
{
}

/// The directory whose permission counts for a path is what is left of it without
/// its last component, and the path itself where there is nothing above it: at a
/// root, at a prefix, and where it is empty.
pub proof fn law_permission_is_that_of_the_directory(
    directory: Seq<PartView>,
    name: Seq<u8>,
    prefix: PrefixView,
)
    ensures
        write_root(directory.push(PartView::Normal(name))) == directory,
        write_root(directory.push(PartView::Current)) == directory,
        write_root(directory.push(PartView::Parent)) == directory,
        write_root(directory.push(PartView::Root)) == directory.push(PartView::Root),
        write_root(directory.push(PartView::Prefix(prefix))) == directory.push(
            PartView::Prefix(prefix),
        ),
        write_root(Seq::empty()) == Seq::<PartView>::empty(),
        parent_of(directory.push(PartView::Normal(name))) == Some(directory),
        parent_of(directory.push(PartView::Root)) is None,
        parent_of(Seq::empty()) is None,
{
    assert(directory.push(PartView::Normal(name)).drop_last() =~= directory);
    assert(directory.push(PartView::Current).drop_last() =~= directory);
    assert(directory.push(PartView::Parent).drop_last() =~= directory);
}

/// A patch has to do with every file that it changes, in order, and with the
/// place that a file moves to right behind the place that it leaves.
pub proof fn law_files_are_touched_one_by_one(files: Seq<PatchedFile>, file: PatchedFile)
    ensures
        touched_paths(Seq::empty()).len() == 0,
        file.move_path is None ==> touched_paths(files.push(file)) == touched_paths(files).push(
            file.path@,
        ),
        file.move_path is Some ==> touched_paths(files.push(file)) == touched_paths(files).push(
            file.path@,
        ).push(file.move_path->0@),
{
    assert(files.push(file).drop_last() =~= files);
}

/// The directories to ask for are those that may not be written to, each of them
/// and no other.
pub proof fn law_unwritable_directories_are_asked_for(
    roots: Seq<Seq<PartView>>,
    writable: Seq<bool>,
    root: Seq<PartView>,
)
    requires
        roots.len() == writable.len(),
    ensures
        unwritable(Seq::empty(), Seq::empty()) == Set::<Seq<PartView>>::empty(),
        unwritable(roots.push(root), writable.push(true)) == unwritable(roots, writable),
        unwritable(roots.push(root), writable.push(false)) == unwritable(roots, writable).insert(
            root,
        ),
{
    let none = unwritable(Seq::empty(), Seq::empty());
    assert(none =~= Set::<Seq<PartView>>::empty());
    let before = unwritable(roots, writable);
    let n = roots.len() as int;
    assert forall|w: bool, p: Seq<PartView>|
        #[trigger] unwritable(roots.push(root), writable.push(w)).contains(p) == (before.contains(p)
            || (!w && p == root)) by {
        let more = roots.push(root);
        let marks = writable.push(w);
        if unwritable(more, marks).contains(p) {
            let i = choose|i: int|
                0 <= i < more.len() && i < marks.len() && !marks[i] && #[trigger] more[i] == p;
            if i < n {
                assert(roots[i] == p && !writable[i]);
            }
        }
        if before.contains(p) {
            let i = choose|i: int|
                0 <= i < roots.len() && i < writable.len() && !writable[i] && #[trigger] roots[i]
                    == p;
            assert(more[i] == p && !marks[i]);
        }
        if !w && p == root {
            assert(more[n] == p && !marks[n]);
        }
    }
    assert(unwritable(roots.push(root), writable.push(true)) =~= before);
    assert(unwritable(roots.push(root), writable.push(false)) =~= before.insert(root));
}

/// Names are ordered at the first byte in which they differ, and a name comes
/// before every longer one that it starts.
pub proof fn law_names_are_ordered_by_their_bytes(
    shared: Seq<u8>,
    left: u8,
    right: u8,
    left_rest: Seq<u8>,
    right_rest: Seq<u8>,
)
    ensures
        left != right ==> bytes_before(
            shared + seq![left] + left_rest,
            shared + seq![right] + right_rest,
        ) == (left < right),
        bytes_before(shared, shared + seq![right] + right_rest),
        !bytes_before(shared + seq![left] + left_rest, shared),
        !bytes_before(shared, shared),
    decreases shared.len(),
{
    let longer = shared + seq![left] + left_rest;
    let other = shared + seq![right] + right_rest;
    if shared.len() == 0 {
        assert(longer.first() == left);
        assert(other.first() == right);
    } else {
        let fewer = shared.drop_first();
        law_names_are_ordered_by_their_bytes(fewer, left, right, left_rest, right_rest);
        assert(longer.drop_first() =~= fewer + seq![left] + left_rest);
        assert(other.drop_first() =~= fewer + seq![right] + right_rest);
        assert(longer.first() == shared.first());
        assert(other.first() == shared.first());
    }
}

/// Paths are ordered at the first component in which they differ, and a path
/// comes before every longer one that it starts.
pub proof fn law_paths_are_ordered_by_their_components(
    shared: Seq<PartView>,
    left: PartView,
    right: PartView,
    left_rest: Seq<PartView>,
    right_rest: Seq<PartView>,
)
    ensures
        left != right ==> path_before(
            shared + seq![left] + left_rest,
            shared + seq![right] + right_rest,
        ) == part_before(left, right),
        path_before(shared, shared + seq![right] + right_rest),
        !path_before(shared + seq![left] + left_rest, shared),
        !path_before(shared, shared),
    decreases shared.len(),
{
    let longer = shared + seq![left] + left_rest;
    let other = shared + seq![right] + right_rest;
    if shared.len() == 0 {
        assert(longer.first() == left);
        assert(other.first() == right);
    } else {
        let fewer = shared.drop_first();
        law_paths_are_ordered_by_their_components(fewer, left, right, left_rest, right_rest);
        assert(longer.drop_first() =~= fewer + seq![left] + left_rest);
        assert(other.drop_first() =~= fewer + seq![right] + right_rest);
        assert(longer.first() == shared.first());
        assert(other.first() == shared.first());
    }
}

/// Components are ordered by their kind: prefixes, the root, the current
/// directory, the one above, and names; and within a kind by what they hold.
pub proof fn law_components_are_ordered_by_kind(
    prefix: PrefixView,
    left: Seq<u8>,
    right: Seq<u8>,
)
    ensures
        part_before(PartView::Prefix(prefix), PartView::Root),
        part_before(PartView::Root, PartView::Current),
        part_before(PartView::Current, PartView::Parent),
        part_before(PartView::Parent, PartView::Normal(right)),
        part_before(PartView::Prefix(prefix), PartView::Current),
        part_before(PartView::Prefix(prefix), PartView::Parent),
        part_before(PartView::Prefix(prefix), PartView::Normal(right)),
        part_before(PartView::Root, PartView::Parent),
        part_before(PartView::Root, PartView::Normal(right)),
        part_before(PartView::Current, PartView::Normal(right)),
        part_before(PartView::Normal(left), PartView::Normal(right)) == bytes_before(left, right),
{
    law_names_are_ordered_by_their_bytes(left, 0, 0, Seq::empty(), Seq::empty());
    law_names_are_ordered_by_their_bytes(Seq::empty(), 0, 0, Seq::empty(), Seq::empty());
}

/// Prefixes are ordered by their kind, and within a kind by what they hold: a
/// server before a share, and drives by their letter, which is the same in either
/// case.
pub proof fn law_prefixes_are_ordered_by_kind(
    a: Seq<u8>,
    b: Seq<u8>,
    c: Seq<u8>,
    d: Seq<u8>,
    left: u8,
    right: u8,
)
    ensures
        part_before(
            PartView::Prefix(PrefixView::Verbatim(a)),
            PartView::Prefix(PrefixView::VerbatimUnc(b, c)),
        ),
        part_before(
            PartView::Prefix(PrefixView::VerbatimUnc(a, b)),
            PartView::Prefix(PrefixView::VerbatimDisk(right)),
        ),
        part_before(
            PartView::Prefix(PrefixView::VerbatimDisk(left)),
            PartView::Prefix(PrefixView::DeviceNs(b)),
        ),
        part_before(
            PartView::Prefix(PrefixView::DeviceNs(a)),
            PartView::Prefix(PrefixView::Unc(b, c)),
        ),
        part_before(
            PartView::Prefix(PrefixView::Unc(a, b)),
            PartView::Prefix(PrefixView::Disk(right)),
        ),
        part_before(
            PartView::Prefix(PrefixView::Verbatim(a)),
            PartView::Prefix(PrefixView::Verbatim(b)),
        ) == bytes_before(a, b),
        part_before(
            PartView::Prefix(PrefixView::DeviceNs(a)),
            PartView::Prefix(PrefixView::DeviceNs(b)),
        ) == bytes_before(a, b),
        part_before(
            PartView::Prefix(PrefixView::Unc(a, b)),
            PartView::Prefix(PrefixView::Unc(c, d)),
        ) == (bytes_before(a, c) || (a == c && bytes_before(b, d))),
        part_before(
            PartView::Prefix(PrefixView::VerbatimUnc(a, b)),
            PartView::Prefix(PrefixView::VerbatimUnc(c, d)),
        ) == (bytes_before(a, c) || (a == c && bytes_before(b, d))),
        part_before(
            PartView::Prefix(PrefixView::Disk(left)),
            PartView::Prefix(PrefixView::Disk(right)),
        ) == (left < right),
        part_before(
            PartView::Prefix(PrefixView::VerbatimDisk(left)),
            PartView::Prefix(PrefixView::VerbatimDisk(right)),
        ) == (left < right),
        'a' as u8 <= left <= 'z' as u8 ==> upper(left) == left - ('a' as u8 - 'A' as u8),
        !('a' as u8 <= left <= 'z' as u8) ==> upper(left) == left,
{
    let nothing = Seq::<u8>::empty();
    law_names_are_ordered_by_their_bytes(a, 0, 0, nothing, nothing);
    law_names_are_ordered_by_their_bytes(nothing, left, right, nothing, nothing);
    assert(nothing + seq![left] + nothing =~= seq![left]);
    assert(nothing + seq![right] + nothing =~= seq![right]);
    if left != right {
        assert(seq![left][0] != seq![right][0]);
    }
}

/// A call's patch is the input of a custom tool's call, whole, or what the
/// arguments of a function tool's call hold. A call without one is told why.
pub proof fn law_calls_bring_their_patch(
    payload: ToolPayload,
    text: String,
    complaint: String,
    key: Seq<char>,
)
    ensures
        payload matches ToolPayload::Custom { input } ==> {
            &&& patch_in(payload, Ok(text)) == Some(input@)
            &&& patch_in(payload, Err(complaint)) == Some(input@)
        },
        payload is Function ==> {
            &&& patch_in(payload, Ok(text)) == Some(text@)
            &&& patch_in(payload, Err(complaint)) is None
            &&& payload_error(payload, Err(complaint))
                == "apply_patch arguments are not valid JSON: "@ + complaint@
        },
        payload is Other ==> {
            &&& patch_in(payload, Ok(text)) is None
            &&& patch_in(payload, Err(complaint)) is None
            &&& payload_error(payload, Ok(text))
                == "apply_patch handler received unsupported payload"@
            &&& payload_error(payload, Err(complaint))
                == "apply_patch handler received unsupported payload"@
        },
        text_record(key, text@) == JsonView::Object(map![key => JsonView::Str(text@)]),
{
}

/// Whether a call is over with an error that tells the model the given text.
pub open spec fn tells_model(stage: StageView, text: Seq<char>) -> bool {
    &&& stage is Done
    &&& stage->Done_0 is Failed
    &&& stage->Done_0->Failed_0 is RespondToModel
    &&& stage->Done_0->Failed_0->RespondToModel_0 == text
}

/// A report that a call waits for takes it one step on: from the parser to the
/// environment, to the verification, to the assessment, and from there to its end
/// or to the announcement, the run and the report of it. A patch that fails on
/// the way ends the call with an error that says why, and a command that is no
/// patch is handed back.
pub proof fn law_calls_go_on_step_by_step(flow: FlowView, report: ReportView)
    ensures
        ({
            let next = flow.after_report(report).stage;
            &&& flow.after_report(report).intercepting == flow.intercepting
            &&& flow.after_report(report).multi_environment == flow.multi_environment
            &&& match (flow.stage, report) {
                (StageView::Parsing(_), ReportView::Parsed(None)) => next == StageView::Resolving(
                    None,
                ),
                (StageView::Parsing(_), ReportView::Parsed(Some(id))) => {
                    &&& flow.multi_environment ==> next == StageView::Resolving(Some(id))
                    &&& !flow.multi_environment ==> tells_model(
                        next,
                        "apply_patch environment selection is unavailable for this turn"@,
                    )
                },
                (StageView::Parsing(_), ReportView::ParseFailed(text)) => tells_model(
                    next,
                    "apply_patch verification failed: "@ + text,
                ),
                (StageView::Resolving(_), ReportView::Resolved) => next is Verifying,
                (StageView::Resolving(_), ReportView::Unresolved) => tells_model(
                    next,
                    "apply_patch is unavailable in this session"@,
                ),
                (StageView::Resolving(_), ReportView::ResolveFailed(error)) => next
                    == StageView::Done(OutcomeView::Failed(error)),
                (StageView::Verifying, ReportView::Verified) => next is Applying,
                (StageView::Verifying, ReportView::CorrectnessError(text)) => tells_model(
                    next,
                    "apply_patch verification failed: "@ + text,
                ),
                (StageView::Verifying, ReportView::ShellParseError) => {
                    &&& flow.intercepting ==> next == StageView::Done(OutcomeView::NotHandled)
                    &&& !flow.intercepting ==> tells_model(
                        next,
                        "apply_patch handler received invalid patch input"@,
                    )
                },
                (StageView::Verifying, ReportView::NotApplyPatch) => {
                    &&& flow.intercepting ==> next == StageView::Done(OutcomeView::NotHandled)
                    &&& !flow.intercepting ==> tells_model(
                        next,
                        "apply_patch handler received non-apply_patch input"@,
                    )
                },
                (StageView::Applying, ReportView::Settled(outcome)) => next == StageView::Done(
                    outcome,
                ),
                (StageView::Applying, ReportView::Delegated) => next is Beginning,
                (StageView::Beginning, ReportView::Begun) => next is Running,
                (StageView::Running, ReportView::Ran(succeeded)) => next == StageView::Finishing(
                    succeeded,
                ),
                (StageView::Finishing(_), ReportView::Finished(outcome)) => next == StageView::Done(
                    outcome,
                ),
                _ => next == flow.stage,
            }
        }),
{
}

/// Reports are taken in one by one, every one of them and in order.
pub proof fn law_reports_are_taken_in_one_by_one(
    flow: FlowView,
    reports: Seq<ReportView>,
    report: ReportView,
)
    ensures
        flow.after_reports(Seq::empty()) == flow,
        flow.after_reports(reports.push(report)) == flow.after_reports(reports).after_report(
            report,
        ),
{
    assert(reports.push(report).drop_last() =~= reports);
}

/// A call is answered once it is over and not before: with its output whole, with
/// its error as it came, or with nothing for a command that is no patch.
pub proof fn law_answers_are_what_calls_end_with(
    flow: FlowView,
    content: Seq<char>,
    error: ErrorView,
)
    ensures
        !(flow.stage is Done) ==> flow.answer() is None,
        flow.stage == StageView::Done(OutcomeView::Failed(error)) ==> flow.answer() == Some(
            AnswerView::Failed(error),
        ),
        flow.stage == StageView::Done(OutcomeView::NotHandled) ==> flow.answer() == Some(
            AnswerView::NotHandled,
        ),
        flow.stage == StageView::Done(OutcomeView::Output(content)) && flow.intercepting
            ==> flow.answer() == Some(AnswerView::Output { content, success: Some(true) }),
        flow.stage == StageView::Done(OutcomeView::Output(content)) && !flow.intercepting
            ==> flow.answer() == Some(AnswerView::Output { content, success: None }),
{
}

} // verus!
