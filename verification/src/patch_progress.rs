//! Progress events of a patch that is still being written.

use vstd::prelude::*;

use crate::patch_paths::{FilePath, PartView};
use crate::protocol::opt_text;

verus! {

/// A run of changed lines in a file.
#[derive(Debug)]
pub struct UpdateFileChunk {
    pub change_context: Option<String>,
    pub old_lines: Vec<String>,
    pub new_lines: Vec<String>,
    pub is_end_of_file: bool,
}

/// What a patch does to a file.
#[allow(inconsistent_fields)]
#[derive(Debug)]
pub enum Hunk {
    AddFile { path: FilePath, contents: String },
    DeleteFile { path: FilePath },
    UpdateFile { path: FilePath, move_path: Option<FilePath>, chunks: Vec<UpdateFileChunk> },
}

/// A change of a file as progress events report it.
#[derive(Debug)]
pub enum FileChange {
    Add { content: String },
    Delete { content: String },
    Update { unified_diff: String, move_path: Option<FilePath> },
}

/// What a change of a file is.
pub enum ChangeView {
    Add(Seq<char>),
    Delete(Seq<char>),
    Update { unified_diff: Seq<char>, move_path: Option<Seq<PartView>> },
}

/// The path that an optional path is.
pub open spec fn opt_path(path: Option<FilePath>) -> Option<Seq<PartView>> {
    match path {
        Some(path) => Some(path@),
        None => None,
    }
}

impl FileChange {
    pub open spec fn view(&self) -> ChangeView {
        match self {
            FileChange::Add { content } => ChangeView::Add(content@),
            FileChange::Delete { content } => ChangeView::Delete(content@),
            FileChange::Update { unified_diff, move_path } => ChangeView::Update {
                unified_diff: unified_diff@,
                move_path: opt_path(*move_path),
            },
        }
    }
}

/// The lines of text, each with a mark before it and a line break behind it.
pub open spec fn marked_lines(mark: Seq<char>, lines: Seq<String>) -> Seq<char>
    decreases lines.len(),
{
    if lines.len() == 0 {
        Seq::empty()
    } else {
        marked_lines(mark, lines.drop_last()) + mark + lines.last()@ + "\n"@
    }
}

/// The line that a chunk starts with.
pub open spec fn chunk_header(context: Option<Seq<char>>) -> Seq<char> {
    match context {
        Some(context) => "@@ "@ + context + "\n"@,
        None => "@@"@ + "\n"@,
    }
}

/// A chunk as a diff shows it: its header, the old lines, the new lines, and a
/// line that says where it reaches the end of the file.
pub open spec fn chunk_text(chunk: UpdateFileChunk) -> Seq<char> {
    chunk_header(opt_text(chunk.change_context)) + marked_lines("-"@, chunk.old_lines@)
        + marked_lines("+"@, chunk.new_lines@) + if chunk.is_end_of_file {
        "*** End of File"@ + "\n"@
    } else {
        Seq::empty()
    }
}

/// Chunks as a diff shows them.
pub open spec fn chunks_text(chunks: Seq<UpdateFileChunk>) -> Seq<char>
    decreases chunks.len(),
{
    if chunks.len() == 0 {
        Seq::empty()
    } else {
        chunks_text(chunks.drop_last()) + chunk_text(chunks.last())
    }
}

fn append_marked_lines(text: &mut String, mark: &str, lines: &Vec<String>)
    ensures
        final(text)@ == old(text)@ + marked_lines(mark@, lines@),
{
    let ghost before = text@;
    let mut i: usize = 0;
    assert(lines@.take(0) =~= Seq::empty());
    assert(before =~= before + marked_lines(mark@, lines@.take(0)));
    while i < lines.len()
        invariant
            i <= lines.len(),
            text@ == before + marked_lines(mark@, lines@.take(i as int)),
        decreases lines.len() - i,
    {
        assert(lines@.take(i + 1).drop_last() =~= lines@.take(i as int));
        text.append(mark);
        text.append(lines[i].as_str());
        text.append("\n");
        assert(text@ =~= before + marked_lines(mark@, lines@.take(i + 1)));
        i = i + 1;
    }
    assert(lines@.take(i as int) =~= lines@);
}

fn append_chunk(text: &mut String, chunk: &UpdateFileChunk)
    ensures
        final(text)@ == old(text)@ + chunk_text(*chunk),
{
    let ghost before = text@;
    match &chunk.change_context {
        Some(context) => {
            text.append("@@ ");
            text.append(context.as_str());
            text.append("\n");
        },
        None => {
            text.append("@@");
            text.append("\n");
        },
    }
    assert(text@ =~= before + chunk_header(opt_text(chunk.change_context)));
    append_marked_lines(text, "-", &chunk.old_lines);
    append_marked_lines(text, "+", &chunk.new_lines);
    if chunk.is_end_of_file {
        text.append("*** End of File");
        text.append("\n");
    }
    assert(text@ =~= before + chunk_text(*chunk));
}

/// The chunks of an update as a diff shows them.
pub fn format_update_chunks_for_progress(chunks: &[UpdateFileChunk]) -> (result: String)
    ensures
        result@ == chunks_text(chunks@),
{
    let mut unified_diff = String::new();
    let mut i: usize = 0;
    assert(chunks@.take(0) =~= Seq::empty());
    assert(unified_diff@ =~= Seq::empty());
    while i < chunks.len()
        invariant
            i <= chunks.len(),
            unified_diff@ == chunks_text(chunks@.take(i as int)),
        decreases chunks.len() - i,
    {
        assert(chunks@.take(i + 1).drop_last() =~= chunks@.take(i as int));
        append_chunk(&mut unified_diff, &chunks[i]);
        i = i + 1;
    }
    assert(chunks@.take(i as int) =~= chunks@);
    unified_diff
}

/// The path of the file that a hunk is about.
pub open spec fn source_path(hunk: Hunk) -> Seq<PartView> {
    match hunk {
        Hunk::AddFile { path, .. } => path@,
        Hunk::DeleteFile { path } => path@,
        Hunk::UpdateFile { path, .. } => path@,
    }
}

/// The path of the file that a hunk is about.
pub fn hunk_source_path(hunk: &Hunk) -> (result: &FilePath)
    ensures
        result@ == source_path(*hunk),
{
    match hunk {
        Hunk::AddFile { path, .. } => path,
        Hunk::DeleteFile { path } => path,
        Hunk::UpdateFile { path, .. } => path,
    }
}

/// The change that a hunk makes.
pub open spec fn hunk_change(hunk: Hunk) -> ChangeView {
    match hunk {
        Hunk::AddFile { contents, .. } => ChangeView::Add(contents@),
        Hunk::DeleteFile { .. } => ChangeView::Delete(Seq::empty()),
        Hunk::UpdateFile { chunks, move_path, .. } => ChangeView::Update {
            unified_diff: chunks_text(chunks@),
            move_path: opt_path(move_path),
        },
    }
}

/// The changes that hunks make, by path: of hunks about one file the last
/// counts.
pub open spec fn hunk_changes(hunks: Seq<Hunk>) -> Map<Seq<PartView>, ChangeView>
    decreases hunks.len(),
{
    if hunks.len() == 0 {
        Map::empty()
    } else {
        hunk_changes(hunks.drop_last()).insert(source_path(hunks.last()), hunk_change(hunks.last()))
    }
}

/// The changes in a list, by path.
pub open spec fn changes_view(changes: Seq<(FilePath, FileChange)>) -> Map<
    Seq<PartView>,
    ChangeView,
>
    decreases changes.len(),
{
    if changes.len() == 0 {
        Map::empty()
    } else {
        changes_view(changes.drop_last()).insert(changes.last().0@, changes.last().1@)
    }
}

/// No two changes in a list have one path.
pub open spec fn paths_differ(changes: Seq<(FilePath, FileChange)>) -> bool {
    forall|i: int, j: int|
        0 <= i < j < changes.len() ==> (#[trigger] changes[i]).0@ != (#[trigger] changes[j]).0@
}

proof fn lemma_change_replaced(
    changes: Seq<(FilePath, FileChange)>,
    at: int,
    change: (FilePath, FileChange),
)
    requires
        0 <= at < changes.len(),
        paths_differ(changes),
        changes[at].0@ == change.0@,
    ensures
        changes_view(changes.update(at, change)) == changes_view(changes).insert(
            change.0@,
            change.1@,
        ),
    decreases changes.len(),
{
    let changed = changes.update(at, change);
    if at == changes.len() - 1 {
        assert(changed.drop_last() =~= changes.drop_last());
        assert(changes_view(changed) =~= changes_view(changes).insert(change.0@, change.1@));
    } else {
        assert(changed.drop_last() =~= changes.drop_last().update(at, change));
        assert(changed.last() == changes.last());
        assert(changes[at].0@ != changes[changes.len() - 1].0@);
        assert(paths_differ(changes.drop_last())) by {
            assert forall|i: int, j: int| 0 <= i < j < changes.len() - 1 implies (
            #[trigger] changes.drop_last()[i]).0@ != (#[trigger] changes.drop_last()[j]).0@ by {
                assert(changes[i].0@ != changes[j].0@);
            }
        }
        lemma_change_replaced(changes.drop_last(), at, change);
        assert(changes_view(changed) =~= changes_view(changes).insert(change.0@, change.1@));
    }
}

/// Sets the change of a path, in the place of what it had.
fn set_change(changes: &mut Vec<(FilePath, FileChange)>, path: FilePath, change: FileChange)
    requires
        paths_differ(old(changes)@),
    ensures
        paths_differ(final(changes)@),
        changes_view(final(changes)@) == changes_view(old(changes)@).insert(path@, change@),
{
    let ghost before = changes@;
    let mut i: usize = 0;
    while i < changes.len()
        invariant
            i <= changes.len(),
            before == changes@,
            before == old(changes)@,
            paths_differ(before),
            forall|j: int| 0 <= j < i ==> (#[trigger] before[j]).0@ != path@,
        decreases changes.len() - i,
    {
        if changes[i].0.same(&path) {
            proof {
                lemma_change_replaced(before, i as int, (path, change));
            }
            changes.set(i, (path, change));
            assert(paths_differ(changes@)) by {
                assert forall|j: int, k: int| 0 <= j < k < changes@.len() implies (
                #[trigger] changes@[j]).0@ != (#[trigger] changes@[k]).0@ by {
                    assert(before[j].0@ != before[k].0@);
                }
            }
            return;
        }
        i = i + 1;
    }
    changes.push((path, change));
    assert(changes@.drop_last() =~= before);
}

fn change_of(hunk: &Hunk) -> (result: FileChange)
    ensures
        result@ == hunk_change(*hunk),
{
    match hunk {
        Hunk::AddFile { contents, .. } => FileChange::Add { content: contents.clone() },
        Hunk::DeleteFile { .. } => {
            let content = String::new();
            assert(content@ =~= Seq::empty());
            FileChange::Delete { content }
        },
        Hunk::UpdateFile { chunks, move_path, .. } => FileChange::Update {
            unified_diff: format_update_chunks_for_progress(chunks.as_slice()),
            move_path: match move_path {
                Some(path) => Some(path.copy()),
                None => None,
            },
        },
    }
}

/// The changes that hunks make, each path once.
pub fn convert_apply_patch_hunks_to_protocol(hunks: &[Hunk]) -> (result: Vec<
    (FilePath, FileChange),
>)
    ensures
        paths_differ(result@),
        changes_view(result@) == hunk_changes(hunks@),
{
    let mut changes: Vec<(FilePath, FileChange)> = Vec::new();
    let mut i: usize = 0;
    assert(hunks@.take(0) =~= Seq::empty());
    while i < hunks.len()
        invariant
            i <= hunks.len(),
            paths_differ(changes@),
            changes_view(changes@) == hunk_changes(hunks@.take(i as int)),
        decreases hunks.len() - i,
    {
        assert(hunks@.take(i + 1).drop_last() =~= hunks@.take(i as int));
        set_change(&mut changes, hunk_source_path(&hunks[i]).copy(), change_of(&hunks[i]));
        i = i + 1;
    }
    assert(hunks@.take(i as int) =~= hunks@);
    changes
}

/// What a patch that is being written does so far.
#[derive(Debug)]
pub struct PatchApplyUpdatedEvent {
    pub call_id: String,
    pub changes: Vec<(FilePath, FileChange)>,
}

/// What a progress event is.
pub struct UpdateView {
    pub call_id: Seq<char>,
    pub changes: Map<Seq<PartView>, ChangeView>,
}

impl PatchApplyUpdatedEvent {
    pub open spec fn view(&self) -> UpdateView {
        UpdateView { call_id: self.call_id@, changes: changes_view(self.changes@) }
    }
}

/// The event that an optional event is.
pub open spec fn opt_update(event: Option<PatchApplyUpdatedEvent>) -> Option<UpdateView> {
    match event {
        Some(event) => Some(event@),
        None => None,
    }
}

/// What a tool call fails with.
#[derive(Debug)]
pub enum FunctionCallError {
    /// The model is told.
    RespondToModel(String),
    /// An error of another kind, which is handed on as it came.
    Other { kind: String, message: String },
}

/// What an error is.
pub enum ErrorView {
    RespondToModel(Seq<char>),
    Other { kind: Seq<char>, message: Seq<char> },
}

impl FunctionCallError {
    pub open spec fn view(&self) -> ErrorView {
        match self {
            FunctionCallError::RespondToModel(message) => ErrorView::RespondToModel(message@),
            FunctionCallError::Other { kind, message } => ErrorView::Other {
                kind: kind@,
                message: message@,
            },
        }
    }

    /// The same error.
    pub fn copy(&self) -> (result: FunctionCallError)
        ensures
            result@ == self@,
    {
        match self {
            FunctionCallError::RespondToModel(message) => FunctionCallError::RespondToModel(
                message.clone(),
            ),
            FunctionCallError::Other { kind, message } => FunctionCallError::Other {
                kind: kind.clone(),
                message: message.clone(),
            },
        }
    }
}

/// The shortest time between two progress events, in nanoseconds.
pub const APPLY_PATCH_ARGUMENT_DIFF_BUFFER_INTERVAL: u64 = 500_000_000;

/// Turns the pieces of a patch into progress events, no two of them closer to
/// each other than the interval. Times are nanoseconds on one clock.
pub struct ApplyPatchArgumentDiffConsumer {
    last_sent_at: Option<u64>,
    pending: Option<PatchApplyUpdatedEvent>,
}

/// What a consumer of pieces is: when it last sent an event, and the event that
/// it holds back.
pub struct ConsumerView {
    pub last_sent_at: Option<u64>,
    pub pending: Option<UpdateView>,
}

/// Whether an event at `now` comes too soon.
pub open spec fn too_soon(last_sent_at: Option<u64>, now: u64) -> bool {
    match last_sent_at {
        Some(last) => now - last < APPLY_PATCH_ARGUMENT_DIFF_BUFFER_INTERVAL,
        None => false,
    }
}

/// The event for what a patch does so far, where it does something.
pub open spec fn update_for(call_id: Seq<char>, hunks: Option<Seq<Hunk>>) -> Option<UpdateView> {
    match hunks {
        Some(hunks) => if hunks.len() > 0 {
            Some(UpdateView { call_id, changes: hunk_changes(hunks) })
        } else {
            None
        },
        None => None,
    }
}

impl ConsumerView {
    /// The consumer once an event is at hand, and the event that it sends.
    pub open spec fn after_update(self, update: Option<UpdateView>, now: u64) -> (
        ConsumerView,
        Option<UpdateView>,
    ) {
        match update {
            Some(update) => if too_soon(self.last_sent_at, now) {
                (ConsumerView { pending: Some(update), ..self }, None)
            } else {
                (ConsumerView { last_sent_at: Some(now), pending: None }, Some(update))
            },
            None => (self, None),
        }
    }

    /// The consumer once the patch is complete: the event held back is sent.
    pub open spec fn after_finish(self, now: u64) -> ConsumerView {
        match self.pending {
            Some(_) => ConsumerView { last_sent_at: Some(now), pending: None },
            None => self,
        }
    }
}

/// The hunks of an optional list.
pub open spec fn opt_hunks(hunks: Option<Vec<Hunk>>) -> Option<Seq<Hunk>> {
    match hunks {
        Some(hunks) => Some(hunks@),
        None => None,
    }
}

impl Default for ApplyPatchArgumentDiffConsumer {
    fn default() -> (result: Self)
        ensures
            result@ == (ConsumerView { last_sent_at: None, pending: None }),
    {
        ApplyPatchArgumentDiffConsumer { last_sent_at: None, pending: None }
    }
}

impl ApplyPatchArgumentDiffConsumer {
    pub closed spec fn view(&self) -> ConsumerView {
        ConsumerView { last_sent_at: self.last_sent_at, pending: opt_update(self.pending) }
    }

    /// Takes in what the patch, with one piece more, has been parsed to: its
    /// hunks so far, or nothing where it did not parse.
    pub fn push_delta(&mut self, call_id: String, hunks: Option<Vec<Hunk>>, now: u64) -> (result:
        Option<PatchApplyUpdatedEvent>)
        ensures
            (final(self)@, opt_update(result)) == old(self)@.after_update(
                update_for(call_id@, opt_hunks(hunks)),
                now,
            ),
    {
        let hunks = match hunks {
            Some(hunks) => hunks,
            None => {
                return None;
            },
        };
        if hunks.len() == 0 {
            return None;
        }
        let changes = convert_apply_patch_hunks_to_protocol(hunks.as_slice());
        let event = PatchApplyUpdatedEvent { call_id, changes };
        let waits: bool = match self.last_sent_at {
            Some(last) => now < last || now - last < APPLY_PATCH_ARGUMENT_DIFF_BUFFER_INTERVAL,
            None => false,
        };
        if waits {
            self.pending = Some(event);
            None
        } else {
            self.pending = None;
            self.last_sent_at = Some(now);
            Some(event)
        }
    }

    /// Takes in a piece like `push_delta`, where progress events are switched
    /// on; where they are not, nothing happens.
    pub fn consume_diff(
        &mut self,
        enabled: bool,
        call_id: String,
        hunks: Option<Vec<Hunk>>,
        now: u64,
    ) -> (result: Option<PatchApplyUpdatedEvent>)
        ensures
            (final(self)@, opt_update(result)) == if enabled {
                old(self)@.after_update(update_for(call_id@, opt_hunks(hunks)), now)
            } else {
                (old(self)@, None)
            },
    {
        if !enabled {
            return None;
        }
        self.push_delta(call_id, hunks, now)
    }

    /// Takes in the end of the patch: whether it parsed, or the parser's
    /// complaint. The event held back is sent, unless the patch did not parse.
    pub fn finish_update_on_complete(&mut self, parsed: Result<(), String>, now: u64) -> (result:
        Result<Option<PatchApplyUpdatedEvent>, FunctionCallError>)
        ensures
            match (parsed, result) {
                (Ok(_), Ok(event)) => {
                    &&& opt_update(event) == old(self)@.pending
                    &&& final(self)@ == old(self)@.after_finish(now)
                },
                (Err(message), Err(error)) => {
                    &&& error@ == ErrorView::RespondToModel(
                        "failed to parse apply_patch: "@ + message@,
                    )
                    &&& final(self)@ == old(self)@
                },
                _ => false,
            },
    {
        match parsed {
            Err(message) => {
                let mut text = "failed to parse apply_patch: ".to_owned();
                text.append(message.as_str());
                Err(FunctionCallError::RespondToModel(text))
            },
            Ok(_) => {
                let event = self.pending.take();
                if event.is_some() {
                    self.last_sent_at = Some(now);
                }
                Ok(event)
            },
        }
    }
}

/// An event that is sent while a patch is written comes no sooner after the one
/// before it than the interval.
pub proof fn law_progress_events_keep_their_distance(
    consumer: ConsumerView,
    update: Option<UpdateView>,
    now: u64,
)
    requires
        consumer.after_update(update, now).1 is Some,
    ensures
        consumer.last_sent_at matches Some(last) ==> now - last
            >= APPLY_PATCH_ARGUMENT_DIFF_BUFFER_INTERVAL,
        consumer.after_update(update, now).0.last_sent_at == Some(now),
{
}

/// What has been held back or sent last is the newest state of the patch:
/// nothing that a piece brought is lost before the patch is complete.
pub proof fn law_newest_progress_is_sent_or_held(
    consumer: ConsumerView,
    update: UpdateView,
    now: u64,
)
    ensures
        ({
            let (after, sent) = consumer.after_update(Some(update), now);
            &&& sent == Some(update) <==> !too_soon(consumer.last_sent_at, now)
            &&& sent is None ==> after.pending == Some(update)
            &&& sent is Some ==> after.pending is None
        }),
{
}

} // verus!
