//! What the values of the wire layer stand for: all that they hold, part by part.

use vstd::prelude::*;

use crate::apply_patch::{
    answer_view, AnswerView, OutcomeView, PatchOutcome, PatchOutput, PatchReport, PatchStage,
    ReportView, StageView,
};
use crate::json::{text_view, value_view, Json};
use crate::patch_paths::{
    paths_view, upper, FilePath, PartView, PathPart, PathPrefix, PrefixView,
};
use crate::patch_progress::{
    changes_view, opt_path, opt_update, ChangeView, ErrorView, FileChange, FunctionCallError,
    PatchApplyUpdatedEvent,
};
use crate::protocol::{
    conversation, event_view, events_view, opt_text, ApiError, ContentItem, ContentView, EventView,
    FunctionCallOutputBody, FunctionCallOutputContentItem, ItemView, OutputBodyView,
    OutputPartView, ReasoningItemContent, ReasoningView, ResponseEvent, ResponseItem,
};
use crate::stream::{
    all_drawn, choices_of, draft_view, drawn_for, drawn_for_polls, frame_of, given_or_drawn,
    is_item_id, polls_view, Draft, ItemIds, PollView, SsePoll,
};
use crate::tool_calls::{calls_view, ToolCallState};

verus! {

/// Whether a text that may be missing stands for one that may be missing.
pub open spec fn stands_for(view: Option<Seq<char>>, text: Option<String>) -> bool {
    match (view, text) {
        (Some(v), Some(t)) => v == t@,
        (None, None) => true,
        _ => false,
    }
}

/// Whether a message part stands for all that it holds.
pub open spec fn part_stands_for(view: ContentView, part: ContentItem) -> bool {
    match (view, part) {
        (ContentView::InputText(v), ContentItem::InputText { text }) => v == text@,
        (ContentView::OutputText(v), ContentItem::OutputText { text }) => v == text@,
        (ContentView::InputImage(v), ContentItem::InputImage { image_url }) => v == image_url@,
        _ => false,
    }
}

/// Whether a reasoning part stands for all that it holds.
pub open spec fn thought_stands_for(view: ReasoningView, part: ReasoningItemContent) -> bool {
    match (view, part) {
        (ReasoningView::ReasoningText(v), ReasoningItemContent::ReasoningText { text }) => v
            == text@,
        (ReasoningView::Text(v), ReasoningItemContent::Text { text }) => v == text@,
        _ => false,
    }
}

/// Whether a part of a tool's output stands for all that it holds.
pub open spec fn output_stands_for(
    view: OutputPartView,
    part: FunctionCallOutputContentItem,
) -> bool {
    match (view, part) {
        (
            OutputPartView::InputText(v),
            FunctionCallOutputContentItem::InputText { text },
        ) => v == text@,
        (
            OutputPartView::InputImage(v),
            FunctionCallOutputContentItem::InputImage { image_url },
        ) => v == image_url@,
        (
            OutputPartView::EncryptedContent(v),
            FunctionCallOutputContentItem::EncryptedContent { encrypted_content },
        ) => v == encrypted_content@,
        _ => false,
    }
}

/// Whether a tool's output stands for all that it holds, part by part.
pub open spec fn body_stands_for(view: OutputBodyView, body: FunctionCallOutputBody) -> bool {
    match (view, body) {
        (OutputBodyView::Text(v), FunctionCallOutputBody::Text(text)) => v == text@,
        (OutputBodyView::ContentItems(v), FunctionCallOutputBody::ContentItems(parts)) => {
            &&& v.len() == parts@.len()
            &&& forall|i: int| 0 <= i < v.len() ==> output_stands_for(#[trigger] v[i], parts@[i])
        },
        _ => false,
    }
}

/// Whether an item of a conversation stands for all that it holds.
pub open spec fn item_stands_for(view: ItemView, item: ResponseItem) -> bool {
    match item {
        ResponseItem::Message { id, role, content } => {
            &&& view is Message
            &&& stands_for(view->Message_id, id)
            &&& view->Message_role == role@
            &&& view->Message_content.len() == content@.len()
            &&& forall|i: int|
                0 <= i < content@.len() ==> part_stands_for(
                    #[trigger] view->Message_content[i],
                    content@[i],
                )
        },
        ResponseItem::Reasoning { id, summary, content, encrypted_content } => {
            &&& view is Reasoning
            &&& view->Reasoning_id == id@
            &&& view->summary.len() == summary@.len()
            &&& forall|i: int| 0 <= i < summary@.len() ==> #[trigger] view->summary[i] == summary@[i]@
            &&& view->Reasoning_content is Some == content is Some
            &&& content is Some ==> {
                &&& view->Reasoning_content->0.len() == content->0@.len()
                &&& forall|i: int|
                    0 <= i < content->0@.len() ==> thought_stands_for(
                        #[trigger] view->Reasoning_content->0[i],
                        content->0@[i],
                    )
            }
            &&& stands_for(view->encrypted_content, encrypted_content)
        },
        ResponseItem::LocalShellCall { id, call_id, status, action } => {
            &&& view is LocalShellCall
            &&& stands_for(view->LocalShellCall_id, id)
            &&& stands_for(view->LocalShellCall_call_id, call_id)
            &&& view->LocalShellCall_status == status@
            &&& view->action == action@
        },
        ResponseItem::FunctionCall { id, name, namespace, arguments, call_id } => {
            &&& view is FunctionCall
            &&& stands_for(view->FunctionCall_id, id)
            &&& view->FunctionCall_name == name@
            &&& stands_for(view->namespace, namespace)
            &&& view->arguments == arguments@
            &&& view->FunctionCall_call_id == call_id@
        },
        ResponseItem::FunctionCallOutput { call_id, output } => {
            &&& view is FunctionCallOutput
            &&& view->FunctionCallOutput_call_id == call_id@
            &&& body_stands_for(view->body, output.body)
            &&& view->success == output.success
        },
        ResponseItem::CustomToolCall { id, call_id, name, input, status } => {
            &&& view is CustomToolCall
            &&& stands_for(view->CustomToolCall_id, id)
            &&& view->CustomToolCall_call_id == call_id@
            &&& view->CustomToolCall_name == name@
            &&& view->input == input@
            &&& stands_for(view->CustomToolCall_status, status)
        },
        ResponseItem::CustomToolCallOutput { call_id, output } => {
            &&& view is CustomToolCallOutput
            &&& view->CustomToolCallOutput_call_id == call_id@
            &&& view->output == output@
        },
        ResponseItem::AgentMessage => view is AgentMessage,
        ResponseItem::WebSearchCall => view is WebSearchCall,
        ResponseItem::ToolSearchCall => view is ToolSearchCall,
        ResponseItem::ToolSearchOutput => view is ToolSearchOutput,
        ResponseItem::ImageGenerationCall => view is ImageGenerationCall,
        ResponseItem::Compaction => view is Compaction,
        ResponseItem::CompactionTrigger => view is CompactionTrigger,
        ResponseItem::ContextCompaction => view is ContextCompaction,
        ResponseItem::Other => view is Other,
    }
}

/// The items of a conversation stand for all that they hold, one for one and in
/// order.
pub proof fn law_conversations_stand_for_all_they_hold(items: Seq<ResponseItem>, i: int)
    requires
        0 <= i < items.len(),
    ensures
        conversation(items).len() == items.len(),
        conversation(items)[i] == items[i]@,
        item_stands_for(conversation(items)[i], items[i]),
{
}

/// Whether an entry of a stream stands for all that it holds.
pub open spec fn event_stands_for(
    view: EventView,
    event: Result<ResponseEvent, ApiError>,
) -> bool {
    match event {
        Ok(ResponseEvent::OutputItemAdded(item)) => view is Added && item_stands_for(
            view->Added_0,
            item,
        ),
        Ok(ResponseEvent::OutputItemDone(item)) => view is Done && item_stands_for(
            view->Done_0,
            item,
        ),
        Ok(ResponseEvent::OutputTextDelta(text)) => view is TextDelta && view->TextDelta_0 == text@,
        Ok(ResponseEvent::ReasoningContentDelta { delta, content_index }) => {
            &&& view is ReasoningDelta
            &&& view->delta == delta@
            &&& view->content_index == content_index
        },
        Ok(ResponseEvent::Completed { response_id, token_usage, end_turn }) => {
            &&& view is Completed
            &&& view->response_id == response_id@
            &&& view->token_usage == token_usage
            &&& view->end_turn == end_turn
        },
        Err(ApiError::Stream(message)) => view is StreamError && view->StreamError_0 == message@,
        Err(ApiError::ContextWindowExceeded) => view is ContextWindowExceeded,
    }
}

/// The entries of a stream stand for all that they hold, one for one and in
/// order.
pub proof fn law_streams_stand_for_all_they_hold(
    events: Seq<Result<ResponseEvent, ApiError>>,
    i: int,
)
    requires
        0 <= i < events.len(),
    ensures
        events_view(events).len() == events.len(),
        events_view(events)[i] == event_view(events[i]),
        event_stands_for(events_view(events)[i], events[i]),
{
}

/// Polls, growing items and pending calls stand for all that they hold.
pub proof fn law_streams_see_what_they_hold(
    polls: Seq<SsePoll>,
    draft: Draft,
    calls: Seq<ToolCallState>,
    i: int,
)
    requires
        0 <= i < polls.len(),
        0 <= i < calls.len(),
    ensures
        polls_view(polls).len() == polls.len(),
        match polls[i] {
            SsePoll::Event(data) => polls_view(polls)[i] == PollView::Event(data@),
            SsePoll::Failed(message) => polls_view(polls)[i] == PollView::Failed(message@),
            SsePoll::Ended => polls_view(polls)[i] is Ended,
            SsePoll::TimedOut => polls_view(polls)[i] is TimedOut,
        },
        draft@.id == draft.id@,
        draft@.parts.len() == draft.parts@.len(),
        forall|k: int|
            0 <= k < draft.parts@.len() ==> #[trigger] draft@.parts[k] == draft.parts@[k]@,
        draft_view(Some(draft)) == Some(draft@),
        draft_view(None) is None,
        calls_view(calls).len() == calls.len(),
        calls_view(calls)[i].index == calls[i].index,
        stands_for(calls_view(calls)[i].id, calls[i].id),
        stands_for(calls_view(calls)[i].name, calls[i].name),
        calls_view(calls)[i].arguments == calls[i].arguments@,
{
}

/// A text, a value or a path that may be missing is itself where it is there, and
/// nothing where it is not.
pub proof fn law_missing_values_are_missing(text: String, value: Json, path: FilePath)
    ensures
        opt_text(Some(text)) == Some(text@),
        opt_text(None) is None,
        text_view(None) is None,
        forall|t: &str| #[trigger] text_view(Some(t)) == Some(t@),
        value_view(Some(&value)) == Some(value@),
        value_view(None) is None,
        opt_path(Some(path)) == Some(path@),
        opt_path(None) is None,
{
}

/// An id is the given one where one is given. One that is drawn has the form of a
/// random UUID: groups of eight, four, four, four and twelve lower-case
/// hexadecimal digits with hyphens between them, the third starting with 4 and
/// the fourth with 8, 9, a or b.
pub proof fn law_ids_are_given_or_drawn(given: Seq<char>, id: Seq<char>, k: int)
    ensures
        given_or_drawn(Some(given), id) <==> id == given,
        given_or_drawn(None, id) <==> is_item_id(id),
        is_item_id(id) ==> {
            &&& id.len() == 8 + 1 + 4 + 1 + 4 + 1 + 4 + 1 + 12
            &&& id[8] == '-' && id[13] == '-' && id[18] == '-' && id[23] == '-'
            &&& id[14] == '4'
            &&& seq!['8', '9', 'a', 'b'].contains(id[19])
            &&& 0 <= k < 36 && k != 8 && k != 13 && k != 18 && k != 23 ==> '0' <= id[k] <= '9'
                || 'a' <= id[k] <= 'f'
        },
{
    if is_item_id(id) {
        let digits = seq!['8', '9', 'a', 'b'];
        assert(digits[0] == '8' && digits[1] == '9' && digits[2] == 'a' && digits[3] == 'b');
        assert(id[8] == '-');
        assert(id[13] == '-');
        assert(id[18] == '-');
        assert(id[23] == '-');
        if 0 <= k < 36 {
            let c = id[k];
        }
    }
}

/// Every choice that polls bring gets ids of its own that are drawn for it, and
/// nothing else does.
pub proof fn law_ids_are_drawn_for_every_choice(
    polls: Seq<PollView>,
    ids: Seq<Seq<ItemIds>>,
    i: int,
    k: int,
)
    requires
        drawn_for_polls(polls, ids),
        0 <= i < polls.len(),
    ensures
        ids.len() == polls.len(),
        drawn_for(polls[i], ids[i]),
        all_drawn(ids[i]),
        frame_of(polls[i]) is Some ==> ids[i].len() == choices_of(frame_of(polls[i])->0).len(),
        frame_of(polls[i]) is None ==> ids[i].len() == 0,
        0 <= k < ids[i].len() ==> is_item_id(ids[i][k].reasoning) && is_item_id(
            ids[i][k].assistant,
        ),
{
    let own = ids[i];
    if 0 <= k < own.len() {
        let drawn = own[k];
    }
}

/// What an error stands for: the text that the model is told, or its kind and its
/// message.
pub proof fn law_errors_stand_for_what_they_say(error: FunctionCallError)
    ensures
        match error {
            FunctionCallError::RespondToModel(message) => error@ == ErrorView::RespondToModel(
                message@,
            ),
            FunctionCallError::Other { kind, message } => error@ == (ErrorView::Other {
                kind: kind@,
                message: message@,
            }),
        },
{
}

/// The steps of a call, what came of them and what it is answered with stand for
/// all that they hold.
pub proof fn law_calls_stand_for_all_they_hold(
    stage: PatchStage,
    report: PatchReport,
    answer: Result<Option<PatchOutput>, FunctionCallError>,
)
    ensures
        match stage {
            PatchStage::Parsing { patch } => stage@ == StageView::Parsing(patch@),
            PatchStage::Resolving { environment_id } => stage@ is Resolving && stands_for(
                stage@->Resolving_0,
                environment_id,
            ),
            PatchStage::Verifying => stage@ is Verifying,
            PatchStage::Applying => stage@ is Applying,
            PatchStage::Beginning => stage@ is Beginning,
            PatchStage::Running => stage@ is Running,
            PatchStage::Finishing { succeeded } => stage@ == StageView::Finishing(succeeded),
            PatchStage::Done(PatchOutcome::Output(text)) => stage@ == StageView::Done(
                OutcomeView::Output(text@),
            ),
            PatchStage::Done(PatchOutcome::Failed(error)) => stage@ == StageView::Done(
                OutcomeView::Failed(error@),
            ),
            PatchStage::Done(PatchOutcome::NotHandled) => stage@ == StageView::Done(
                OutcomeView::NotHandled,
            ),
        },
        match report {
            PatchReport::Parsed { environment_id } => report@ is Parsed && stands_for(
                report@->Parsed_0,
                environment_id,
            ),
            PatchReport::ParseFailed(text) => report@ == ReportView::ParseFailed(text@),
            PatchReport::Resolved => report@ is Resolved,
            PatchReport::Unresolved => report@ is Unresolved,
            PatchReport::ResolveFailed(error) => report@ == ReportView::ResolveFailed(error@),
            PatchReport::Verified => report@ is Verified,
            PatchReport::CorrectnessError(text) => report@ == ReportView::CorrectnessError(text@),
            PatchReport::ShellParseError => report@ is ShellParseError,
            PatchReport::NotApplyPatch => report@ is NotApplyPatch,
            PatchReport::Settled(Ok(text)) => report@ == ReportView::Settled(
                OutcomeView::Output(text@),
            ),
            PatchReport::Settled(Err(error)) => report@ == ReportView::Settled(
                OutcomeView::Failed(error@),
            ),
            PatchReport::Delegated => report@ is Delegated,
            PatchReport::Begun => report@ is Begun,
            PatchReport::Ran { succeeded } => report@ == ReportView::Ran(succeeded),
            PatchReport::Finished(Ok(text)) => report@ == ReportView::Finished(
                OutcomeView::Output(text@),
            ),
            PatchReport::Finished(Err(error)) => report@ == ReportView::Finished(
                OutcomeView::Failed(error@),
            ),
        },
        match answer {
            Ok(Some(output)) => answer_view(answer) == (AnswerView::Output {
                content: output.content@,
                success: output.success,
            }),
            Ok(None) => answer_view(answer) is NotHandled,
            Err(error) => answer_view(answer) == AnswerView::Failed(error@),
        },
{
}

/// Whether a component of a path stands for what it holds, the letter of a drive
/// in upper case.
pub open spec fn component_stands_for(view: PartView, part: PathPart) -> bool {
    match part {
        PathPart::Prefix(PathPrefix::Verbatim(name)) => view == PartView::Prefix(
            PrefixView::Verbatim(name@),
        ),
        PathPart::Prefix(PathPrefix::VerbatimUnc(server, share)) => view == PartView::Prefix(
            PrefixView::VerbatimUnc(server@, share@),
        ),
        PathPart::Prefix(PathPrefix::VerbatimDisk(letter)) => view == PartView::Prefix(
            PrefixView::VerbatimDisk(upper(letter)),
        ),
        PathPart::Prefix(PathPrefix::DeviceNs(name)) => view == PartView::Prefix(
            PrefixView::DeviceNs(name@),
        ),
        PathPart::Prefix(PathPrefix::Unc(server, share)) => view == PartView::Prefix(
            PrefixView::Unc(server@, share@),
        ),
        PathPart::Prefix(PathPrefix::Disk(letter)) => view == PartView::Prefix(
            PrefixView::Disk(upper(letter)),
        ),
        PathPart::Root => view is Root,
        PathPart::Current => view is Current,
        PathPart::Parent => view is Parent,
        PathPart::Normal(name) => view == PartView::Normal(name@),
    }
}

/// Paths stand for all of their components, one for one and in order.
pub proof fn law_paths_stand_for_their_components(paths: Seq<FilePath>, i: int, k: int)
    requires
        0 <= i < paths.len(),
    ensures
        paths_view(paths).len() == paths.len(),
        paths_view(paths)[i] == paths[i]@,
        paths[i]@.len() == paths[i].parts@.len(),
        0 <= k < paths[i].parts@.len() ==> component_stands_for(paths[i]@[k], paths[i].parts@[k]),
{
}

/// Changes and the events that tell of them stand for all that they hold.
pub proof fn law_changes_stand_for_all_they_hold(
    change: FileChange,
    event: PatchApplyUpdatedEvent,
)
    ensures
        match change {
            FileChange::Add { content } => change@ == ChangeView::Add(content@),
            FileChange::Delete { content } => change@ == ChangeView::Delete(content@),
            FileChange::Update { unified_diff, move_path: None } => change@ == (
            ChangeView::Update { unified_diff: unified_diff@, move_path: None }),
            FileChange::Update { unified_diff, move_path: Some(path) } => change@ == (
            ChangeView::Update { unified_diff: unified_diff@, move_path: Some(path@) }),
        },
        event@.call_id == event.call_id@,
        event@.changes == changes_view(event.changes@),
        opt_update(Some(event)) == Some(event@),
        opt_update(None) is None,
{
}

} // verus!
