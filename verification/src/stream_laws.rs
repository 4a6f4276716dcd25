//! What holds of every chat stream.

use vstd::prelude::*;

use crate::json::JsonView;
use crate::protocol::{ChatDialect, EventView, ItemView, TokenUsage};
use crate::stream::{
    choices_of, content_texts, done_events, empty_draft, frame_of, grown, message_item,
    new_stream, reasoning_item, DraftView, ItemIds, PollView, StreamView,
};
use crate::tool_calls::{finished_calls, CallView};
use crate::usage::reported_usage;

verus! {

/// The items that have been announced and not yet given out as done.
pub struct OpenItems {
    pub assistant: Option<DraftView>,
    pub reasoning: Option<DraftView>,
}

/// The open items of a decoder.
pub open spec fn open_items(stream: StreamView) -> OpenItems {
    OpenItems { assistant: stream.assistant, reasoning: stream.reasoning }
}

/// What a reader of the events holds once an event has come, or nothing where
/// the event does not fit what came before. An item is announced empty, grows
/// by deltas that are numbered from zero, and is done under the id that it was
/// announced with, with exactly the parts that the deltas brought. A response
/// completes with no item open.
pub open spec fn after_event_read(open: OpenItems, event: EventView) -> Option<OpenItems> {
    match event {
        EventView::Added(item) => match item {
            ItemView::Message { id: Some(id), .. } => if open.assistant is None && item
                == message_item(empty_draft(id)) {
                Some(OpenItems { assistant: Some(empty_draft(id)), ..open })
            } else {
                None
            },
            ItemView::Reasoning { id, .. } => if open.reasoning is None && item == reasoning_item(
                empty_draft(id),
            ) {
                Some(OpenItems { reasoning: Some(empty_draft(id)), ..open })
            } else {
                None
            },
            _ => None,
        },
        EventView::TextDelta(text) => match open.assistant {
            Some(draft) => Some(OpenItems { assistant: Some(grown(draft, text)), ..open }),
            None => None,
        },
        EventView::ReasoningDelta { delta, content_index } => match open.reasoning {
            Some(draft) => if content_index == draft.parts.len() as i64 {
                Some(OpenItems { reasoning: Some(grown(draft, delta)), ..open })
            } else {
                None
            },
            None => None,
        },
        EventView::Done(item) => match item {
            ItemView::Message { .. } => match open.assistant {
                Some(draft) => if item == message_item(draft) {
                    Some(OpenItems { assistant: None, ..open })
                } else {
                    None
                },
                None => None,
            },
            ItemView::Reasoning { .. } => match open.reasoning {
                Some(draft) => if item == reasoning_item(draft) {
                    Some(OpenItems { reasoning: None, ..open })
                } else {
                    None
                },
                None => None,
            },
            ItemView::FunctionCall { .. } => Some(open),
            _ => None,
        },
        EventView::Completed { .. } => if open.assistant is None && open.reasoning is None {
            Some(open)
        } else {
            None
        },
        EventView::StreamError(_) => Some(open),
        EventView::ContextWindowExceeded => Some(open),
    }
}

/// What a reader of events holds at their end, or nothing where they do not
/// fit together.
pub open spec fn read_events(events: Seq<EventView>) -> Option<OpenItems>
    decreases events.len(),
{
    if events.len() == 0 {
        Some(OpenItems { assistant: None, reasoning: None })
    } else {
        match read_events(events.drop_last()) {
            Some(open) => after_event_read(open, events.last()),
            None => None,
        }
    }
}

/// The events that end a stream.
pub open spec fn is_terminal(event: EventView) -> bool {
    event is Completed || event is StreamError || event is ContextWindowExceeded
}

/// The events that speak of reasoning.
pub open spec fn speaks_of_reasoning(event: EventView) -> bool {
    match event {
        EventView::ReasoningDelta { .. } => true,
        EventView::Added(item) => item is Reasoning,
        EventView::Done(item) => item is Reasoning,
        _ => false,
    }
}

/// The events that hand out a tool call.
pub open spec fn is_tool_call(event: EventView) -> bool {
    match event {
        EventView::Done(item) => item is FunctionCall,
        _ => false,
    }
}

/// Whether a poll brings a choice that finishes for the sake of tool calls.
pub open spec fn finishes_calls(poll: PollView) -> bool {
    match frame_of(poll) {
        Some(frame) => exists|i: int|
            0 <= i < choices_of(frame).len() && #[trigger] choices_of(frame)[i].text_field(
                "finish_reason"@,
            ) == Some("tool_calls"@),
        None => false,
    }
}

/// What holds of a decoder at all times, but for how it ends. `called` says
/// whether tool calls may have been handed out.
spec fn sound(stream: StreamView, called: bool) -> bool {
    &&& read_events(stream.out) == Some(open_items(stream))
    &&& stream.dialect == ChatDialect::Strict ==> {
        &&& stream.reasoning is None
        &&& forall|i: int|
            0 <= i < stream.out.len() ==> !speaks_of_reasoning(#[trigger] stream.out[i])
    }
    &&& !called ==> forall|i: int|
        0 <= i < stream.out.len() ==> !is_tool_call(#[trigger] stream.out[i])
}

/// What holds of a decoder that has not ended.
spec fn sound_and_open(stream: StreamView, called: bool) -> bool {
    &&& sound(stream, called)
    &&& !stream.ended
    &&& forall|i: int| 0 <= i < stream.out.len() ==> !is_terminal(#[trigger] stream.out[i])
}

/// What holds of a decoder that has ended.
spec fn sound_and_ended(stream: StreamView, called: bool) -> bool {
    &&& sound(stream, called)
    &&& stream.ended
    &&& stream.out.len() > 0
    &&& is_terminal(stream.out.last())
    &&& forall|i: int|
        0 <= i < stream.out.len() - 1 ==> !is_terminal(#[trigger] stream.out[i])
}

/// What holds of a decoder at all times.
spec fn always(stream: StreamView, called: bool) -> bool {
    sound_and_open(stream, called) || sound_and_ended(stream, called)
}

proof fn lemma_sent(before: StreamView, after: StreamView, event: EventView, called: bool)
    requires
        sound_and_open(before, called),
        after.out == before.out.push(event),
        after.dialect == before.dialect,
        after.ended == before.ended,
        after_event_read(open_items(before), event) == Some(open_items(after)),
        !is_terminal(event),
        before.dialect == ChatDialect::Strict ==> !speaks_of_reasoning(event) && after.reasoning
            is None,
        !called ==> !is_tool_call(event),
    ensures
        sound_and_open(after, called),
{
    assert(after.out.drop_last() =~= before.out);
}

proof fn lemma_ended(stream: StreamView, event: EventView, called: bool)
    requires
        sound_and_open(stream, called),
        is_terminal(event),
        event is Completed ==> stream.assistant is None && stream.reasoning is None,
    ensures
        sound_and_ended(stream.ended_with(event), called),
{
    let after = stream.ended_with(event);
    assert(after.out.drop_last() =~= stream.out);
}

proof fn lemma_assistant_text(stream: StreamView, text: Seq<char>, id: Seq<char>, called: bool)
    requires
        sound_and_open(stream, called),
    ensures
        sound_and_open(stream.with_assistant_text(text, id), called),
        stream.with_assistant_text(text, id).dialect == stream.dialect,
{
    let started = match stream.assistant {
        Some(_) => stream,
        None => {
            let event = EventView::Added(message_item(empty_draft(id)));
            let started = StreamView { assistant: Some(empty_draft(id)), ..stream }.sent(event);
            lemma_sent(stream, started, event, called);
            started
        },
    };
    lemma_sent(
        started,
        stream.with_assistant_text(text, id),
        EventView::TextDelta(text),
        called,
    );
}

proof fn lemma_assistant_texts(
    stream: StreamView,
    texts: Seq<Seq<char>>,
    id: Seq<char>,
    called: bool,
)
    requires
        sound_and_open(stream, called),
    ensures
        sound_and_open(stream.with_assistant_texts(texts, id), called),
        stream.with_assistant_texts(texts, id).dialect == stream.dialect,
    decreases texts.len(),
{
    if texts.len() > 0 {
        lemma_assistant_texts(stream, texts.drop_last(), id, called);
        lemma_assistant_text(
            stream.with_assistant_texts(texts.drop_last(), id),
            texts.last(),
            id,
            called,
        );
    }
}

proof fn lemma_reasoning_in(stream: StreamView, value: JsonView, id: Seq<char>, called: bool)
    requires
        sound_and_open(stream, called),
    ensures
        sound_and_open(stream.with_reasoning_in(value, id), called),
        stream.with_reasoning_in(value, id).dialect == stream.dialect,
{
    if let Some(text) = crate::stream::reasoning_in(stream.dialect, value) {
        let started = match stream.reasoning {
            Some(_) => stream,
            None => {
                let event = EventView::Added(reasoning_item(empty_draft(id)));
                let started = StreamView { reasoning: Some(empty_draft(id)), ..stream }.sent(event);
                lemma_sent(stream, started, event, called);
                started
            },
        };
        let draft = started.reasoning->0;
        lemma_sent(
            started,
            stream.with_reasoning_text(text, id),
            EventView::ReasoningDelta { delta: text, content_index: draft.parts.len() as i64 },
            called,
        );
    }
}

proof fn lemma_reasoning_done(stream: StreamView, called: bool)
    requires
        sound_and_open(stream, called),
    ensures
        sound_and_open(stream.reasoning_done(), called),
        stream.reasoning_done().reasoning is None,
{
    if let Some(draft) = stream.reasoning {
        lemma_sent(
            stream,
            stream.reasoning_done(),
            EventView::Done(reasoning_item(draft)),
            called,
        );
    }
}

proof fn lemma_assistant_done(stream: StreamView, called: bool)
    requires
        sound_and_open(stream, called),
    ensures
        sound_and_open(stream.assistant_done(), called),
        stream.assistant_done().assistant is None,
{
    if let Some(draft) = stream.assistant {
        lemma_sent(stream, stream.assistant_done(), EventView::Done(message_item(draft)), called);
    }
}

proof fn lemma_finished_calls_are_calls(pending: Seq<CallView>)
    ensures
        forall|i: int|
            0 <= i < finished_calls(pending).len() ==> (#[trigger] finished_calls(
                pending,
            )[i]) is FunctionCall,
    decreases pending.len(),
{
    if pending.len() > 0 {
        lemma_finished_calls_are_calls(pending.drop_last());
        let shorter = finished_calls(pending.drop_last());
        assert forall|i: int| 0 <= i < finished_calls(pending).len() implies (
        #[trigger] finished_calls(pending)[i]) is FunctionCall by {
            if i < shorter.len() {
                assert(shorter[i] is FunctionCall);
            }
        }
    }
}

proof fn lemma_calls_sent(before: StreamView, items: Seq<ItemView>)
    requires
        sound_and_open(before, true),
        forall|i: int| 0 <= i < items.len() ==> (#[trigger] items[i]) is FunctionCall,
    ensures
        sound_and_open(
            (StreamView { out: before.out + done_events(items), ..before }),
            true,
        ),
    decreases items.len(),
{
    let after = StreamView { out: before.out + done_events(items), ..before };
    if items.len() == 0 {
        assert(after.out =~= before.out);
    } else {
        let shorter = items.drop_last();
        let step = StreamView { out: before.out + done_events(shorter), ..before };
        lemma_calls_sent(before, shorter);
        assert(items.last() is FunctionCall);
        assert(after.out =~= step.out.push(EventView::Done(items.last())));
        lemma_sent(step, after, EventView::Done(items.last()), true);
    }
}

proof fn lemma_choice(stream: StreamView, choice: JsonView, ids: ItemIds, called: bool)
    requires
        sound_and_open(stream, called),
        !called ==> choice.text_field("finish_reason"@) != Some("tool_calls"@),
    ensures
        always(stream.after_choice(choice, ids), called),
        stream.after_choice(choice, ids).dialect == stream.dialect,
{
    let changed = match choice.field("delta"@) {
        Some(delta) => {
            lemma_reasoning_in(stream, delta, ids.reasoning, called);
            let reasoned = stream.with_reasoning_in(delta, ids.reasoning);
            if let Some(content) = delta.field("content"@) {
                lemma_assistant_texts(reasoned, content_texts(content), ids.assistant, called);
            }
            stream.after_delta(delta, ids)
        },
        None => stream,
    };
    assert(sound_and_open(changed, called));
    if let Some(message) = choice.field("message"@) {
        lemma_reasoning_in(changed, message, ids.reasoning, called);
    }
    let carried = stream.with_choice(choice, ids);
    assert(sound_and_open(carried, called));
    let reason = choice.text_field("finish_reason"@);
    if reason == Some("stop"@) {
        lemma_reasoning_done(carried, called);
        lemma_assistant_done(carried.reasoning_done(), called);
    } else if reason == Some("length"@) {
        lemma_ended(carried, EventView::ContextWindowExceeded, called);
    } else if reason == Some("tool_calls"@) {
        lemma_reasoning_done(carried, called);
        lemma_finished_calls_are_calls(carried.calls.pending);
        lemma_calls_sent(carried.reasoning_done(), finished_calls(carried.calls.pending));
    }
}

proof fn lemma_choices(
    stream: StreamView,
    choices: Seq<JsonView>,
    ids: Seq<ItemIds>,
    n: nat,
    called: bool,
)
    requires
        sound_and_open(stream, called),
        n <= choices.len(),
        !called ==> forall|i: int|
            0 <= i < choices.len() ==> #[trigger] choices[i].text_field("finish_reason"@) != Some(
                "tool_calls"@,
            ),
    ensures
        always(stream.after_choices(choices, ids, n), called),
        stream.after_choices(choices, ids, n).dialect == stream.dialect,
    decreases n,
{
    if n > 0 {
        lemma_choices(stream, choices, ids, (n - 1) as nat, called);
        let before = stream.after_choices(choices, ids, (n - 1) as nat);
        if !before.ended {
            lemma_choice(before, choices[n - 1], ids[n - 1], called);
        }
    }
}

proof fn lemma_completed(stream: StreamView, called: bool)
    requires
        sound_and_open(stream, called),
    ensures
        sound_and_ended(stream.completed(), called),
{
    lemma_reasoning_done(stream, called);
    lemma_assistant_done(stream.reasoning_done(), called);
    lemma_ended(
        stream.reasoning_done().assistant_done(),
        EventView::Completed {
            response_id: Seq::empty(),
            token_usage: stream.usage,
            end_turn: None,
        },
        called,
    );
}

proof fn lemma_poll(stream: StreamView, poll: PollView, ids: Seq<ItemIds>, called: bool)
    requires
        always(stream, called),
        !called ==> !finishes_calls(poll),
    ensures
        always(stream.after_poll(poll, ids), called),
        stream.after_poll(poll, ids).dialect == stream.dialect,
{
    if !stream.ended {
        match poll {
            PollView::Event(data) => {
                if crate::stream::is_done(crate::text::trimmed(data)) {
                    lemma_completed(stream, called);
                } else if let Some(frame) = frame_of(poll) {
                    lemma_choices(
                        stream.with_usage_in(frame),
                        choices_of(frame),
                        ids,
                        choices_of(frame).len(),
                        called,
                    );
                }
            },
            PollView::Failed(message) => {
                lemma_ended(stream, EventView::StreamError(message), called);
            },
            PollView::Ended => {
                lemma_completed(stream, called);
            },
            PollView::TimedOut => {
                lemma_ended(
                    stream,
                    EventView::StreamError("idle timeout waiting for SSE"@),
                    called,
                );
            },
        }
    }
}

proof fn lemma_polls(
    dialect: ChatDialect,
    polls: Seq<PollView>,
    ids: Seq<Seq<ItemIds>>,
    called: bool,
)
    requires
        ids.len() == polls.len(),
        !called ==> forall|i: int| 0 <= i < polls.len() ==> !finishes_calls(#[trigger] polls[i]),
    ensures
        always(new_stream(dialect).after_polls(polls, ids), called),
        new_stream(dialect).after_polls(polls, ids).dialect == dialect,
    decreases polls.len(),
{
    if polls.len() > 0 {
        lemma_polls(dialect, polls.drop_last(), ids.drop_last(), called);
        assert(polls.last() == polls[polls.len() - 1]);
        lemma_poll(
            new_stream(dialect).after_polls(polls.drop_last(), ids.drop_last()),
            polls.last(),
            ids.last(),
            called,
        );
    }
}

/// The events of a stream fit together: each item that is given out as done was
/// announced under the same id and holds exactly what its deltas brought, and
/// what a reader of the events holds open is what the decoder has under way.
pub proof fn law_events_fit_together(
    dialect: ChatDialect,
    polls: Seq<PollView>,
    ids: Seq<Seq<ItemIds>>,
)
    requires
        ids.len() == polls.len(),
    ensures
        read_events(new_stream(dialect).after_polls(polls, ids).out) == Some(
            open_items(new_stream(dialect).after_polls(polls, ids)),
        ),
{
    lemma_polls(dialect, polls, ids, true);
}

/// A stream has one event that ends it, and that is its last: none before the
/// end, and none after it.
pub proof fn law_one_event_ends_a_stream(
    dialect: ChatDialect,
    polls: Seq<PollView>,
    ids: Seq<Seq<ItemIds>>,
)
    requires
        ids.len() == polls.len(),
    ensures
        ({
            let stream = new_stream(dialect).after_polls(polls, ids);
            &&& stream.ended <==> stream.out.len() > 0 && is_terminal(stream.out.last())
            &&& forall|i: int|
                0 <= i < stream.out.len() - 1 ==> !is_terminal(#[trigger] stream.out[i])
        }),
{
    lemma_polls(dialect, polls, ids, true);
}

/// In the strict dialect no event speaks of reasoning.
pub proof fn law_strict_streams_have_no_reasoning(
    polls: Seq<PollView>,
    ids: Seq<Seq<ItemIds>>,
    i: int,
)
    requires
        ids.len() == polls.len(),
        0 <= i < new_stream(ChatDialect::Strict).after_polls(polls, ids).out.len(),
    ensures
        !speaks_of_reasoning(new_stream(ChatDialect::Strict).after_polls(polls, ids).out[i]),
{
    lemma_polls(ChatDialect::Strict, polls, ids, true);
}

/// Tool calls are handed out only where a choice finishes for their sake: where
/// none does, partial calls are dropped.
pub proof fn law_unfinished_calls_are_dropped(
    dialect: ChatDialect,
    polls: Seq<PollView>,
    ids: Seq<Seq<ItemIds>>,
    i: int,
)
    requires
        ids.len() == polls.len(),
        forall|k: int| 0 <= k < polls.len() ==> !finishes_calls(#[trigger] polls[k]),
        0 <= i < new_stream(dialect).after_polls(polls, ids).out.len(),
    ensures
        !is_tool_call(new_stream(dialect).after_polls(polls, ids).out[i]),
{
    lemma_polls(dialect, polls, ids, false);
}

/// A stream that has ended stays as it is, whatever comes after.
pub proof fn law_nothing_follows_the_end(
    stream: StreamView,
    polls: Seq<PollView>,
    ids: Seq<Seq<ItemIds>>,
)
    requires
        stream.ended,
        ids.len() == polls.len(),
    ensures
        stream.after_polls(polls, ids) == stream,
    decreases polls.len(),
{
    if polls.len() > 0 {
        law_nothing_follows_the_end(stream, polls.drop_last(), ids.drop_last());
    }
}

/// The usage that a poll reports.
pub open spec fn usage_in(poll: PollView) -> Option<TokenUsage> {
    match frame_of(poll) {
        Some(frame) => reported_usage(frame.field("usage"@)),
        None => None,
    }
}

/// The last usage that polls report.
pub open spec fn last_usage(polls: Seq<PollView>) -> Option<TokenUsage>
    decreases polls.len(),
{
    if polls.len() == 0 {
        None
    } else {
        match usage_in(polls.last()) {
            Some(usage) => Some(usage),
            None => last_usage(polls.drop_last()),
        }
    }
}

proof fn lemma_texts_keep_usage(stream: StreamView, texts: Seq<Seq<char>>, id: Seq<char>)
    ensures
        stream.with_assistant_texts(texts, id).usage == stream.usage,
    decreases texts.len(),
{
    if texts.len() > 0 {
        lemma_texts_keep_usage(stream, texts.drop_last(), id);
    }
}

proof fn lemma_choices_keep_usage(
    stream: StreamView,
    choices: Seq<JsonView>,
    ids: Seq<ItemIds>,
    n: nat,
)
    ensures
        stream.after_choices(choices, ids, n).usage == stream.usage,
    decreases n,
{
    if n > 0 {
        lemma_choices_keep_usage(stream, choices, ids, (n - 1) as nat);
        let before = stream.after_choices(choices, ids, (n - 1) as nat);
        if !before.ended {
            if let Some(delta) = choices[n - 1].field("delta"@) {
                let reasoned = before.with_reasoning_in(delta, ids[n - 1].reasoning);
                if let Some(content) = delta.field("content"@) {
                    lemma_texts_keep_usage(
                        reasoned,
                        content_texts(content),
                        ids[n - 1].assistant,
                    );
                }
            }
        }
    }
}

/// As long as a stream has not ended, it holds the last usage that was
/// reported.
pub proof fn law_last_usage_is_held(
    dialect: ChatDialect,
    polls: Seq<PollView>,
    ids: Seq<Seq<ItemIds>>,
)
    requires
        ids.len() == polls.len(),
        !new_stream(dialect).after_polls(polls, ids).ended,
    ensures
        new_stream(dialect).after_polls(polls, ids).usage == last_usage(polls),
    decreases polls.len(),
{
    if polls.len() > 0 {
        let before = new_stream(dialect).after_polls(polls.drop_last(), ids.drop_last());
        law_last_usage_is_held(dialect, polls.drop_last(), ids.drop_last());
        if let Some(frame) = frame_of(polls.last()) {
            lemma_choices_keep_usage(
                before.with_usage_in(frame),
                choices_of(frame),
                ids.last(),
                choices_of(frame).len(),
            );
        }
    }
}

/// A response that completes carries the last usage that was reported, or none
/// where none was.
pub proof fn law_completion_carries_the_last_usage(
    dialect: ChatDialect,
    polls: Seq<PollView>,
    ids: Seq<Seq<ItemIds>>,
)
    requires
        ids.len() == polls.len(),
        polls.len() > 0,
        !new_stream(dialect).after_polls(polls.drop_last(), ids.drop_last()).ended,
        polls.last() is Ended || (polls.last() matches PollView::Event(data)
            && crate::stream::is_done(crate::text::trimmed(data))),
    ensures
        new_stream(dialect).after_polls(polls, ids).out.last() == (EventView::Completed {
            response_id: Seq::empty(),
            token_usage: last_usage(polls.drop_last()),
            end_turn: None,
        }),
{
    law_last_usage_is_held(dialect, polls.drop_last(), ids.drop_last());
}

/// The texts that events hand out, in order.
pub open spec fn texts_in(events: Seq<EventView>) -> Seq<Seq<char>>
    decreases events.len(),
{
    if events.len() == 0 {
        Seq::empty()
    } else {
        let texts = texts_in(events.drop_last());
        match events.last() {
            EventView::TextDelta(text) => texts.push(text),
            _ => texts,
        }
    }
}

/// The texts of content parts: of each part that is an object with a string under
/// `text`, that string.
pub open spec fn texts_of_parts(parts: Seq<JsonView>) -> Seq<Seq<char>>
    decreases parts.len(),
{
    if parts.len() == 0 {
        Seq::empty()
    } else {
        let before = texts_of_parts(parts.drop_last());
        match parts.last() {
            JsonView::Object(part) => if part.contains_key("text"@) && part["text"@] is Str {
                before.push(part["text"@]->Str_0)
            } else {
                before
            },
            _ => before,
        }
    }
}

/// The texts that a choice carries under `delta.content`: a string as it stands,
/// whatever it is made of, or the texts of a list of parts.
pub open spec fn choice_texts(choice: JsonView) -> Seq<Seq<char>> {
    match choice {
        JsonView::Object(fields) => if fields.contains_key("delta"@) {
            match fields["delta"@] {
                JsonView::Object(delta) => if delta.contains_key("content"@) {
                    match delta["content"@] {
                        JsonView::Str(text) => seq![text],
                        JsonView::Array(parts) => texts_of_parts(parts),
                        _ => Seq::empty(),
                    }
                } else {
                    Seq::empty()
                },
                _ => Seq::empty(),
            }
        } else {
            Seq::empty()
        },
        _ => Seq::empty(),
    }
}

proof fn lemma_texts_of_parts(parts: Seq<JsonView>)
    ensures
        crate::stream::part_texts(parts) == texts_of_parts(parts),
    decreases parts.len(),
{
    if parts.len() > 0 {
        lemma_texts_of_parts(parts.drop_last());
    }
}

pub proof fn lemma_content_texts(choice: JsonView)
    ensures
        choice_texts(choice) == match choice.field("delta"@) {
            Some(delta) => match delta.field("content"@) {
                Some(content) => content_texts(content),
                None => Seq::empty(),
            },
            None => Seq::empty(),
        },
{
    if let Some(delta) = choice.field("delta"@) {
        if let Some(JsonView::Array(parts)) = delta.field("content"@) {
            lemma_texts_of_parts(parts);
        }
    }
}

proof fn lemma_texts_after_sent(events: Seq<EventView>, event: EventView)
    ensures
        texts_in(events.push(event)) == match event {
            EventView::TextDelta(text) => texts_in(events).push(text),
            _ => texts_in(events),
        },
{
    assert(events.push(event).drop_last() =~= events);
}

proof fn lemma_texts_after_texts(stream: StreamView, texts: Seq<Seq<char>>, id: Seq<char>)
    ensures
        texts_in(stream.with_assistant_texts(texts, id).out) == texts_in(stream.out) + texts,
    decreases texts.len(),
{
    if texts.len() == 0 {
        assert(texts_in(stream.out) + texts =~= texts_in(stream.out));
    } else {
        lemma_texts_after_texts(stream, texts.drop_last(), id);
        let before = stream.with_assistant_texts(texts.drop_last(), id);
        let text = texts.last();
        if before.assistant is None {
            lemma_texts_after_sent(before.out, EventView::Added(message_item(empty_draft(id))));
            lemma_texts_after_sent(
                before.out.push(EventView::Added(message_item(empty_draft(id)))),
                EventView::TextDelta(text),
            );
        } else {
            lemma_texts_after_sent(before.out, EventView::TextDelta(text));
        }
        assert((texts_in(stream.out) + texts.drop_last()).push(text) =~= texts_in(stream.out)
            + texts);
    }
}

proof fn lemma_texts_after_reasoning(stream: StreamView, value: JsonView, id: Seq<char>)
    ensures
        texts_in(stream.with_reasoning_in(value, id).out) == texts_in(stream.out),
{
    if let Some(text) = crate::stream::reasoning_in(stream.dialect, value) {
        let added = EventView::Added(reasoning_item(empty_draft(id)));
        let started = match stream.reasoning {
            Some(_) => stream,
            None => StreamView { reasoning: Some(empty_draft(id)), ..stream }.sent(added),
        };
        lemma_texts_after_sent(stream.out, added);
        lemma_texts_after_sent(
            started.out,
            EventView::ReasoningDelta {
                delta: text,
                content_index: started.reasoning->0.parts.len() as i64,
            },
        );
    }
}

proof fn lemma_texts_after_calls(events: Seq<EventView>, items: Seq<ItemView>)
    ensures
        texts_in(events + done_events(items)) == texts_in(events),
    decreases items.len(),
{
    if items.len() == 0 {
        assert(events + done_events(items) =~= events);
    } else {
        lemma_texts_after_calls(events, items.drop_last());
        assert(events + done_events(items) =~= (events + done_events(items.drop_last())).push(
            EventView::Done(items.last()),
        ));
        lemma_texts_after_sent(
            events + done_events(items.drop_last()),
            EventView::Done(items.last()),
        );
    }
}

/// A choice hands out the texts that it carries as deltas, all of them, once
/// and in order.
pub proof fn law_texts_are_handed_out_in_order(stream: StreamView, choice: JsonView, ids: ItemIds)
    ensures
        texts_in(stream.after_choice(choice, ids).out) == texts_in(stream.out) + choice_texts(
            choice,
        ),
{
    lemma_content_texts(choice);
    let changed = match choice.field("delta"@) {
        Some(delta) => {
            lemma_texts_after_reasoning(stream, delta, ids.reasoning);
            let reasoned = stream.with_reasoning_in(delta, ids.reasoning);
            match delta.field("content"@) {
                Some(content) => {
                    lemma_texts_after_texts(reasoned, content_texts(content), ids.assistant);
                },
                None => {
                    assert(texts_in(stream.out) + choice_texts(choice) =~= texts_in(stream.out));
                },
            }
            stream.after_delta(delta, ids)
        },
        None => {
            assert(texts_in(stream.out) + choice_texts(choice) =~= texts_in(stream.out));
            stream
        },
    };
    if let Some(message) = choice.field("message"@) {
        lemma_texts_after_reasoning(changed, message, ids.reasoning);
    }
    let carried = stream.with_choice(choice, ids);
    let flushed = carried.reasoning_done();
    if let Some(draft) = carried.reasoning {
        lemma_texts_after_sent(carried.out, EventView::Done(reasoning_item(draft)));
    }
    if let Some(draft) = flushed.assistant {
        lemma_texts_after_sent(flushed.out, EventView::Done(message_item(draft)));
    }
    lemma_texts_after_sent(carried.out, EventView::ContextWindowExceeded);
    lemma_texts_after_calls(flushed.out, finished_calls(flushed.calls.pending));
}

/// The pieces of reasoning that events hand out, in order.
pub open spec fn reasoning_deltas_in(events: Seq<EventView>) -> Seq<Seq<char>>
    decreases events.len(),
{
    if events.len() == 0 {
        Seq::empty()
    } else {
        let texts = reasoning_deltas_in(events.drop_last());
        match events.last() {
            EventView::ReasoningDelta { delta, .. } => texts.push(delta),
            _ => texts,
        }
    }
}

/// The text under `reasoning_content` in a part of a choice, as a list: empty
/// where there is no such part, or no text in it.
pub open spec fn reasoning_text_of(part: Option<JsonView>) -> Seq<Seq<char>> {
    match part {
        Some(JsonView::Object(fields)) => if fields.contains_key("reasoning_content"@)
            && fields["reasoning_content"@] is Str {
            seq![fields["reasoning_content"@]->Str_0]
        } else {
            Seq::empty()
        },
        _ => Seq::empty(),
    }
}

/// What an object binds `key` to, where the value is one that does.
pub open spec fn bound_to(value: JsonView, key: Seq<char>) -> Option<JsonView> {
    match value {
        JsonView::Object(fields) => if fields.contains_key(key) {
            Some(fields[key])
        } else {
            None
        },
        _ => None,
    }
}

/// The pieces of reasoning that a choice carries in a dialect: in the thinking
/// one that of its delta and then that of its message, in the strict one none.
pub open spec fn choice_reasoning(dialect: ChatDialect, choice: JsonView) -> Seq<Seq<char>> {
    match dialect {
        ChatDialect::Strict => Seq::empty(),
        ChatDialect::ThinkingReasoningContent => reasoning_text_of(bound_to(choice, "delta"@))
            + reasoning_text_of(bound_to(choice, "message"@)),
    }
}

proof fn lemma_deltas_after_sent(events: Seq<EventView>, event: EventView)
    ensures
        reasoning_deltas_in(events.push(event)) == match event {
            EventView::ReasoningDelta { delta, .. } => reasoning_deltas_in(events).push(delta),
            _ => reasoning_deltas_in(events),
        },
{
    assert(events.push(event).drop_last() =~= events);
}

proof fn lemma_deltas_after_reasoning(stream: StreamView, value: JsonView, id: Seq<char>)
    ensures
        reasoning_deltas_in(stream.with_reasoning_in(value, id).out) == reasoning_deltas_in(
            stream.out,
        ) + match stream.dialect {
            ChatDialect::Strict => Seq::empty(),
            ChatDialect::ThinkingReasoningContent => reasoning_text_of(Some(value)),
        },
{
    let before = reasoning_deltas_in(stream.out);
    assert(before + Seq::<Seq<char>>::empty() =~= before);
    if let Some(text) = crate::stream::reasoning_in(stream.dialect, value) {
        let added = EventView::Added(reasoning_item(empty_draft(id)));
        let started = match stream.reasoning {
            Some(_) => stream,
            None => StreamView { reasoning: Some(empty_draft(id)), ..stream }.sent(added),
        };
        lemma_deltas_after_sent(stream.out, added);
        lemma_deltas_after_sent(
            started.out,
            EventView::ReasoningDelta {
                delta: text,
                content_index: started.reasoning->0.parts.len() as i64,
            },
        );
        assert(before.push(text) =~= before + seq![text]);
    }
}

proof fn lemma_deltas_after_texts(stream: StreamView, texts: Seq<Seq<char>>, id: Seq<char>)
    ensures
        reasoning_deltas_in(stream.with_assistant_texts(texts, id).out) == reasoning_deltas_in(
            stream.out,
        ),
        stream.with_assistant_texts(texts, id).dialect == stream.dialect,
    decreases texts.len(),
{
    if texts.len() > 0 {
        lemma_deltas_after_texts(stream, texts.drop_last(), id);
        let before = stream.with_assistant_texts(texts.drop_last(), id);
        let added = EventView::Added(message_item(empty_draft(id)));
        lemma_deltas_after_sent(before.out, added);
        lemma_deltas_after_sent(before.out.push(added), EventView::TextDelta(texts.last()));
        lemma_deltas_after_sent(before.out, EventView::TextDelta(texts.last()));
    }
}

proof fn lemma_deltas_after_calls(events: Seq<EventView>, items: Seq<ItemView>)
    ensures
        reasoning_deltas_in(events + done_events(items)) == reasoning_deltas_in(events),
    decreases items.len(),
{
    if items.len() == 0 {
        assert(events + done_events(items) =~= events);
    } else {
        let shorter = events + done_events(items.drop_last());
        lemma_deltas_after_calls(events, items.drop_last());
        assert(events + done_events(items) =~= shorter.push(EventView::Done(items.last())));
        lemma_deltas_after_sent(shorter, EventView::Done(items.last()));
    }
}

/// A choice hands out the reasoning that it carries as deltas: in the thinking
/// dialect all of it, verbatim, that of its delta before that of its message, in
/// the strict dialect none.
pub proof fn law_reasoning_is_handed_out_in_order(
    stream: StreamView,
    choice: JsonView,
    ids: ItemIds,
)
    ensures
        reasoning_deltas_in(stream.after_choice(choice, ids).out) == reasoning_deltas_in(stream.out)
            + choice_reasoning(stream.dialect, choice),
{
    let before = reasoning_deltas_in(stream.out);
    let of_delta = match stream.dialect {
        ChatDialect::Strict => Seq::empty(),
        ChatDialect::ThinkingReasoningContent => reasoning_text_of(choice.field("delta"@)),
    };
    let changed = match choice.field("delta"@) {
        Some(delta) => {
            lemma_deltas_after_reasoning(stream, delta, ids.reasoning);
            let reasoned = stream.with_reasoning_in(delta, ids.reasoning);
            if let Some(content) = delta.field("content"@) {
                lemma_deltas_after_texts(reasoned, content_texts(content), ids.assistant);
            }
            stream.after_delta(delta, ids)
        },
        None => {
            assert(before + Seq::<Seq<char>>::empty() =~= before);
            stream
        },
    };
    assert(reasoning_deltas_in(changed.out) == before + of_delta);
    assert(changed.dialect == stream.dialect);
    let carried = stream.with_choice(choice, ids);
    match choice.field("message"@) {
        Some(message) => {
            lemma_deltas_after_reasoning(changed, message, ids.reasoning);
        },
        None => {},
    }
    assert(reasoning_deltas_in(carried.out) =~= before + choice_reasoning(stream.dialect, choice));
    let flushed = carried.reasoning_done();
    if let Some(draft) = carried.reasoning {
        lemma_deltas_after_sent(carried.out, EventView::Done(reasoning_item(draft)));
    }
    if let Some(draft) = flushed.assistant {
        lemma_deltas_after_sent(flushed.out, EventView::Done(message_item(draft)));
    }
    lemma_deltas_after_sent(carried.out, EventView::ContextWindowExceeded);
    lemma_deltas_after_calls(flushed.out, finished_calls(flushed.calls.pending));
}

} // verus!
