//! What each step of a chat stream does, said of the JSON that comes and of the
//! events that go out.

use vstd::prelude::*;

use crate::json::{parsed_text, JsonView};
use crate::protocol::{ChatDialect, ContentView, EventView, ItemView, ReasoningView};
use crate::stream::{
    choices_of, content_texts, empty_draft, frame_of, grown, message_item, new_stream,
    reasoning_item, DraftView, ItemIds, PollView, StreamView,
};
use crate::stream_laws::{
    bound_to, choice_reasoning, choice_texts, law_texts_are_handed_out_in_order,
    reasoning_deltas_in, reasoning_text_of, speaks_of_reasoning, texts_in,
};
use crate::text::trimmed;
use crate::tool_calls::finished_calls;
use crate::usage::reported_usage;

verus! {

/// A string that comes as `delta.content` goes out as one text delta, as it
/// stands, whatever it is made of.
pub proof fn law_string_content_is_one_delta(
    stream: StreamView,
    choice: Map<Seq<char>, JsonView>,
    delta: Map<Seq<char>, JsonView>,
    text: Seq<char>,
    ids: ItemIds,
)
    requires
        choice.contains_key("delta"@),
        choice["delta"@] == JsonView::Object(delta),
        delta.contains_key("content"@),
        delta["content"@] == JsonView::Str(text),
    ensures
        texts_in(stream.after_choice(JsonView::Object(choice), ids).out) == texts_in(
            stream.out,
        ).push(text),
{
    law_texts_are_handed_out_in_order(stream, JsonView::Object(choice), ids);
    assert(texts_in(stream.out) + seq![text] =~= texts_in(stream.out).push(text));
}

/// The choice whose delta has the given content.
pub open spec fn choice_with_content(
    choice: Map<Seq<char>, JsonView>,
    delta: Map<Seq<char>, JsonView>,
    content: JsonView,
) -> JsonView {
    JsonView::Object(choice.insert("delta"@, JsonView::Object(delta.insert("content"@, content))))
}

/// A list of parts that comes as `delta.content` goes out part by part: one part
/// more is one text delta more where it is an object with a string under `text`,
/// and none where it is not. No parts, and content of any other kind, are none.
pub proof fn law_listed_content_goes_out_part_by_part(
    stream: StreamView,
    choice: Map<Seq<char>, JsonView>,
    delta: Map<Seq<char>, JsonView>,
    parts: Seq<JsonView>,
    part: JsonView,
    other: JsonView,
    ids: ItemIds,
)
    ensures
        ({
            let shorter = stream.after_choice(
                choice_with_content(choice, delta, JsonView::Array(parts)),
                ids,
            ).out;
            let longer = stream.after_choice(
                choice_with_content(choice, delta, JsonView::Array(parts.push(part))),
                ids,
            ).out;
            match part {
                JsonView::Object(fields) => if fields.contains_key("text"@) && fields["text"@]
                    is Str {
                    texts_in(longer) == texts_in(shorter).push(fields["text"@]->Str_0)
                } else {
                    texts_in(longer) == texts_in(shorter)
                },
                _ => texts_in(longer) == texts_in(shorter),
            }
        }),
        texts_in(
            stream.after_choice(
                choice_with_content(choice, delta, JsonView::Array(Seq::empty())),
                ids,
            ).out,
        ) == texts_in(stream.out),
        !(other is Str) && !(other is Array) ==> texts_in(
            stream.after_choice(choice_with_content(choice, delta, other), ids).out,
        ) == texts_in(stream.out),
{
    let short = choice_with_content(choice, delta, JsonView::Array(parts));
    let long = choice_with_content(choice, delta, JsonView::Array(parts.push(part)));
    let none = choice_with_content(choice, delta, JsonView::Array(Seq::empty()));
    let odd = choice_with_content(choice, delta, other);
    law_texts_are_handed_out_in_order(stream, short, ids);
    law_texts_are_handed_out_in_order(stream, long, ids);
    law_texts_are_handed_out_in_order(stream, none, ids);
    law_texts_are_handed_out_in_order(stream, odd, ids);
    assert(parts.push(part).drop_last() =~= parts);
    let before = texts_in(stream.out);
    assert(before + Seq::<Seq<char>>::empty() =~= before);
    if let JsonView::Object(fields) = part {
        if fields.contains_key("text"@) && fields["text"@] is Str {
            let text = fields["text"@]->Str_0;
            assert(choice_texts(long) == choice_texts(short).push(text));
            assert(before + choice_texts(short).push(text) =~= (before + choice_texts(short)).push(
                text,
            ));
        }
    }
}

/// Reasoning that comes in a thinking stream goes out as one delta for each text
/// under `reasoning_content`, that of the delta before that of the message, and
/// every one as it stands.
pub proof fn law_reasoning_texts_are_one_delta_each(
    stream: StreamView,
    choice: Map<Seq<char>, JsonView>,
    delta: Map<Seq<char>, JsonView>,
    message: Map<Seq<char>, JsonView>,
    first: Seq<char>,
    second: Seq<char>,
    ids: ItemIds,
)
    requires
        stream.dialect == ChatDialect::ThinkingReasoningContent,
        choice.contains_key("delta"@),
        choice["delta"@] == JsonView::Object(delta),
        delta.contains_key("reasoning_content"@),
        delta["reasoning_content"@] == JsonView::Str(first),
    ensures
        choice.contains_key("message"@) && choice["message"@] == JsonView::Object(message)
            && message.contains_key("reasoning_content"@) && message["reasoning_content"@]
            == JsonView::Str(second) ==> reasoning_deltas_in(
            stream.after_choice(JsonView::Object(choice), ids).out,
        ) == reasoning_deltas_in(stream.out).push(first).push(second),
        !choice.contains_key("message"@) ==> reasoning_deltas_in(
            stream.after_choice(JsonView::Object(choice), ids).out,
        ) == reasoning_deltas_in(stream.out).push(first),
{
    crate::stream_laws::law_reasoning_is_handed_out_in_order(stream, JsonView::Object(choice), ids);
    let before = reasoning_deltas_in(stream.out);
    assert(before + (seq![first] + seq![second]) =~= before.push(first).push(second));
    assert(before + (seq![first] + Seq::<Seq<char>>::empty()) =~= before.push(first));
}

/// An item that grows is handed out as done under its id, with each of its parts
/// in its place: a message as the assistant's output, reasoning without a summary
/// and in the clear. It starts with no part, and grows by one part at its end.
pub proof fn law_items_hold_all_of_their_parts(draft: DraftView, id: Seq<char>, part: Seq<char>)
    ensures
        message_item(draft) matches ItemView::Message { id: given, role, content } && {
            &&& given == Some(draft.id)
            &&& role == "assistant"@
            &&& content.len() == draft.parts.len()
            &&& forall|i: int|
                0 <= i < content.len() ==> #[trigger] content[i] == ContentView::OutputText(
                    draft.parts[i],
                )
        },
        reasoning_item(draft) matches ItemView::Reasoning {
            id: given,
            summary,
            content: Some(content),
            encrypted_content: None,
        } && {
            &&& given == draft.id
            &&& summary.len() == 0
            &&& content.len() == draft.parts.len()
            &&& forall|i: int|
                0 <= i < content.len() ==> #[trigger] content[i] == ReasoningView::ReasoningText(
                    draft.parts[i],
                )
        },
        empty_draft(id).id == id,
        empty_draft(id).parts.len() == 0,
        grown(draft, part).id == draft.id,
        grown(draft, part).parts == draft.parts.push(part),
{
}

proof fn lemma_draft_after_texts(stream: StreamView, texts: Seq<Seq<char>>, id: Seq<char>)
    ensures
        ({
            let after = stream.with_assistant_texts(texts, id);
            &&& after.dialect == stream.dialect
            &&& after.calls == stream.calls
            &&& after.reasoning == stream.reasoning
            &&& after.usage == stream.usage
            &&& after.ended == stream.ended
            &&& texts.len() == 0 ==> after.assistant == stream.assistant
            &&& texts.len() > 0 ==> after.assistant is Some
            &&& texts.len() > 0 && stream.assistant is Some ==> {
                &&& after.assistant->0.id == stream.assistant->0.id
                &&& after.assistant->0.parts == stream.assistant->0.parts + texts
            }
            &&& texts.len() > 0 && stream.assistant is None ==> {
                &&& after.assistant->0.id == id
                &&& after.assistant->0.parts == texts
            }
        }),
    decreases texts.len(),
{
    if texts.len() > 0 {
        lemma_draft_after_texts(stream, texts.drop_last(), id);
        let before = stream.with_assistant_texts(texts.drop_last(), id);
        let after = stream.with_assistant_texts(texts, id);
        if stream.assistant is Some {
            let parts = stream.assistant->0.parts;
            assert(parts + Seq::<Seq<char>>::empty() =~= parts);
            assert(after.assistant->0.parts =~= parts + texts) by {
                if texts.len() == 1 {
                    assert(texts.drop_last() =~= Seq::empty());
                }
                assert((parts + texts.drop_last()).push(texts.last()) =~= parts + texts);
            }
        } else {
            if texts.len() == 1 {
                assert(texts.drop_last() =~= Seq::empty());
                assert(after.assistant->0.parts =~= texts);
            }
            assert(texts.drop_last().push(texts.last()) =~= texts);
        }
    }
}

/// What has grown once texts have come to it: all of them behind what was there,
/// under the id that it had or, where nothing was there, under the one given.
pub open spec fn has_grown(
    before: Option<DraftView>,
    after: Option<DraftView>,
    texts: Seq<Seq<char>>,
    id: Seq<char>,
) -> bool {
    if texts.len() == 0 {
        after == before
    } else {
        match (before, after) {
            (Some(b), Some(a)) => a.id == b.id && a.parts == b.parts + texts,
            (None, Some(a)) => a.id == id && a.parts == texts,
            _ => false,
        }
    }
}

proof fn lemma_draft_after_reasoning(stream: StreamView, value: JsonView, id: Seq<char>)
    ensures
        ({
            let after = stream.with_reasoning_in(value, id);
            let texts = match stream.dialect {
                ChatDialect::Strict => Seq::empty(),
                ChatDialect::ThinkingReasoningContent => reasoning_text_of(Some(value)),
            };
            &&& after.dialect == stream.dialect
            &&& after.calls == stream.calls
            &&& after.assistant == stream.assistant
            &&& after.usage == stream.usage
            &&& after.ended == stream.ended
            &&& has_grown(stream.reasoning, after.reasoning, texts, id)
        }),
{
    if let Some(text) = crate::stream::reasoning_in(stream.dialect, value) {
        let after = stream.with_reasoning_in(value, id);
        match stream.reasoning {
            Some(draft) => {
                assert(after.reasoning->0.parts =~= draft.parts + seq![text]);
            },
            None => {
                assert(after.reasoning->0.parts =~= seq![text]);
            },
        }
    }
}

/// What a choice carries goes into what is under way: its texts into the message,
/// its reasoning into the reasoning, the pieces under `delta.tool_calls` into the
/// calls. Without a finish reason nothing else changes.
pub proof fn law_choices_add_to_what_is_under_way(
    stream: StreamView,
    choice: Map<Seq<char>, JsonView>,
    ids: ItemIds,
    pieces: Seq<JsonView>,
)
    requires
        !choice.contains_key("finish_reason"@),
    ensures
        ({
            let after = stream.after_choice(JsonView::Object(choice), ids);
            let calls = match bound_to(JsonView::Object(choice), "delta"@) {
                Some(delta) => bound_to(delta, "tool_calls"@),
                None => None,
            };
            &&& after.dialect == stream.dialect
            &&& after.usage == stream.usage
            &&& after.ended == stream.ended
            &&& has_grown(
                stream.assistant,
                after.assistant,
                choice_texts(JsonView::Object(choice)),
                ids.assistant,
            )
            &&& has_grown(
                stream.reasoning,
                after.reasoning,
                choice_reasoning(stream.dialect, JsonView::Object(choice)),
                ids.reasoning,
            )
            &&& calls == Some(JsonView::Array(pieces)) ==> after.calls
                == stream.calls.after_pieces(pieces)
            &&& !(calls is Some && calls->0 is Array) ==> after.calls == stream.calls
        }),
{
    let value = JsonView::Object(choice);
    let after = stream.after_choice(value, ids);
    crate::stream_laws::lemma_content_texts(value);
    let changed = match value.field("delta"@) {
        Some(delta) => {
            lemma_draft_after_reasoning(stream, delta, ids.reasoning);
            let reasoned = stream.with_reasoning_in(delta, ids.reasoning);
            if let Some(content) = delta.field("content"@) {
                lemma_draft_after_texts(reasoned, content_texts(content), ids.assistant);
            }
            stream.after_delta(delta, ids)
        },
        None => stream,
    };
    if let Some(message) = value.field("message"@) {
        lemma_draft_after_reasoning(changed, message, ids.reasoning);
    }
    let first = match stream.dialect {
        ChatDialect::Strict => Seq::empty(),
        ChatDialect::ThinkingReasoningContent => reasoning_text_of(bound_to(value, "delta"@)),
    };
    let second = match stream.dialect {
        ChatDialect::Strict => Seq::empty(),
        ChatDialect::ThinkingReasoningContent => reasoning_text_of(bound_to(value, "message"@)),
    };
    assert(has_grown(stream.reasoning, changed.reasoning, first, ids.reasoning));
    assert(has_grown(changed.reasoning, after.reasoning, second, ids.reasoning));
    let both = choice_reasoning(stream.dialect, value);
    assert(both =~= first + second);
    if let Some(draft) = stream.reasoning {
        assert((draft.parts + first) + second =~= draft.parts + both);
        assert(draft.parts + Seq::<Seq<char>>::empty() =~= draft.parts);
    }
    if first.len() == 0 {
        assert(both =~= second);
    }
    if second.len() == 0 {
        assert(both =~= first);
    }
}

/// Events that a choice sends for what it carries: pieces of reasoning, or texts,
/// and the item that the first of them starts.
spec fn all_speak(events: Seq<EventView>, of_reasoning: bool) -> bool {
    forall|i: int|
        0 <= i < events.len() ==> speaks_of_reasoning(#[trigger] events[i]) == of_reasoning
}

/// Whether `events` are those of `before` with the given ones behind them.
pub open spec fn are_followed_by(
    before: Seq<EventView>,
    first: Seq<EventView>,
    second: Seq<EventView>,
    third: Seq<EventView>,
    events: Seq<EventView>,
) -> bool {
    &&& events == before + first + second + third
    &&& forall|i: int| 0 <= i < first.len() ==> speaks_of_reasoning(#[trigger] first[i])
    &&& forall|i: int| 0 <= i < second.len() ==> !speaks_of_reasoning(#[trigger] second[i])
    &&& forall|i: int| 0 <= i < third.len() ==> speaks_of_reasoning(#[trigger] third[i])
}

proof fn lemma_reasoning_events(stream: StreamView, value: JsonView, id: Seq<char>)
    ensures
        exists|events: Seq<EventView>|
            #![trigger stream.out + events]
            {
                &&& stream.with_reasoning_in(value, id).out == stream.out + events
                &&& all_speak(events, true)
            },
{
    let out = stream.with_reasoning_in(value, id).out;
    match crate::stream::reasoning_in(stream.dialect, value) {
        Some(text) => {
            let added = EventView::Added(reasoning_item(empty_draft(id)));
            let draft = match stream.reasoning {
                Some(draft) => draft,
                None => empty_draft(id),
            };
            let sent = EventView::ReasoningDelta {
                delta: text,
                content_index: draft.parts.len() as i64,
            };
            let events = if stream.reasoning is Some {
                seq![sent]
            } else {
                seq![added, sent]
            };
            assert(out =~= stream.out + events);
            assert(all_speak(events, true));
        },
        None => {
            let events = Seq::<EventView>::empty();
            assert(out =~= stream.out + events);
            assert(all_speak(events, true));
        },
    }
}

proof fn lemma_text_events(stream: StreamView, texts: Seq<Seq<char>>, id: Seq<char>)
    ensures
        exists|events: Seq<EventView>|
            #![trigger stream.out + events]
            {
                &&& stream.with_assistant_texts(texts, id).out == stream.out + events
                &&& all_speak(events, false)
            },
    decreases texts.len(),
{
    if texts.len() == 0 {
        let events = Seq::<EventView>::empty();
        assert(stream.out =~= stream.out + events);
        assert(all_speak(events, false));
    } else {
        lemma_text_events(stream, texts.drop_last(), id);
        let before = stream.with_assistant_texts(texts.drop_last(), id);
        let so_far = choose|events: Seq<EventView>|
            #![trigger stream.out + events]
            {
                &&& before.out == stream.out + events
                &&& all_speak(events, false)
            };
        let sent = EventView::TextDelta(texts.last());
        let added = EventView::Added(message_item(empty_draft(id)));
        let events = if before.assistant is Some {
            so_far.push(sent)
        } else {
            so_far.push(added).push(sent)
        };
        assert(stream.with_assistant_texts(texts, id).out =~= stream.out + events);
        assert(all_speak(events, false));
    }
}

/// A choice that carries reasoning, text and reasoning again sends them in that
/// order: the reasoning of its delta, then its text, then the reasoning of its
/// message.
pub proof fn law_choices_send_reasoning_text_reasoning(
    stream: StreamView,
    choice: Map<Seq<char>, JsonView>,
    ids: ItemIds,
)
    requires
        !choice.contains_key("finish_reason"@),
    ensures
        exists|first: Seq<EventView>, second: Seq<EventView>, third: Seq<EventView>|
            #[trigger] are_followed_by(
                stream.out,
                first,
                second,
                third,
                stream.after_choice(JsonView::Object(choice), ids).out,
            ) && (!choice.contains_key("message"@) ==> third.len() == 0) && (!choice.contains_key(
                "delta"@,
            ) ==> first.len() == 0 && second.len() == 0),
{
    let value = JsonView::Object(choice);
    let after = stream.after_choice(value, ids);
    let nothing = Seq::<EventView>::empty();
    let (first, second, changed) = match value.field("delta"@) {
        Some(delta) => {
            lemma_reasoning_events(stream, delta, ids.reasoning);
            let reasoned = stream.with_reasoning_in(delta, ids.reasoning);
            let first = choose|events: Seq<EventView>|
                #![trigger stream.out + events]
                reasoned.out == stream.out + events && all_speak(events, true);
            let second = match delta.field("content"@) {
                Some(content) => {
                    lemma_text_events(reasoned, content_texts(content), ids.assistant);
                    choose|events: Seq<EventView>|
                        #![trigger reasoned.out + events]
                        reasoned.with_assistant_texts(content_texts(content), ids.assistant).out
                            == reasoned.out + events && all_speak(events, false)
                },
                None => {
                    assert(reasoned.out =~= reasoned.out + nothing);
                    nothing
                },
            };
            (first, second, stream.after_delta(value.field("delta"@)->0, ids))
        },
        None => {
            assert(stream.out =~= stream.out + nothing + nothing);
            (nothing, nothing, stream)
        },
    };
    assert(changed.out == stream.out + first + second);
    let third = match value.field("message"@) {
        Some(message) => {
            lemma_reasoning_events(changed, message, ids.reasoning);
            choose|events: Seq<EventView>|
                #![trigger changed.out + events]
                after.out == changed.out + events && all_speak(events, true)
        },
        None => {
            assert(changed.out =~= changed.out + nothing);
            nothing
        },
    };
    assert(are_followed_by(stream.out, first, second, third, after.out));
}

/// A text that comes while no message is growing starts one, which is announced
/// empty under its new id before the text goes out; while one is growing only the
/// text goes out.
pub proof fn law_first_texts_announce_their_message(
    stream: StreamView,
    delta: Map<Seq<char>, JsonView>,
    text: Seq<char>,
    ids: ItemIds,
)
    requires
        delta == map!["content"@ => JsonView::Str(text)],
    ensures
        ({
            let after = stream.after_choice(
                JsonView::Object(map!["delta"@ => JsonView::Object(delta)]),
                ids,
            ).out;
            &&& stream.assistant is Some ==> after == stream.out.push(EventView::TextDelta(text))
            &&& stream.assistant is None ==> after == stream.out.push(
                EventView::Added(
                    ItemView::Message {
                        id: Some(ids.assistant),
                        role: "assistant"@,
                        content: Seq::empty(),
                    },
                ),
            ).push(EventView::TextDelta(text))
        }),
{
    lemma_choice_words();
    let choice = JsonView::Object(map!["delta"@ => JsonView::Object(delta)]);
    let value = JsonView::Object(delta);
    assert(choice.field("delta"@) == Some(value));
    assert(choice.field("message"@) is None);
    assert(choice.field("finish_reason"@) is None);
    assert(value.field("content"@) == Some(JsonView::Str(text)));
    assert(value.field("reasoning_content"@) is None);
    assert(value.field("tool_calls"@) is None);
    let texts = content_texts(JsonView::Str(text));
    assert(texts =~= seq![text]);
    reveal_with_fuel(StreamView::with_assistant_texts, 2);
    assert(texts.drop_last() =~= Seq::empty());
    assert(message_item(empty_draft(ids.assistant))->Message_content =~= Seq::empty());
}

/// Reasoning that comes in a thinking stream while none is growing starts some,
/// which is announced empty under its new id before the reasoning goes out; each
/// piece says how many came before it.
pub proof fn law_first_reasoning_is_announced(
    stream: StreamView,
    delta: Map<Seq<char>, JsonView>,
    text: Seq<char>,
    ids: ItemIds,
)
    requires
        stream.dialect == ChatDialect::ThinkingReasoningContent,
        delta == map!["reasoning_content"@ => JsonView::Str(text)],
    ensures
        ({
            let after = stream.after_choice(
                JsonView::Object(map!["delta"@ => JsonView::Object(delta)]),
                ids,
            ).out;
            &&& stream.reasoning is Some ==> after == stream.out.push(
                EventView::ReasoningDelta {
                    delta: text,
                    content_index: stream.reasoning->0.parts.len() as i64,
                },
            )
            &&& stream.reasoning is None ==> after == stream.out.push(
                EventView::Added(
                    ItemView::Reasoning {
                        id: ids.reasoning,
                        summary: Seq::empty(),
                        content: Some(Seq::empty()),
                        encrypted_content: None,
                    },
                ),
            ).push(EventView::ReasoningDelta { delta: text, content_index: 0 })
        }),
{
    lemma_choice_words();
    let choice = JsonView::Object(map!["delta"@ => JsonView::Object(delta)]);
    let value = JsonView::Object(delta);
    assert(choice.field("delta"@) == Some(value));
    assert(choice.field("message"@) is None);
    assert(choice.field("finish_reason"@) is None);
    assert(value.field("content"@) is None);
    assert(value.field("reasoning_content"@) == Some(JsonView::Str(text)));
    assert(value.field("tool_calls"@) is None);
    assert(reasoning_item(empty_draft(ids.reasoning))->Reasoning_content->0 =~= Seq::empty());
}

proof fn lemma_choice_words()
    ensures
        "delta"@ != "message"@,
        "delta"@ != "finish_reason"@,
        "message"@ != "finish_reason"@,
        "content"@ != "reasoning_content"@,
        "content"@ != "tool_calls"@,
        "reasoning_content"@ != "tool_calls"@,
{
    reveal_strlit("delta");
    reveal_strlit("message");
    reveal_strlit("finish_reason");
    reveal_strlit("content");
    reveal_strlit("reasoning_content");
    reveal_strlit("tool_calls");
    assert("delta"@.len() == 5);
    assert("message"@.len() == 7);
    assert("finish_reason"@.len() == 13);
    assert("content"@.len() == 7);
    assert("reasoning_content"@.len() == 17);
    assert("tool_calls"@.len() == 10);
}

/// A choice that is no object changes nothing.
pub proof fn law_other_choices_change_nothing(stream: StreamView, choice: JsonView, ids: ItemIds)
    requires
        !(choice is Object),
    ensures
        stream.after_choice(choice, ids) == stream,
{
}

/// The events that hand out what is growing: the reasoning first, then the
/// message.
pub open spec fn flushed_events(
    reasoning: Option<DraftView>,
    assistant: Option<DraftView>,
) -> Seq<EventView> {
    (match reasoning {
        Some(draft) => seq![EventView::Done(reasoning_item(draft))],
        None => Seq::empty(),
    }) + (match assistant {
        Some(draft) => seq![EventView::Done(message_item(draft))],
        None => Seq::empty(),
    })
}

/// What a finish reason does on top of what the choice carries. `stop` hands out
/// the reasoning and the message that are growing, and drops no call. `length`
/// ends the stream with an error and hands out nothing. `tool_calls` hands out
/// the reasoning and the pending calls, and lets the message grow on. Any other
/// reason, and none, does nothing.
pub proof fn law_finish_reasons_hand_out(
    stream: StreamView,
    choice: Map<Seq<char>, JsonView>,
    reason: JsonView,
    ids: ItemIds,
)
    requires
        !choice.contains_key("finish_reason"@),
    ensures
        ({
            let carried = stream.after_choice(JsonView::Object(choice), ids);
            let after = stream.after_choice(
                JsonView::Object(choice.insert("finish_reason"@, reason)),
                ids,
            );
            &&& after.dialect == carried.dialect
            &&& after.usage == carried.usage
            &&& reason == JsonView::Str("stop"@) ==> {
                &&& after.assistant is None
                &&& after.reasoning is None
                &&& after.calls == carried.calls
                &&& after.ended == carried.ended
                &&& after.out == carried.out + flushed_events(carried.reasoning, carried.assistant)
            }
            &&& reason == JsonView::Str("length"@) ==> {
                &&& after.assistant == carried.assistant
                &&& after.reasoning == carried.reasoning
                &&& after.calls == carried.calls
                &&& after.ended
                &&& after.out == carried.out.push(EventView::ContextWindowExceeded)
            }
            &&& reason == JsonView::Str("tool_calls"@) ==> {
                &&& after.assistant == carried.assistant
                &&& after.reasoning is None
                &&& after.calls.pending.len() == 0
                &&& after.calls.ids == carried.calls.ids
                &&& after.calls.next == carried.calls.next
                &&& after.calls.last == carried.calls.last
                &&& after.ended == carried.ended
                &&& after.out == carried.out + flushed_events(carried.reasoning, None)
                    + finished_calls(carried.calls.pending).map_values(
                    |item: ItemView| EventView::Done(item),
                )
            }
            &&& reason != JsonView::Str("stop"@) && reason != JsonView::Str("length"@) && reason
                != JsonView::Str("tool_calls"@) ==> after == carried
        }),
{
    lemma_choice_words();
    reveal_strlit("stop");
    reveal_strlit("length");
    reveal_strlit("tool_calls");
    assert("stop"@.len() == 4);
    assert("length"@.len() == 6);
    assert("tool_calls"@.len() == 10);
    let bare = JsonView::Object(choice);
    let full = JsonView::Object(choice.insert("finish_reason"@, reason));
    assert(full.field("delta"@) == bare.field("delta"@));
    assert(full.field("message"@) == bare.field("message"@));
    let carried = stream.after_choice(bare, ids);
    assert(stream.with_choice(full, ids) == carried);
    let after = stream.after_choice(full, ids);
    if reason == JsonView::Str("stop"@) {
        assert(after.out =~= carried.out + flushed_events(carried.reasoning, carried.assistant));
    } else if reason == JsonView::Str("tool_calls"@) {
        assert(after.out =~= carried.out + flushed_events(carried.reasoning, None)
            + finished_calls(carried.calls.pending).map_values(
            |item: ItemView| EventView::Done(item),
        ));
    }
}

/// The choices under `choices` are taken in one by one, every one of them and in
/// order, up to the one that ends the stream; a frame without such a list brings
/// no choice.
pub proof fn law_choices_are_taken_in_one_by_one(
    stream: StreamView,
    frame: Map<Seq<char>, JsonView>,
    choices: Seq<JsonView>,
    ids: Seq<ItemIds>,
    n: nat,
)
    ensures
        frame.contains_key("choices"@) && frame["choices"@] == JsonView::Array(choices)
            ==> choices_of(JsonView::Object(frame)) == choices,
        !(frame.contains_key("choices"@) && frame["choices"@] is Array) ==> choices_of(
            JsonView::Object(frame),
        ).len() == 0,
        stream.after_choices(choices, ids, 0) == stream,
        stream.after_choices(choices, ids, n).ended ==> stream.after_choices(choices, ids, n + 1)
            == stream.after_choices(choices, ids, n),
        !stream.after_choices(choices, ids, n).ended ==> stream.after_choices(choices, ids, n + 1)
            == stream.after_choices(choices, ids, n).after_choice(choices[n as int], ids[n as int]),
{
}

/// A frame keeps the usage that it reports under `usage`, and the one before it
/// where it reports none; then its choices are taken in.
pub proof fn law_frames_bring_usage_and_choices(
    stream: StreamView,
    frame: Map<Seq<char>, JsonView>,
    choices: Seq<JsonView>,
    ids: Seq<ItemIds>,
)
    ensures
        ({
            let reported = if frame.contains_key("usage"@) {
                reported_usage(Some(frame["usage"@]))
            } else {
                None
            };
            let counted = StreamView {
                usage: if reported is Some {
                    reported
                } else {
                    stream.usage
                },
                ..stream
            };
            &&& frame.contains_key("choices"@) && frame["choices"@] == JsonView::Array(choices)
                ==> stream.after_frame(JsonView::Object(frame), ids) == counted.after_choices(
                choices,
                ids,
                choices.len(),
            )
            &&& !(frame.contains_key("choices"@) && frame["choices"@] is Array)
                ==> stream.after_frame(JsonView::Object(frame), ids) == counted
        }),
        forall|value: JsonView|
            !(value is Object) ==> #[trigger] stream.after_frame(value, ids) == stream,
{
    let reported = reported_usage(JsonView::Object(frame).field("usage"@));
    assert(reported_usage(None) is None);
}

/// A stream completes by handing out what is growing, reasoning first, and then
/// one completion with the usage that was kept, no id and no verdict on the turn.
/// That ends it.
pub proof fn law_completion_hands_out_what_is_growing(stream: StreamView)
    ensures
        stream.completed().ended,
        stream.completed().assistant is None,
        stream.completed().reasoning is None,
        stream.completed().out == (stream.out + flushed_events(
            stream.reasoning,
            stream.assistant,
        )).push(
            EventView::Completed {
                response_id: Seq::empty(),
                token_usage: stream.usage,
                end_turn: None,
            },
        ),
{
    assert(stream.completed().out =~= (stream.out + flushed_events(
        stream.reasoning,
        stream.assistant,
    )).push(
        EventView::Completed { response_id: Seq::empty(), token_usage: stream.usage, end_turn: None },
    ));
}

/// What a poll does to a stream that goes on. The sentinel, bare or in brackets,
/// and the end of the events complete it; a failure and a timeout end it with an
/// error that says so; data that is blank or no JSON changes nothing; other data
/// is a frame.
pub proof fn law_polls_are_told_apart(
    stream: StreamView,
    data: Seq<char>,
    frame: JsonView,
    message: Seq<char>,
    ids: Seq<ItemIds>,
)
    requires
        !stream.ended,
    ensures
        stream.after_poll(PollView::Ended, ids) == stream.completed(),
        trimmed(data) == "[DONE]"@ || trimmed(data) == "DONE"@ ==> stream.after_poll(
            PollView::Event(data),
            ids,
        ) == stream.completed(),
        trimmed(data).len() == 0 ==> stream.after_poll(PollView::Event(data), ids) == stream,
        trimmed(data) != "[DONE]"@ && trimmed(data) != "DONE"@ && parsed_text(trimmed(data)) is None
            ==> stream.after_poll(PollView::Event(data), ids) == stream,
        trimmed(data).len() > 0 && trimmed(data) != "[DONE]"@ && trimmed(data) != "DONE"@
            && parsed_text(trimmed(data)) == Some(frame) ==> stream.after_poll(
            PollView::Event(data),
            ids,
        ) == stream.after_frame(frame, ids),
        ({
            let failed = stream.after_poll(PollView::Failed(message), ids);
            &&& failed.ended
            &&& failed.out == stream.out.push(EventView::StreamError(message))
        }),
        ({
            let late = stream.after_poll(PollView::TimedOut, ids);
            &&& late.ended
            &&& late.out == stream.out.push(EventView::StreamError("idle timeout waiting for SSE"@))
        }),
{
    reveal_strlit("[DONE]");
    reveal_strlit("DONE");
    assert("[DONE]"@.len() == 6);
    assert("DONE"@.len() == 4);
}

/// A poll brings a frame where its data, without the white space around it, is
/// JSON and is neither blank nor a sentinel; nothing else brings one.
pub proof fn law_frames_come_in_events(data: Seq<char>, poll: PollView)
    ensures
        frame_of(PollView::Event(data)) == (if trimmed(data).len() == 0 || trimmed(data)
            == "[DONE]"@ || trimmed(data) == "DONE"@ {
            None
        } else {
            parsed_text(trimmed(data))
        }),
        !(poll is Event) ==> frame_of(poll) is None,
{
}

/// Polls are taken in one by one, every one of them and in order; a stream that
/// has ended takes none in. A new stream has nothing under way and has sent
/// nothing.
pub proof fn law_polls_are_taken_in_one_by_one(
    dialect: ChatDialect,
    stream: StreamView,
    polls: Seq<PollView>,
    ids: Seq<Seq<ItemIds>>,
    poll: PollView,
    own: Seq<ItemIds>,
)
    requires
        ids.len() == polls.len(),
    ensures
        stream.after_polls(Seq::empty(), Seq::empty()) == stream,
        stream.after_polls(polls.push(poll), ids.push(own)) == stream.after_polls(
            polls,
            ids,
        ).after_poll(poll, own),
        stream.ended ==> stream.after_poll(poll, own) == stream,
        new_stream(dialect).dialect == dialect,
        new_stream(dialect).assistant is None,
        new_stream(dialect).reasoning is None,
        new_stream(dialect).usage is None,
        new_stream(dialect).out.len() == 0,
        new_stream(dialect).calls.pending.len() == 0,
        !new_stream(dialect).ended,
{
    assert(polls.push(poll).drop_last() =~= polls);
    assert(ids.push(own).drop_last() =~= ids);
}

} // verus!
