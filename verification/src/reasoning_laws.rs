//! What a whole stream hands out, and what reasoning has to do with it in each
//! dialect.

use vstd::prelude::*;

use crate::json::JsonView;
use crate::protocol::{ChatDialect, EventView};
use crate::stream::{
    choices_of, content_texts, frame_in, frame_of, is_done, message_item, new_stream,
    reasoning_item, ItemIds, PollView, StreamView,
};
use crate::stream_laws::{
    choice_reasoning, choice_texts, law_reasoning_is_handed_out_in_order,
    law_texts_are_handed_out_in_order, reasoning_deltas_in, texts_in,
};
use crate::text::trimmed;

verus! {

/// Whether one of the first `n` choices ends the stream.
pub open spec fn ends_within(choices: Seq<JsonView>, n: nat) -> bool {
    exists|i: int|
        0 <= i < n && #[trigger] choices[i].text_field("finish_reason"@) == Some("length"@)
}

/// Whether a poll ends the stream.
pub open spec fn ends_stream(poll: PollView) -> bool {
    match poll {
        PollView::Event(data) => is_done(trimmed(data)) || match frame_in(data) {
            Some(frame) => ends_within(choices_of(frame), choices_of(frame).len()),
            None => false,
        },
        _ => true,
    }
}

/// What the first `n` choices carry, up to the one that ends the stream.
pub open spec fn carried_by_choices(
    choices: Seq<JsonView>,
    n: nat,
    carried: spec_fn(JsonView) -> Seq<Seq<char>>,
) -> Seq<Seq<char>>
    decreases n,
{
    if n == 0 {
        Seq::empty()
    } else {
        let before = carried_by_choices(choices, (n - 1) as nat, carried);
        if ends_within(choices, (n - 1) as nat) {
            before
        } else {
            before + carried(choices[n - 1])
        }
    }
}

/// What polls carry, up to the one that ends the stream.
pub open spec fn carried_by_polls(
    polls: Seq<PollView>,
    carried: spec_fn(JsonView) -> Seq<Seq<char>>,
) -> Seq<Seq<char>>
    decreases polls.len(),
{
    if polls.len() == 0 {
        Seq::empty()
    } else {
        let before = carried_by_polls(polls.drop_last(), carried);
        if exists|i: int| 0 <= i < polls.len() - 1 && ends_stream(#[trigger] polls[i]) {
            before
        } else {
            match frame_of(polls.last()) {
                Some(frame) => before + carried_by_choices(
                    choices_of(frame),
                    choices_of(frame).len(),
                    carried,
                ),
                None => before,
            }
        }
    }
}

proof fn lemma_texts_go_on(stream: StreamView, texts: Seq<Seq<char>>, id: Seq<char>)
    ensures
        stream.with_assistant_texts(texts, id).ended == stream.ended,
        stream.with_assistant_texts(texts, id).dialect == stream.dialect,
    decreases texts.len(),
{
    if texts.len() > 0 {
        lemma_texts_go_on(stream, texts.drop_last(), id);
    }
}

proof fn lemma_reason_words()
    ensures
        "stop"@ != "length"@,
        "tool_calls"@ != "length"@,
{
    reveal_strlit("stop");
    reveal_strlit("length");
    reveal_strlit("tool_calls");
    assert("stop"@.len() == 4);
    assert("length"@.len() == 6);
    assert("tool_calls"@.len() == 10);
}

proof fn lemma_choice_ends(stream: StreamView, choice: JsonView, ids: ItemIds)
    requires
        !stream.ended,
    ensures
        stream.after_choice(choice, ids).ended <==> choice.text_field("finish_reason"@) == Some(
            "length"@,
        ),
        stream.after_choice(choice, ids).dialect == stream.dialect,
{
    lemma_reason_words();
    if let Some(delta) = choice.field("delta"@) {
        let reasoned = stream.with_reasoning_in(delta, ids.reasoning);
        if let Some(content) = delta.field("content"@) {
            lemma_texts_go_on(reasoned, content_texts(content), ids.assistant);
        }
    }
}

proof fn lemma_choices_carry(
    stream: StreamView,
    choices: Seq<JsonView>,
    ids: Seq<ItemIds>,
    n: nat,
    reasoning: spec_fn(JsonView) -> Seq<Seq<char>>,
    texts: spec_fn(JsonView) -> Seq<Seq<char>>,
)
    requires
        !stream.ended,
        forall|choice: JsonView| #[trigger]
            reasoning(choice) == choice_reasoning(stream.dialect, choice),
        forall|choice: JsonView| #[trigger] texts(choice) == choice_texts(choice),
    ensures
        ({
            let after = stream.after_choices(choices, ids, n);
            &&& after.dialect == stream.dialect
            &&& after.ended <==> ends_within(choices, n)
            &&& reasoning_deltas_in(after.out) == reasoning_deltas_in(stream.out)
                + carried_by_choices(choices, n, reasoning)
            &&& texts_in(after.out) == texts_in(stream.out) + carried_by_choices(choices, n, texts)
        }),
    decreases n,
{
    let first_deltas = reasoning_deltas_in(stream.out);
    let first_texts = texts_in(stream.out);
    if n == 0 {
        assert(first_deltas + Seq::<Seq<char>>::empty() =~= first_deltas);
        assert(first_texts + Seq::<Seq<char>>::empty() =~= first_texts);
    } else {
        let m = (n - 1) as nat;
        lemma_choices_carry(stream, choices, ids, m, reasoning, texts);
        let before = stream.after_choices(choices, ids, m);
        if before.ended {
            let i = choose|i: int|
                0 <= i < m && #[trigger] choices[i].text_field("finish_reason"@) == Some(
                    "length"@,
                );
            assert(choices[i].text_field("finish_reason"@) == Some("length"@));
        } else {
            let choice = choices[n - 1];
            lemma_choice_ends(before, choice, ids[n - 1]);
            law_reasoning_is_handed_out_in_order(before, choice, ids[n - 1]);
            law_texts_are_handed_out_in_order(before, choice, ids[n - 1]);
            assert(reasoning(choice) == choice_reasoning(before.dialect, choice));
            assert(texts(choice) == choice_texts(choice));
            assert((first_deltas + carried_by_choices(choices, m, reasoning)) + reasoning(choice)
                =~= first_deltas + carried_by_choices(choices, n, reasoning));
            assert((first_texts + carried_by_choices(choices, m, texts)) + texts(choice)
                =~= first_texts + carried_by_choices(choices, n, texts));
            assert(ends_within(choices, n) <==> choice.text_field("finish_reason"@) == Some(
                "length"@,
            )) by {
                if ends_within(choices, n) {
                    let i = choose|i: int|
                        0 <= i < n && #[trigger] choices[i].text_field("finish_reason"@) == Some(
                            "length"@,
                        );
                    assert(choices[i].text_field("finish_reason"@) == Some("length"@));
                    assert(i == n - 1);
                }
            }
        }
    }
}

/// An event that is neither a text nor a piece of reasoning changes neither.
proof fn lemma_other_event(events: Seq<EventView>, event: EventView)
    requires
        !(event is TextDelta),
        !(event is ReasoningDelta),
    ensures
        reasoning_deltas_in(events.push(event)) == reasoning_deltas_in(events),
        texts_in(events.push(event)) == texts_in(events),
{
    assert(events.push(event).drop_last() =~= events);
}

proof fn lemma_completion_carries_nothing(stream: StreamView)
    ensures
        reasoning_deltas_in(stream.completed().out) == reasoning_deltas_in(stream.out),
        texts_in(stream.completed().out) == texts_in(stream.out),
{
    if let Some(draft) = stream.reasoning {
        lemma_other_event(stream.out, EventView::Done(reasoning_item(draft)));
    }
    let flushed = stream.reasoning_done();
    if let Some(draft) = flushed.assistant {
        lemma_other_event(flushed.out, EventView::Done(message_item(draft)));
    }
    lemma_other_event(
        flushed.assistant_done().out,
        EventView::Completed {
            response_id: Seq::empty(),
            token_usage: stream.usage,
            end_turn: None,
        },
    );
}

proof fn lemma_polls_carry(
    dialect: ChatDialect,
    polls: Seq<PollView>,
    ids: Seq<Seq<ItemIds>>,
    reasoning: spec_fn(JsonView) -> Seq<Seq<char>>,
    texts: spec_fn(JsonView) -> Seq<Seq<char>>,
)
    requires
        ids.len() == polls.len(),
        forall|choice: JsonView| #[trigger] reasoning(choice) == choice_reasoning(dialect, choice),
        forall|choice: JsonView| #[trigger] texts(choice) == choice_texts(choice),
    ensures
        ({
            let after = new_stream(dialect).after_polls(polls, ids);
            &&& after.dialect == dialect
            &&& after.ended <==> exists|i: int|
                0 <= i < polls.len() && ends_stream(#[trigger] polls[i])
            &&& reasoning_deltas_in(after.out) == carried_by_polls(polls, reasoning)
            &&& texts_in(after.out) == carried_by_polls(polls, texts)
        }),
    decreases polls.len(),
{
    if polls.len() > 0 {
        let shorter = polls.drop_last();
        let last = polls.last();
        lemma_polls_carry(dialect, shorter, ids.drop_last(), reasoning, texts);
        let before = new_stream(dialect).after_polls(shorter, ids.drop_last());
        let after = new_stream(dialect).after_polls(polls, ids);
        assert(forall|i: int| 0 <= i < shorter.len() ==> #[trigger] shorter[i] == polls[i]);
        assert(polls[polls.len() - 1] == last);
        assert(before.ended <==> exists|i: int|
            0 <= i < polls.len() - 1 && ends_stream(#[trigger] polls[i])) by {
            if before.ended {
                let i = choose|i: int| 0 <= i < shorter.len() && ends_stream(#[trigger] shorter[i]);
                assert(ends_stream(polls[i]));
            }
            if exists|i: int| 0 <= i < polls.len() - 1 && ends_stream(#[trigger] polls[i]) {
                let i = choose|i: int| 0 <= i < polls.len() - 1 && ends_stream(#[trigger] polls[i]);
                assert(ends_stream(shorter[i]));
            }
        }
        if !before.ended {
            match last {
                PollView::Event(data) => {
                    if is_done(trimmed(data)) {
                        lemma_completion_carries_nothing(before);
                        assert(frame_of(last) is None);
                    } else if let Some(frame) = frame_in(data) {
                        lemma_choices_carry(
                            before.with_usage_in(frame),
                            choices_of(frame),
                            ids.last(),
                            choices_of(frame).len(),
                            reasoning,
                            texts,
                        );
                    }
                },
                PollView::Failed(message) => {
                    lemma_other_event(before.out, EventView::StreamError(message));
                },
                PollView::Ended => {
                    lemma_completion_carries_nothing(before);
                },
                PollView::TimedOut => {
                    lemma_other_event(
                        before.out,
                        EventView::StreamError("idle timeout waiting for SSE"@),
                    );
                },
            }
            assert(after.ended <==> ends_stream(last));
            if exists|i: int| 0 <= i < polls.len() && ends_stream(#[trigger] polls[i]) {
                let i = choose|i: int| 0 <= i < polls.len() && ends_stream(#[trigger] polls[i]);
                assert(i == polls.len() - 1);
            }
        } else {
            let i = choose|i: int| 0 <= i < polls.len() - 1 && ends_stream(#[trigger] polls[i]);
            assert(ends_stream(polls[i]));
        }
    }
}

/// The pieces of reasoning that a stream hands out are exactly those that its
/// choices carry up to its end, verbatim and in the order in which they come: in
/// the thinking dialect the texts under `reasoning_content` of each choice's
/// delta and then of its message, in the strict dialect none.
pub proof fn law_streams_hand_out_the_reasoning_they_get(
    dialect: ChatDialect,
    polls: Seq<PollView>,
    ids: Seq<Seq<ItemIds>>,
)
    requires
        ids.len() == polls.len(),
    ensures
        reasoning_deltas_in(new_stream(dialect).after_polls(polls, ids).out) == carried_by_polls(
            polls,
            |choice: JsonView| choice_reasoning(dialect, choice),
        ),
{
    lemma_polls_carry(
        dialect,
        polls,
        ids,
        |choice: JsonView| choice_reasoning(dialect, choice),
        |choice: JsonView| choice_texts(choice),
    );
}

/// The texts that a stream hands out are exactly those that its choices carry
/// up to its end, verbatim and in the order in which they come.
pub proof fn law_streams_hand_out_the_texts_they_get(
    dialect: ChatDialect,
    polls: Seq<PollView>,
    ids: Seq<Seq<ItemIds>>,
)
    requires
        ids.len() == polls.len(),
    ensures
        texts_in(new_stream(dialect).after_polls(polls, ids).out) == carried_by_polls(
            polls,
            |choice: JsonView| choice_texts(choice),
        ),
{
    lemma_polls_carry(
        dialect,
        polls,
        ids,
        |choice: JsonView| choice_reasoning(dialect, choice),
        |choice: JsonView| choice_texts(choice),
    );
}

/// A value without its `reasoning_content`.
pub open spec fn without_reasoning(value: JsonView) -> JsonView {
    match value {
        JsonView::Object(fields) => JsonView::Object(fields.remove("reasoning_content"@)),
        _ => value,
    }
}

/// Fields with the reasoning taken out of the one under `key`.
pub open spec fn with_bare_field(
    fields: Map<Seq<char>, JsonView>,
    key: Seq<char>,
) -> Map<Seq<char>, JsonView> {
    if fields.contains_key(key) {
        fields.insert(key, without_reasoning(fields[key]))
    } else {
        fields
    }
}

/// A choice with the reasoning taken out of its delta and its message.
pub open spec fn bare_choice(choice: JsonView) -> JsonView {
    match choice {
        JsonView::Object(fields) => JsonView::Object(
            with_bare_field(with_bare_field(fields, "delta"@), "message"@),
        ),
        _ => choice,
    }
}

/// A frame with the reasoning taken out of all of its choices.
pub open spec fn bare_frame(frame: JsonView) -> JsonView {
    match frame {
        JsonView::Object(fields) => match frame.items_field("choices"@) {
            Some(choices) => JsonView::Object(
                fields.insert(
                    "choices"@,
                    JsonView::Array(choices.map_values(|choice: JsonView| bare_choice(choice))),
                ),
            ),
            None => frame,
        },
        _ => frame,
    }
}

/// Whether two polls differ in reasoning alone, if at all.
pub open spec fn same_but_reasoning(left: PollView, right: PollView) -> bool {
    match (left, right) {
        (PollView::Event(a), PollView::Event(b)) => {
            &&& is_done(trimmed(a)) == is_done(trimmed(b))
            &&& match (frame_in(a), frame_in(b)) {
                (Some(f), Some(g)) => bare_frame(f) == bare_frame(g),
                (None, None) => true,
                _ => false,
            }
        },
        _ => left == right,
    }
}

proof fn lemma_key_words()
    ensures
        "delta"@ != "message"@,
        "finish_reason"@ != "delta"@,
        "finish_reason"@ != "message"@,
        "content"@ != "reasoning_content"@,
        "tool_calls"@ != "reasoning_content"@,
        "usage"@ != "choices"@,
{
    reveal_strlit("delta");
    reveal_strlit("message");
    reveal_strlit("finish_reason");
    reveal_strlit("content");
    reveal_strlit("reasoning_content");
    reveal_strlit("tool_calls");
    reveal_strlit("usage");
    reveal_strlit("choices");
    assert("delta"@.len() == 5);
    assert("message"@.len() == 7);
    assert("finish_reason"@.len() == 13);
    assert("content"@.len() == 7);
    assert("reasoning_content"@.len() == 17);
    assert("tool_calls"@.len() == 10);
    assert("usage"@.len() == 5);
    assert("choices"@.len() == 7);
}

proof fn lemma_bare_fields(choice: JsonView)
    ensures
        bare_choice(choice).text_field("finish_reason"@) == choice.text_field("finish_reason"@),
        bare_choice(choice).field("delta"@) == match choice.field("delta"@) {
            Some(delta) => Some(without_reasoning(delta)),
            None => None,
        },
        bare_choice(choice).field("message"@) == match choice.field("message"@) {
            Some(message) => Some(without_reasoning(message)),
            None => None,
        },
{
    lemma_key_words();
}

proof fn lemma_bare_choice_in_strict_streams(stream: StreamView, choice: JsonView, ids: ItemIds)
    requires
        stream.dialect == ChatDialect::Strict,
    ensures
        stream.after_choice(bare_choice(choice), ids) == stream.after_choice(choice, ids),
{
    lemma_key_words();
    lemma_bare_fields(choice);
    if let Some(delta) = choice.field("delta"@) {
        let bare = without_reasoning(delta);
        assert(bare.field("content"@) == delta.field("content"@));
        assert(bare.items_field("tool_calls"@) == delta.items_field("tool_calls"@));
        if let Some(content) = delta.field("content"@) {
            lemma_texts_go_on(stream, content_texts(content), ids.assistant);
        }
        assert(stream.after_delta(bare, ids) == stream.after_delta(delta, ids));
        assert(stream.after_delta(delta, ids).dialect == ChatDialect::Strict);
    }
}

/// In the strict dialect two choices that differ in their reasoning alone do the
/// same.
pub proof fn law_strict_choices_ignore_reasoning(
    stream: StreamView,
    left: JsonView,
    right: JsonView,
    ids: ItemIds,
)
    requires
        stream.dialect == ChatDialect::Strict,
        bare_choice(left) == bare_choice(right),
    ensures
        stream.after_choice(left, ids) == stream.after_choice(right, ids),
{
    lemma_bare_choice_in_strict_streams(stream, left, ids);
    lemma_bare_choice_in_strict_streams(stream, right, ids);
}

proof fn lemma_strict_choices(
    stream: StreamView,
    left: Seq<JsonView>,
    right: Seq<JsonView>,
    ids: Seq<ItemIds>,
    n: nat,
)
    requires
        stream.dialect == ChatDialect::Strict,
        !stream.ended,
        n <= left.len(),
        left.len() == right.len(),
        forall|i: int| 0 <= i < left.len() ==> bare_choice(#[trigger] left[i]) == bare_choice(right[i]),
    ensures
        stream.after_choices(left, ids, n) == stream.after_choices(right, ids, n),
        stream.after_choices(left, ids, n).dialect == ChatDialect::Strict,
    decreases n,
{
    if n > 0 {
        lemma_strict_choices(stream, left, right, ids, (n - 1) as nat);
        let before = stream.after_choices(left, ids, (n - 1) as nat);
        if !before.ended {
            assert(bare_choice(left[n - 1]) == bare_choice(right[n - 1]));
            law_strict_choices_ignore_reasoning(before, left[n - 1], right[n - 1], ids[n - 1]);
            lemma_choice_ends(before, left[n - 1], ids[n - 1]);
        }
    }
}

proof fn lemma_bare_frame_fields(frame: JsonView)
    ensures
        bare_frame(frame).field("usage"@) == frame.field("usage"@),
        choices_of(bare_frame(frame)) == choices_of(frame).map_values(
            |choice: JsonView| bare_choice(choice),
        ),
{
    lemma_key_words();
    if frame.items_field("choices"@) is None {
        assert(choices_of(frame).map_values(|choice: JsonView| bare_choice(choice))
            =~= Seq::empty());
    }
}

/// In the strict dialect two streams that differ in reasoning alone hand out the
/// same, wherever the items that they start get the same ids.
pub proof fn law_strict_streams_ignore_reasoning(
    left: Seq<PollView>,
    right: Seq<PollView>,
    ids: Seq<Seq<ItemIds>>,
)
    requires
        left.len() == right.len(),
        ids.len() == left.len(),
        forall|i: int| 0 <= i < left.len() ==> same_but_reasoning(#[trigger] left[i], right[i]),
    ensures
        new_stream(ChatDialect::Strict).after_polls(left, ids) == new_stream(
            ChatDialect::Strict,
        ).after_polls(right, ids),
        new_stream(ChatDialect::Strict).after_polls(left, ids).dialect == ChatDialect::Strict,
    decreases left.len(),
{
    if left.len() > 0 {
        let l = left.drop_last();
        let r = right.drop_last();
        assert forall|i: int| 0 <= i < l.len() implies same_but_reasoning(#[trigger] l[i], r[i]) by {
            assert(same_but_reasoning(left[i], right[i]));
        }
        law_strict_streams_ignore_reasoning(l, r, ids.drop_last());
        let before = new_stream(ChatDialect::Strict).after_polls(l, ids.drop_last());
        let p = left[left.len() - 1];
        let q = right[right.len() - 1];
        assert(same_but_reasoning(p, q));
        if !before.ended {
            if let (PollView::Event(a), PollView::Event(b)) = (p, q) {
                if let (Some(f), Some(g)) = (frame_in(a), frame_in(b)) {
                    lemma_bare_frame_fields(f);
                    lemma_bare_frame_fields(g);
                    let bare = choices_of(bare_frame(f));
                    let left_choices = choices_of(f);
                    let right_choices = choices_of(g);
                    assert(bare.len() == left_choices.len());
                    assert(choices_of(bare_frame(g)).len() == right_choices.len());
                    assert forall|i: int| 0 <= i < left_choices.len() implies bare_choice(
                        #[trigger] left_choices[i],
                    ) == bare_choice(right_choices[i]) by {
                        assert(bare[i] == bare_choice(left_choices[i]));
                        assert(choices_of(bare_frame(g))[i] == bare_choice(right_choices[i]));
                    }
                    lemma_strict_choices(
                        before.with_usage_in(f),
                        left_choices,
                        right_choices,
                        ids.last(),
                        left_choices.len(),
                    );
                }
            }
        }
    }
}

/// Taking the reasoning out of a frame takes all of it out: a frame and what is
/// left of it differ in reasoning alone.
pub proof fn law_bare_frames_are_bare(frame: JsonView)
    ensures
        bare_frame(bare_frame(frame)) == bare_frame(frame),
{
    lemma_key_words();
    lemma_bare_frame_fields(frame);
    let once = bare_frame(frame);
    let choices = choices_of(frame);
    assert forall|i: int| 0 <= i < choices.len() implies bare_choice(
        bare_choice(#[trigger] choices[i]),
    ) == bare_choice(choices[i]) by {
        lemma_bare_choices_are_bare(choices[i]);
    }
    if let JsonView::Object(fields) = frame {
        if frame.items_field("choices"@) is Some {
            let bare = choices.map_values(|choice: JsonView| bare_choice(choice));
            assert(once.items_field("choices"@) == Some(bare));
            assert(bare.map_values(|choice: JsonView| bare_choice(choice)) =~= bare) by {
                assert forall|i: int| 0 <= i < bare.len() implies bare_choice(#[trigger] bare[i])
                    == bare[i] by {
                    assert(bare_choice(bare_choice(choices[i])) == bare_choice(choices[i]));
                }
            }
            assert(once->Object_0.insert("choices"@, JsonView::Array(bare)) =~= once->Object_0);
        }
    }
}

proof fn lemma_bare_choices_are_bare(choice: JsonView)
    ensures
        bare_choice(bare_choice(choice)) == bare_choice(choice),
{
    lemma_key_words();
    if let JsonView::Object(fields) = choice {
        let once = with_bare_field(with_bare_field(fields, "delta"@), "message"@);
        assert forall|value: JsonView| #[trigger]
            without_reasoning(without_reasoning(value)) == without_reasoning(value) by {
            if let JsonView::Object(inner) = value {
                assert(inner.remove("reasoning_content"@).remove("reasoning_content"@)
                    =~= inner.remove("reasoning_content"@));
            }
        }
        assert(with_bare_field(with_bare_field(once, "delta"@), "message"@) =~= once);
    }
}

} // verus!
