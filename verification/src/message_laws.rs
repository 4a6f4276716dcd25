//! What each item of a conversation adds to a request, said of the item and of
//! the messages that go out.

use vstd::prelude::*;

use crate::history::{
    anchored_reasoning, chat_messages, content_parts, content_text, has_image, history_of,
    last_emitted_role, last_user_index, output_parts, plain_content, reasoning_parts_text,
    reasoning_sent_with, with_item, HistoryView,
};
use crate::json::{fields_view, Json, JsonView};
use crate::message::{messages_json, messages_view, ChatMessage, MessageView};
use crate::protocol::{
    ChatDialect, ContentView, ItemView, OutputBodyView, OutputPartView, ReasoningView,
};
use crate::request::{collisions, extra_fields, request_body, reserved_keys, texts};
use crate::text::trimmed;

verus! {

/// The words of a message part; an image has none.
pub open spec fn words_in(part: ContentView) -> Seq<char> {
    match part {
        ContentView::InputText(text) => text,
        ContentView::OutputText(text) => text,
        ContentView::InputImage(_) => Seq::empty(),
    }
}

/// The words of a message, part after part.
pub open spec fn words_of(content: Seq<ContentView>) -> Seq<char>
    decreases content.len(),
{
    if content.len() == 0 {
        Seq::empty()
    } else {
        words_in(content.first()) + words_of(content.drop_first())
    }
}

/// A text as a part of a message.
pub open spec fn shown_text(text: Seq<char>) -> JsonView {
    JsonView::Object(map!["type"@ => JsonView::Str("text"@), "text"@ => JsonView::Str(text)])
}

/// An image as a part of a message.
pub open spec fn shown_image(url: Seq<char>) -> JsonView {
    JsonView::Object(
        map![
            "type"@ => JsonView::Str("image_url"@),
            "image_url"@ => JsonView::Object(map!["url"@ => JsonView::Str(url)]),
        ],
    )
}

/// What a message shows: its words where it has no image, and all of its parts
/// where it has one.
pub open spec fn shown_content(content: Seq<ContentView>) -> JsonView {
    if forall|i: int| 0 <= i < content.len() ==> !(#[trigger] content[i] is InputImage) {
        JsonView::Str(words_of(content))
    } else {
        JsonView::Array(
            Seq::new(
                content.len(),
                |i: int|
                    match content[i] {
                        ContentView::InputImage(url) => shown_image(url),
                        part => shown_text(words_in(part)),
                    },
            ),
        )
    }
}

proof fn lemma_words_split(content: Seq<ContentView>)
    requires
        content.len() > 0,
    ensures
        words_of(content) == words_of(content.drop_last()) + words_in(content.last()),
    decreases content.len(),
{
    reveal_with_fuel(words_of, 2);
    if content.len() == 1 {
        assert(content.drop_last() =~= Seq::empty());
        assert(content.drop_first() =~= Seq::empty());
        assert(words_of(content) =~= words_of(content.drop_last()) + words_in(content.last()));
    } else {
        lemma_words_split(content.drop_first());
        assert(content.drop_first().drop_last() =~= content.drop_last().drop_first());
        assert(words_of(content) =~= words_of(content.drop_last()) + words_in(content.last()));
    }
}

proof fn lemma_words(content: Seq<ContentView>)
    ensures
        content_text(content) == words_of(content),
    decreases content.len(),
{
    if content.len() > 0 {
        lemma_words(content.drop_last());
        lemma_words_split(content);
    }
}

proof fn lemma_shown_content(content: Seq<ContentView>)
    ensures
        plain_content(content) == shown_content(content),
{
    lemma_words(content);
    if has_image(content) {
        let shown = Seq::new(
            content.len(),
            |i: int|
                match content[i] {
                    ContentView::InputImage(url) => shown_image(url),
                    part => shown_text(words_in(part)),
                },
        );
        assert forall|i: int| 0 <= i < content.len() implies content_parts(content)[i]
            == #[trigger] shown[i] by {
            assert(content[i] == content[i]);
        }
        assert(content_parts(content) =~= shown);
        assert(plain_content(content) == JsonView::Array(shown));
        assert(shown_content(content) == JsonView::Array(shown));
    }
}

/// The role under which another than the assistant speaks on the wire.
pub open spec fn sent_role(role: Seq<char>) -> Seq<char> {
    if role == "developer"@ || role == "latest_reminder"@ {
        "system"@
    } else {
        role
    }
}

/// What others than the assistant say in a conversation, in order: the role, and
/// what the message shows.
pub open spec fn said_by_others(items: Seq<ItemView>) -> Seq<(Seq<char>, JsonView)>
    decreases items.len(),
{
    if items.len() == 0 {
        Seq::empty()
    } else {
        match items.last() {
            ItemView::Message { role, content, .. } => if role == "assistant"@ {
                said_by_others(items.drop_last())
            } else {
                said_by_others(items.drop_last()).push((sent_role(role), shown_content(content)))
            },
            _ => said_by_others(items.drop_last()),
        }
    }
}

/// What goes out as said by others than the assistant, in order.
pub open spec fn sent_by_others(messages: Seq<MessageView>) -> Seq<(Seq<char>, JsonView)>
    decreases messages.len(),
{
    if messages.len() == 0 {
        Seq::empty()
    } else {
        match messages.last() {
            MessageView::Plain { role, content, .. } => if role == "assistant"@ {
                sent_by_others(messages.drop_last())
            } else {
                sent_by_others(messages.drop_last()).push((role, content))
            },
            _ => sent_by_others(messages.drop_last()),
        }
    }
}

proof fn lemma_history_keeps_others(
    instructions: Seq<char>,
    items: Seq<ItemView>,
    n: nat,
    dialect: ChatDialect,
)
    requires
        n <= items.len(),
    ensures
        sent_by_others(history_of(instructions, items, n, dialect).messages) == seq![
            ("system"@, JsonView::Str(instructions)),
        ] + said_by_others(items.take(n as int)),
    decreases n,
{
    reveal_strlit("system");
    reveal_strlit("assistant");
    assert("system"@.len() == 6);
    assert("assistant"@.len() == 9);
    let start = seq![("system"@, JsonView::Str(instructions))];
    if n == 0 {
        let first = history_of(instructions, items, 0, dialect).messages;
        assert(first.drop_last() =~= Seq::empty());
        reveal_with_fuel(sent_by_others, 2);
        assert(items.take(0) =~= Seq::empty());
        assert(sent_by_others(first) =~= start + said_by_others(items.take(0)));
    } else {
        lemma_history_keeps_others(instructions, items, (n - 1) as nat, dialect);
        let before = history_of(instructions, items, (n - 1) as nat, dialect).messages;
        let after = history_of(instructions, items, n, dialect).messages;
        let item = items[n - 1];
        assert(items.take(n as int).drop_last() =~= items.take(n - 1));
        assert(items.take(n as int).last() == item);
        if let ItemView::Message { role, content, .. } = item {
            lemma_shown_content(content);
            if role != "assistant"@ {
                let said = said_by_others(items.take(n - 1));
                let added = (sent_role(role), shown_content(content));
                assert((start + said).push(added) =~= start + said.push(added));
            }
        }
        if after.len() > before.len() {
            assert(after.drop_last() =~= before);
        } else if after != before {
            assert(after.drop_last() =~= before.drop_last());
        }
    }
}

/// Everything that others than the assistant say goes out once and in order,
/// behind the instructions: the user's words and images under the user's role,
/// whatever was said in between, and what `developer` and `latest_reminder` say
/// under `system`.
pub proof fn law_what_others_say_is_kept(
    instructions: Seq<char>,
    items: Seq<ItemView>,
    dialect: ChatDialect,
)
    ensures
        sent_by_others(chat_messages(instructions, items, dialect)) == seq![
            ("system"@, JsonView::Str(instructions)),
        ] + said_by_others(items),
{
    lemma_history_keeps_others(instructions, items, items.len(), dialect);
    assert(items.take(items.len() as int) =~= items);
}

/// Whether the messages after a call are those before it with the call taken in:
/// at the end of the last message where that one calls tools without a text, with
/// the call's reasoning on a new line, and in a message of its own elsewhere.
pub open spec fn has_taken_call(
    before: Seq<MessageView>,
    after: Seq<MessageView>,
    call: JsonView,
    own: Option<Seq<char>>,
) -> bool {
    if before.len() > 0 && (before.last() matches MessageView::ToolCalls { content: None, .. }) {
        &&& after.len() == before.len()
        &&& after.drop_last() == before.drop_last()
        &&& after.last() matches MessageView::ToolCalls { content, tool_calls, reasoning }
        &&& content is None
        &&& tool_calls == before.last()->tool_calls.push(call)
        &&& reasoning == match (before.last()->ToolCalls_reasoning, own) {
            (Some(had), Some(more)) => if had.len() == 0 {
                Some(more)
            } else {
                Some(had.push('\n') + more)
            },
            (None, more) => more,
            (had, None) => had,
        }
    } else {
        after == before.push(
            MessageView::ToolCalls { content: None, tool_calls: seq![call], reasoning: own },
        )
    }
}

/// A tool's output as it goes out: its text, or its parts in order without those
/// that are encrypted.
pub open spec fn shown_output(body: OutputBodyView, shown: JsonView) -> bool {
    match body {
        OutputBodyView::Text(text) => shown == JsonView::Str(text),
        OutputBodyView::ContentItems(parts) => {
            &&& shown is Array
            &&& shown->Array_0 == parts_shown(parts)
        },
    }
}

/// The parts of a tool's output that go out.
pub open spec fn parts_shown(parts: Seq<OutputPartView>) -> Seq<JsonView> {
    parts.filter(|part: OutputPartView| !(part is EncryptedContent)).map_values(
        |part: OutputPartView|
            match part {
                OutputPartView::InputText(text) => shown_text(text),
                OutputPartView::InputImage(url) => shown_image(url),
                OutputPartView::EncryptedContent(_) => JsonView::Null,
            },
    )
}

proof fn lemma_parts_shown(parts: Seq<OutputPartView>)
    ensures
        output_parts(parts) == parts_shown(parts),
    decreases parts.len(),
{
    let clear = |part: OutputPartView| !(part is EncryptedContent);
    reveal(Seq::filter);
    if parts.len() == 0 {
        assert(output_parts(parts) =~= parts_shown(parts));
    } else {
        lemma_parts_shown(parts.drop_last());
        assert(output_parts(parts) =~= parts_shown(parts));
    }
}

/// What each kind of item adds to the messages. A message of another than the
/// assistant is pushed as it is shown. A text of the assistant that repeats its
/// last one adds nothing; any other fills the text of a message that calls tools
/// without one, which keeps its calls and its reasoning, or is pushed. A call is
/// taken in with all that it holds, an output is pushed under the call that it
/// answers, and no other item adds anything.
pub proof fn law_items_add_to_the_messages(
    history: HistoryView,
    items: Seq<ItemView>,
    i: int,
    dialect: ChatDialect,
)
    requires
        0 <= i < items.len(),
    ensures
        ({
            let before = history.messages;
            let after = with_item(history, items, i, dialect).messages;
            let said = with_item(history, items, i, dialect).last_assistant_text;
            let own = if dialect == ChatDialect::ThinkingReasoningContent {
                anchored_reasoning(items, i)
            } else {
                None
            };
            match items[i] {
                ItemView::Message { role, content, .. } => if role != "assistant"@ {
                    &&& said == history.last_assistant_text
                    &&& after == before.push(
                        MessageView::Plain {
                            role: sent_role(role),
                            content: shown_content(content),
                            reasoning: None,
                        },
                    )
                } else if history.last_assistant_text == Some(words_of(content)) {
                    after == before && said == history.last_assistant_text
                } else {
                    &&& said == Some(words_of(content))
                    &&& if before.len() > 0 && (before.last() matches MessageView::ToolCalls {
                        content: None,
                        ..
                    }) {
                        after == before.drop_last().push(
                            MessageView::ToolCalls {
                                content: Some(words_of(content)),
                                tool_calls: before.last()->tool_calls,
                                reasoning: before.last()->ToolCalls_reasoning,
                            },
                        )
                    } else {
                        after == before.push(
                            MessageView::Plain {
                                role: "assistant"@,
                                content: JsonView::Str(words_of(content)),
                                reasoning: own,
                            },
                        )
                    }
                },
                ItemView::FunctionCall { name, arguments, call_id, .. } => {
                    &&& said == history.last_assistant_text
                    &&& has_taken_call(
                        before,
                        after,
                        JsonView::Object(
                            map![
                                "id"@ => JsonView::Str(call_id),
                                "type"@ => JsonView::Str("function"@),
                                "function"@ => JsonView::Object(
                                    map![
                                        "name"@ => JsonView::Str(name),
                                        "arguments"@ => JsonView::Str(arguments),
                                    ],
                                ),
                            ],
                        ),
                        own,
                    )
                },
                ItemView::LocalShellCall { id, status, action, .. } => {
                    &&& said == history.last_assistant_text
                    &&& has_taken_call(
                        before,
                        after,
                        JsonView::Object(
                            map![
                                "id"@ => JsonView::Str(
                                    if id is Some {
                                        id->0
                                    } else {
                                        Seq::empty()
                                    },
                                ),
                                "type"@ => JsonView::Str("local_shell_call"@),
                                "status"@ => status,
                                "action"@ => action,
                            ],
                        ),
                        own,
                    )
                },
                ItemView::CustomToolCall { id, name, input, .. } => {
                    &&& said == history.last_assistant_text
                    &&& has_taken_call(
                        before,
                        after,
                        JsonView::Object(
                            map![
                                "id"@ => if id is Some {
                                    JsonView::Str(id->0)
                                } else {
                                    JsonView::Null
                                },
                                "type"@ => JsonView::Str("custom"@),
                                "custom"@ => JsonView::Object(
                                    map![
                                        "name"@ => JsonView::Str(name),
                                        "input"@ => JsonView::Str(input),
                                    ],
                                ),
                            ],
                        ),
                        own,
                    )
                },
                ItemView::FunctionCallOutput { call_id, body, .. } => {
                    &&& said == history.last_assistant_text
                    &&& after.len() == before.len() + 1
                    &&& after.drop_last() == before
                    &&& after.last() matches MessageView::ToolOutput { call_id: answered, content }
                    &&& answered == call_id
                    &&& shown_output(body, content)
                },
                ItemView::CustomToolCallOutput { call_id, output } => {
                    &&& said == history.last_assistant_text
                    &&& after == before.push(MessageView::ToolOutput { call_id, content: output })
                },
                _ => after == before && said == history.last_assistant_text,
            }
        }),
{
    let before = history.messages;
    let after = with_item(history, items, i, dialect).messages;
    reveal_strlit("\n");
    match items[i] {
        ItemView::Message { content, .. } => {
            lemma_words(content);
            lemma_shown_content(content);
        },
        ItemView::FunctionCallOutput { body, .. } => {
            assert(after.drop_last() =~= before);
            if let OutputBodyView::ContentItems(parts) = body {
                lemma_parts_shown(parts);
            }
        },
        _ => {
            if before.len() > 0 && after.len() == before.len() && after != before {
                assert(after.drop_last() =~= before.drop_last());
                let had = before.last().reasoning();
                if let Some(text) = had {
                    assert(text + "\n"@ =~= text.push('\n'));
                }
            }
        },
    }
}

/// The items are taken in one by one, every one of them and in order, behind the
/// instructions.
pub proof fn law_items_are_taken_in_one_by_one(
    instructions: Seq<char>,
    items: Seq<ItemView>,
    n: nat,
    dialect: ChatDialect,
)
    ensures
        history_of(instructions, items, 0, dialect).messages == seq![
            MessageView::Plain {
                role: "system"@,
                content: JsonView::Str(instructions),
                reasoning: None,
            },
        ],
        history_of(instructions, items, 0, dialect).last_assistant_text is None,
        history_of(instructions, items, n + 1, dialect) == with_item(
            history_of(instructions, items, n, dialect),
            items,
            n as int,
            dialect,
        ),
        chat_messages(instructions, items, dialect) == history_of(
            instructions,
            items,
            items.len(),
            dialect,
        ).messages,
{
}

/// Whether an item is a message that is said in the given role.
pub open spec fn is_said_by(item: ItemView, speaker: Seq<char>) -> bool {
    item is Message && item->Message_role == speaker
}

/// Whether an item takes a turn in the conversation.
pub open spec fn takes_turn(item: ItemView) -> bool {
    item is Message || item is FunctionCall || item is LocalShellCall || item is FunctionCallOutput
}

/// Whether the user took the last turn.
pub open spec fn user_has_last_word(items: Seq<ItemView>) -> bool {
    exists|k: int|
        {
            &&& 0 <= k < items.len()
            &&& #[trigger] is_said_by(items[k], "user"@)
            &&& forall|j: int| k < j < items.len() ==> !takes_turn(#[trigger] items[j])
        }
}

/// Whether the user speaks at `from` or later.
pub open spec fn user_speaks_from(items: Seq<ItemView>, from: int) -> bool {
    exists|k: int| from <= k < items.len() && 0 <= k && #[trigger] is_said_by(items[k], "user"@)
}

proof fn lemma_last_word(items: Seq<ItemView>)
    ensures
        (last_emitted_role(items) == Some("user"@)) == user_has_last_word(items),
    decreases items.len(),
{
    reveal_strlit("user");
    reveal_strlit("assistant");
    reveal_strlit("tool");
    assert("user"@.len() == 4);
    assert("assistant"@.len() == 9);
    assert("user"@[0] != "tool"@[0]);
    if items.len() > 0 {
        let fewer = items.drop_last();
        lemma_last_word(fewer);
        let last = items.last();
        if takes_turn(last) {
            if is_said_by(last, "user"@) {
                assert(is_said_by(items[items.len() - 1], "user"@));
                assert(user_has_last_word(items));
            } else if user_has_last_word(items) {
                let k = choose|k: int|
                    {
                        &&& 0 <= k < items.len()
                        &&& #[trigger] is_said_by(items[k], "user"@)
                        &&& forall|j: int| k < j < items.len() ==> !takes_turn(#[trigger] items[j])
                    };
                assert(k < items.len() - 1);
                assert(!takes_turn(items[items.len() - 1]));
            }
        } else {
            if user_has_last_word(fewer) {
                let k = choose|k: int|
                    {
                        &&& 0 <= k < fewer.len()
                        &&& #[trigger] is_said_by(fewer[k], "user"@)
                        &&& forall|j: int| k < j < fewer.len() ==> !takes_turn(#[trigger] fewer[j])
                    };
                assert(is_said_by(items[k], "user"@));
                assert forall|j: int| k < j < items.len() implies !takes_turn(
                    #[trigger] items[j],
                ) by {
                    if j < fewer.len() {
                        assert(items[j] == fewer[j]);
                    }
                }
            }
            if user_has_last_word(items) {
                let k = choose|k: int|
                    {
                        &&& 0 <= k < items.len()
                        &&& #[trigger] is_said_by(items[k], "user"@)
                        &&& forall|j: int| k < j < items.len() ==> !takes_turn(#[trigger] items[j])
                    };
                assert(k < items.len() - 1);
                assert(is_said_by(fewer[k], "user"@));
                assert forall|j: int| k < j < fewer.len() implies !takes_turn(
                    #[trigger] fewer[j],
                ) by {
                    assert(items[j] == fewer[j]);
                }
            }
        }
    }
}

proof fn lemma_user_speaks(items: Seq<ItemView>, from: int)
    requires
        from >= 0,
    ensures
        (last_user_index(items) >= from) == user_speaks_from(items, from),
    decreases items.len(),
{
    if items.len() > 0 {
        let fewer = items.drop_last();
        lemma_user_speaks(fewer, from);
        let last = items.len() - 1;
        if is_said_by(items.last(), "user"@) {
            if last >= from {
                assert(is_said_by(items[last], "user"@));
            }
        } else {
            if user_speaks_from(fewer, from) {
                let k = choose|k: int|
                    from <= k < fewer.len() && 0 <= k && #[trigger] is_said_by(fewer[k], "user"@);
                assert(is_said_by(items[k], "user"@));
            }
            if user_speaks_from(items, from) {
                let k = choose|k: int|
                    from <= k < items.len() && 0 <= k && #[trigger] is_said_by(items[k], "user"@);
                assert(is_said_by(fewer[k], "user"@));
            }
        }
    }
}

/// The words of a reasoning part.
pub open spec fn thought_in(part: ReasoningView) -> Seq<char> {
    match part {
        ReasoningView::ReasoningText(text) => text,
        ReasoningView::Text(text) => text,
    }
}

/// The words of reasoning, part after part.
pub open spec fn thought_of(parts: Seq<ReasoningView>) -> Seq<char>
    decreases parts.len(),
{
    if parts.len() == 0 {
        Seq::empty()
    } else {
        thought_of(parts.drop_last()) + thought_in(parts.last())
    }
}

proof fn lemma_thought(parts: Seq<ReasoningView>)
    ensures
        reasoning_parts_text(parts) == thought_of(parts),
    decreases parts.len(),
{
    if parts.len() > 0 {
        lemma_thought(parts.drop_last());
    }
}

/// What an item thinks: the words of reasoning in the clear that is more than
/// blank, and otherwise nothing.
pub open spec fn thought(item: ItemView) -> Option<Seq<char>> {
    if item is Reasoning && item->Reasoning_content is Some && trimmed(
        thought_of(item->Reasoning_content->0),
    ).len() > 0 {
        Some(thought_of(item->Reasoning_content->0))
    } else {
        None
    }
}

/// What was thought right before an item: reasoning that no text of the
/// assistant stands in front of, where the item is a text of the assistant, a
/// function call or a shell call.
pub open spec fn thought_before(items: Seq<ItemView>, i: int) -> Option<Seq<char>> {
    if i >= 1 && !(i >= 2 && is_said_by(items[i - 2], "assistant"@)) && (is_said_by(
        items[i],
        "assistant"@,
    ) || items[i] is FunctionCall || items[i] is LocalShellCall) {
        thought(items[i - 1])
    } else {
        None
    }
}

/// What was thought right after an item that is a text of the assistant.
pub open spec fn thought_after(items: Seq<ItemView>, i: int) -> Option<Seq<char>> {
    if i + 1 < items.len() && is_said_by(items[i], "assistant"@) {
        thought(items[i + 1])
    } else {
        None
    }
}

/// Reasoning goes back with the item beside it that it belongs to, what was
/// thought before the item in front of what was thought after it, and whole. It
/// does so while the assistant's turn goes on: not once the user has the last
/// word, nor where the user has spoken since.
pub proof fn law_reasoning_goes_back_with_its_neighbour(items: Seq<ItemView>, i: int)
    requires
        0 <= i < items.len(),
    ensures
        user_has_last_word(items) || user_speaks_from(items, i + 1) ==> anchored_reasoning(items, i)
            is None,
        !user_has_last_word(items) && !user_speaks_from(items, i + 1) ==> anchored_reasoning(
            items,
            i,
        ) == match (thought_before(items, i), thought_after(items, i)) {
            (Some(before), Some(after)) => Some(before + after),
            (Some(before), None) => Some(before),
            (None, after) => after,
        },
        (last_emitted_role(items) == Some("user"@)) == user_has_last_word(items),
{
    lemma_last_word(items);
    lemma_user_speaks(items, i + 1);
    lemma_user_speaks(items, i);
    if i >= 1 {
        lemma_user_speaks(items, i - 1);
        if let ItemView::Reasoning { content: Some(parts), .. } = items[i - 1] {
            lemma_thought(parts);
        }
    }
    if i + 1 < items.len() {
        if let ItemView::Reasoning { content: Some(parts), .. } = items[i + 1] {
            lemma_thought(parts);
        }
    }
    reveal_strlit("user");
    reveal_strlit("assistant");
    assert("user"@.len() == 4);
    assert("assistant"@.len() == 9);
    let before = reasoning_sent_with(items, i - 1, i);
    let after = reasoning_sent_with(items, i + 1, i);
    if !user_has_last_word(items) {
        if i >= 1 && items[i - 1] is Reasoning && thought_before(items, i) is Some {
            assert(user_speaks_from(items, i - 1) == user_speaks_from(items, i + 1)) by {
                if user_speaks_from(items, i - 1) {
                    let k = choose|k: int|
                        i - 1 <= k < items.len() && 0 <= k && #[trigger] is_said_by(
                            items[k],
                            "user"@,
                        );
                    assert(is_said_by(items[k], "user"@));
                    assert(k >= i + 1);
                }
                if user_speaks_from(items, i + 1) {
                    let k = choose|k: int|
                        i + 1 <= k < items.len() && 0 <= k && #[trigger] is_said_by(
                            items[k],
                            "user"@,
                        );
                    assert(is_said_by(items[k], "user"@));
                }
            }
        }
        if user_speaks_from(items, i + 1) {
            let k = choose|k: int|
                i + 1 <= k < items.len() && 0 <= k && #[trigger] is_said_by(items[k], "user"@);
            assert(is_said_by(items[k], "user"@));
            assert(user_speaks_from(items, i - 1));
        }
    }
}

/// Whatever a message is, with a text beside its calls or without one, its
/// reasoning goes out whole as `reasoning_content`, and a message without
/// reasoning has no such key. So do its role and what it shows.
pub proof fn law_messages_go_out_with_their_reasoning(message: MessageView)
    ensures
        message.json().text_field("reasoning_content"@) == message.reasoning(),
        message.json() matches JsonView::Object(fields) && {
            &&& fields.contains_key("reasoning_content"@) <==> message.reasoning() is Some
            &&& fields.contains_key("role"@)
            &&& fields["role"@] == JsonView::Str(message.role())
            &&& fields.contains_key("content"@)
            &&& fields.contains_key("tool_calls"@) <==> message is ToolCalls
            &&& fields.contains_key("tool_call_id"@) <==> message is ToolOutput
        },
{
    lemma_message_keys();
    assert(message.json()->Object_0.contains_key("reasoning_content"@)
        <==> message.reasoning() is Some);
}

proof fn lemma_message_keys()
    ensures
        "reasoning_content"@ != "role"@,
        "reasoning_content"@ != "content"@,
        "reasoning_content"@ != "tool_calls"@,
        "reasoning_content"@ != "tool_call_id"@,
        "role"@ != "content"@,
        "role"@ != "tool_calls"@,
        "role"@ != "tool_call_id"@,
        "content"@ != "tool_calls"@,
        "content"@ != "tool_call_id"@,
        "tool_calls"@ != "tool_call_id"@,
{
    reveal_strlit("reasoning_content");
    reveal_strlit("role");
    reveal_strlit("content");
    reveal_strlit("tool_calls");
    reveal_strlit("tool_call_id");
    assert("reasoning_content"@.len() == 17);
    assert("role"@.len() == 4);
    assert("content"@.len() == 7);
    assert("tool_calls"@.len() == 10);
    assert("tool_call_id"@.len() == 12);
}

/// What the JSON of a message binds, and nothing else: a plain message its role,
/// its content and its reasoning; a message that calls tools the assistant's
/// role, its text or null, its calls and its reasoning; an output the tool's
/// role, the call that it answers and its content.
pub proof fn law_messages_bind_what_they_hold(
    role: Seq<char>,
    content: JsonView,
    text: Option<Seq<char>>,
    calls: Seq<JsonView>,
    call_id: Seq<char>,
    words: Seq<char>,
)
    ensures
        (MessageView::Plain { role, content, reasoning: None }).json() == JsonView::Object(
            map!["role"@ => JsonView::Str(role), "content"@ => content],
        ),
        (MessageView::Plain { role, content, reasoning: Some(words) }).json() == JsonView::Object(
            map![
                "role"@ => JsonView::Str(role),
                "content"@ => content,
                "reasoning_content"@ => JsonView::Str(words),
            ],
        ),
        ({
            let shown = if text is Some {
                JsonView::Str(text->0)
            } else {
                JsonView::Null
            };
            &&& (MessageView::ToolCalls { content: text, tool_calls: calls, reasoning: None }).json()
                == JsonView::Object(
                map![
                    "role"@ => JsonView::Str("assistant"@),
                    "content"@ => shown,
                    "tool_calls"@ => JsonView::Array(calls),
                ],
            )
            &&& (MessageView::ToolCalls {
                content: text,
                tool_calls: calls,
                reasoning: Some(words),
            }).json() == JsonView::Object(
                map![
                    "role"@ => JsonView::Str("assistant"@),
                    "content"@ => shown,
                    "tool_calls"@ => JsonView::Array(calls),
                    "reasoning_content"@ => JsonView::Str(words),
                ],
            )
        }),
        (MessageView::ToolOutput { call_id, content }).json() == JsonView::Object(
            map![
                "role"@ => JsonView::Str("tool"@),
                "tool_call_id"@ => JsonView::Str(call_id),
                "content"@ => content,
            ],
        ),
        (MessageView::Plain { role, content, reasoning: text }).reasoning() == text,
        (MessageView::ToolCalls { content: Some(words), tool_calls: calls, reasoning: text }).reasoning()
            == text,
        (MessageView::ToolCalls { content: None, tool_calls: calls, reasoning: text }).reasoning()
            == text,
        (MessageView::ToolOutput { call_id, content }).reasoning() is None,
        (MessageView::Plain { role, content, reasoning: text }).role() == role,
{
}

/// A message is seen as what it holds, and messages go out one for one and in
/// order.
pub proof fn law_messages_are_seen_as_held(messages: Seq<ChatMessage>, i: int)
    requires
        0 <= i < messages.len(),
    ensures
        messages_view(messages).len() == messages.len(),
        messages_json(messages_view(messages)).len() == messages.len(),
        messages_json(messages_view(messages))[i] == messages_view(messages)[i].json(),
        match (messages[i], messages_view(messages)[i]) {
            (
                ChatMessage::Plain { role, content, reasoning },
                MessageView::Plain { role: r, content: c, reasoning: t },
            ) => {
                &&& r == role@
                &&& c == content@
                &&& reasoning is None <==> t is None
                &&& reasoning is Some ==> t->0 == reasoning->0@
            },
            (
                ChatMessage::ToolCalls { content, tool_calls, reasoning },
                MessageView::ToolCalls { content: c, tool_calls: calls, reasoning: t },
            ) => {
                &&& content is None <==> c is None
                &&& content is Some ==> c->0 == content->0@
                &&& calls.len() == tool_calls.len()
                &&& forall|k: int|
                    0 <= k < calls.len() ==> #[trigger] calls[k] == tool_calls[k]@
                &&& reasoning is None <==> t is None
                &&& reasoning is Some ==> t->0 == reasoning->0@
            },
            (
                ChatMessage::ToolOutput { call_id, content },
                MessageView::ToolOutput { call_id: id, content: c },
            ) => id == call_id@ && c == content@,
            _ => false,
        },
{
    if let ChatMessage::ToolCalls { tool_calls, .. } = messages[i] {
        crate::json::lemma_items_view(tool_calls@);
    }
}

/// The body of a request binds the model, every message in order, the tools, and
/// that the answer is streamed with its usage; and of a provider's extra fields
/// exactly those under a key that is not one of the reserved words.
pub proof fn law_bodies_bind_what_they_are_made_of(
    model: Seq<char>,
    messages: Seq<MessageView>,
    tools: Seq<JsonView>,
    extra: Map<Seq<char>, JsonView>,
    key: Seq<char>,
)
    ensures
        request_body(model, messages, tools, extra) matches JsonView::Object(fields) && {
            &&& fields.contains_key("model"@) && fields["model"@] == JsonView::Str(model)
            &&& fields.contains_key("messages"@) && fields["messages"@] == JsonView::Array(
                Seq::new(messages.len(), |i: int| messages[i].json()),
            )
            &&& fields.contains_key("tools"@) && fields["tools"@] == JsonView::Array(tools)
            &&& fields.contains_key("stream"@) && fields["stream"@] == JsonView::Bool(true)
            &&& fields.contains_key("stream_options"@) && fields["stream_options"@]
                == JsonView::Object(map!["include_usage"@ => JsonView::Bool(true)])
            &&& !fields.contains_key("tool_choice"@)
            &&& !fields.contains_key("temperature"@)
            &&& !fields.contains_key("top_p"@)
            &&& !fields.contains_key("max_tokens"@)
            &&& !fields.contains_key("max_completion_tokens"@)
            &&& !fields.contains_key("n"@)
            &&& !fields.contains_key("response_format"@)
            &&& !fields.contains_key("reasoning"@)
            &&& !fields.contains_key("reasoning_effort"@)
            &&& !reserved_words().contains(key) ==> {
                &&& fields.contains_key(key) <==> extra.contains_key(key)
                &&& extra.contains_key(key) ==> fields[key] == extra[key]
            }
        },
{
    reveal_strlit("model");
    reveal_strlit("messages");
    reveal_strlit("tools");
    reveal_strlit("stream");
    reveal_strlit("stream_options");
    reveal_strlit("tool_choice");
    reveal_strlit("temperature");
    reveal_strlit("top_p");
    reveal_strlit("max_tokens");
    reveal_strlit("max_completion_tokens");
    reveal_strlit("n");
    reveal_strlit("response_format");
    reveal_strlit("reasoning");
    reveal_strlit("reasoning_effort");
    assert("model"@.len() == 5 && "model"@[0] == 'm');
    assert("messages"@.len() == 8);
    assert("tools"@.len() == 5 && "tools"@[0] == 't');
    assert("stream"@.len() == 6);
    assert("stream_options"@.len() == 14);
    assert("tool_choice"@.len() == 11 && "tool_choice"@[1] == 'o');
    assert("temperature"@.len() == 11 && "temperature"@[1] == 'e');
    assert("top_p"@.len() == 5 && "top_p"@[2] == 'p');
    assert("tools"@[2] == 'o');
    assert("max_tokens"@.len() == 10);
    assert("max_completion_tokens"@.len() == 21);
    assert("n"@.len() == 1);
    assert("response_format"@.len() == 15);
    assert("reasoning"@.len() == 9);
    assert("reasoning_effort"@.len() == 16);
    assert(messages_json(messages) =~= Seq::new(messages.len(), |i: int| messages[i].json()));
    let words = reserved_words();
    if !words.contains(key) {
        assert(words[0] == "model"@);
        assert(words[1] == "messages"@);
        assert(words[2] == "tools"@);
        assert(words[3] == "tool_choice"@);
        assert(words[4] == "stream"@);
        assert(words[5] == "stream_options"@);
        assert(words[6] == "temperature"@);
        assert(words[7] == "top_p"@);
        assert(words[8] == "max_tokens"@);
        assert(words[9] == "max_completion_tokens"@);
        assert(words[10] == "n"@);
        assert(words[11] == "response_format"@);
        assert(words[12] == "reasoning"@);
        assert(words[13] == "reasoning_effort"@);
    }
}

/// The keys of a body that are the request's own.
pub open spec fn reserved_words() -> Seq<Seq<char>> {
    seq![
        "model"@,
        "messages"@,
        "tools"@,
        "tool_choice"@,
        "stream"@,
        "stream_options"@,
        "temperature"@,
        "top_p"@,
        "max_tokens"@,
        "max_completion_tokens"@,
        "n"@,
        "response_format"@,
        "reasoning"@,
        "reasoning_effort"@,
    ]
}

proof fn lemma_reserved_words(key: Seq<char>)
    ensures
        crate::request::is_reserved_key(key) == reserved_words().contains(key),
{
    let words = reserved_words();
    assert(words[0] == "model"@);
    assert(words[1] == "messages"@);
    assert(words[2] == "tools"@);
    assert(words[3] == "tool_choice"@);
    assert(words[4] == "stream"@);
    assert(words[5] == "stream_options"@);
    assert(words[6] == "temperature"@);
    assert(words[7] == "top_p"@);
    assert(words[8] == "max_tokens"@);
    assert(words[9] == "max_completion_tokens"@);
    assert(words[10] == "n"@);
    assert(words[11] == "response_format"@);
    assert(words[12] == "reasoning"@);
    assert(words[13] == "reasoning_effort"@);
}

/// The collisions of a provider's extra fields are the keys among them that are
/// reserved words, one more with each such field and in their order. Extra fields
/// that are not given bind nothing and collide with nothing.
pub proof fn law_collisions_are_the_reserved_words_given(
    fields: Seq<(String, Json)>,
    field: (String, Json),
    given: Vec<(String, Json)>,
    list: Seq<String>,
    text: String,
)
    ensures
        collisions(Some(&given)) == reserved_keys(given@),
        extra_fields(Some(&given)) == fields_view(given@),
        reserved_keys(Seq::empty()).len() == 0,
        reserved_words().contains(field.0@) ==> reserved_keys(fields.push(field)) == reserved_keys(
            fields,
        ).push(field.0@),
        !reserved_words().contains(field.0@) ==> reserved_keys(fields.push(field))
            == reserved_keys(fields),
        collisions(None).len() == 0,
        extra_fields(None) == Map::<Seq<char>, JsonView>::empty(),
        texts(Seq::empty()).len() == 0,
        texts(list.push(text)) == texts(list).push(text@),
{
    lemma_reserved_words(field.0@);
    assert(fields.push(field).drop_last() =~= fields);
    assert(texts(list.push(text)) =~= texts(list).push(text@));
}

} // verus!
