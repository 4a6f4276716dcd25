//! What holds of every chat request.

use vstd::prelude::*;

use crate::history::{
    chat_messages, content_text, custom_call_json, function_call_json, history_of,
    last_emitted_role, local_shell_call_json, output_content,
};
use crate::json::JsonView;
use crate::message::{with_tool_call, MessageView};
use crate::protocol::{ChatDialect, ItemView};
use crate::request::{core_body, is_reserved_key, permitted_extra, request_body};

verus! {

/// The roles that the wire layer itself writes are different words.
proof fn lemma_role_words()
    ensures
        "system"@ != "assistant"@,
        "system"@ != "developer"@,
        "system"@ != "latest_reminder"@,
        "tool"@ != "assistant"@,
        "tool"@ != "developer"@,
        "tool"@ != "latest_reminder"@,
        "assistant"@ != "developer"@,
        "assistant"@ != "latest_reminder"@,
{
    reveal_strlit("system");
    reveal_strlit("assistant");
    reveal_strlit("developer");
    reveal_strlit("latest_reminder");
    reveal_strlit("tool");
    assert("system"@.len() == 6);
    assert("assistant"@.len() == 9);
    assert("developer"@.len() == 9);
    assert("latest_reminder"@.len() == 15);
    assert("tool"@.len() == 4);
    assert("assistant"@[0] != "developer"@[0]);
}

/// The system message that a request starts with.
pub open spec fn system_message(instructions: Seq<char>) -> MessageView {
    MessageView::Plain {
        role: "system"@,
        content: JsonView::Str(instructions),
        reasoning: None,
    }
}

proof fn lemma_history_starts_with_instructions(
    instructions: Seq<char>,
    items: Seq<ItemView>,
    n: nat,
    dialect: ChatDialect,
)
    ensures
        history_of(instructions, items, n, dialect).messages.len() >= 1,
        history_of(instructions, items, n, dialect).messages[0] == system_message(instructions),
    decreases n,
{
    if n > 0 {
        lemma_history_starts_with_instructions(instructions, items, (n - 1) as nat, dialect);
    }
}

/// The first message of every request is the system message with the
/// instructions.
pub proof fn law_instructions_come_first(
    instructions: Seq<char>,
    items: Seq<ItemView>,
    dialect: ChatDialect,
)
    ensures
        chat_messages(instructions, items, dialect).len() >= 1,
        chat_messages(instructions, items, dialect)[0] == system_message(instructions),
{
    lemma_history_starts_with_instructions(instructions, items, items.len(), dialect);
}

/// No message that calls tools and has no text is followed by a message of the
/// assistant: it is the last one, or what follows is of another role.
pub open spec fn open_calls_are_answered(messages: Seq<MessageView>) -> bool {
    forall|i: int|
        0 <= i < messages.len() - 1 && #[trigger] messages[i].is_open_call() ==> messages[i
            + 1].role() != "assistant"@
}

proof fn lemma_history_answers_open_calls(
    instructions: Seq<char>,
    items: Seq<ItemView>,
    n: nat,
    dialect: ChatDialect,
)
    ensures
        open_calls_are_answered(history_of(instructions, items, n, dialect).messages),
    decreases n,
{
    if n > 0 {
        lemma_role_words();
        lemma_history_answers_open_calls(instructions, items, (n - 1) as nat, dialect);
        let before = history_of(instructions, items, (n - 1) as nat, dialect).messages;
        let after = history_of(instructions, items, n, dialect).messages;
        assert forall|i: int| 0 <= i < after.len() - 1 && #[trigger] after[i].is_open_call() implies after[i
            + 1].role() != "assistant"@ by {
            if i < before.len() - 1 {
                assert(before[i].is_open_call());
            }
        }
    }
}

/// In no request is an assistant message with tool calls and without text
/// followed by another assistant message, which the protocol refuses.
pub proof fn law_open_calls_are_answered(
    instructions: Seq<char>,
    items: Seq<ItemView>,
    dialect: ChatDialect,
)
    ensures
        open_calls_are_answered(chat_messages(instructions, items, dialect)),
{
    lemma_history_answers_open_calls(instructions, items, items.len(), dialect);
}

proof fn lemma_history_roles(
    instructions: Seq<char>,
    items: Seq<ItemView>,
    n: nat,
    dialect: ChatDialect,
)
    ensures
        forall|i: int|
            0 <= i < history_of(instructions, items, n, dialect).messages.len() ==> ({
                let role = (#[trigger] history_of(
                    instructions,
                    items,
                    n,
                    dialect,
                ).messages[i]).role();
                role != "developer"@ && role != "latest_reminder"@
            }),
    decreases n,
{
    lemma_role_words();
    if n > 0 {
        lemma_history_roles(instructions, items, (n - 1) as nat, dialect);
        let before = history_of(instructions, items, (n - 1) as nat, dialect).messages;
        let after = history_of(instructions, items, n, dialect).messages;
        assert forall|i: int| 0 <= i < after.len() implies ({
            let role = (#[trigger] after[i]).role();
            role != "developer"@ && role != "latest_reminder"@
        }) by {
            if i < before.len() {
                let known = before[i].role();
                assert(known != "developer"@ && known != "latest_reminder"@);
            }
        }
    }
}

/// No message goes out under the roles `developer` and `latest_reminder`, which
/// the protocol does not know.
pub proof fn law_internal_roles_stay_inside(
    instructions: Seq<char>,
    items: Seq<ItemView>,
    dialect: ChatDialect,
    i: int,
)
    requires
        0 <= i < chat_messages(instructions, items, dialect).len(),
    ensures
        chat_messages(instructions, items, dialect)[i].role() != "developer"@,
        chat_messages(instructions, items, dialect)[i].role() != "latest_reminder"@,
{
    lemma_history_roles(instructions, items, items.len(), dialect);
    let role = history_of(instructions, items, items.len(), dialect).messages[i].role();
}

proof fn lemma_history_without_reasoning(
    instructions: Seq<char>,
    items: Seq<ItemView>,
    n: nat,
    dialect: ChatDialect,
)
    requires
        dialect == ChatDialect::Strict || last_emitted_role(items) == Some("user"@),
    ensures
        forall|i: int|
            0 <= i < history_of(instructions, items, n, dialect).messages.len()
                ==> (#[trigger] history_of(
                instructions,
                items,
                n,
                dialect,
            ).messages[i]).reasoning() is None,
    decreases n,
{
    if n > 0 {
        lemma_history_without_reasoning(instructions, items, (n - 1) as nat, dialect);
        let before = history_of(instructions, items, (n - 1) as nat, dialect).messages;
        let after = history_of(instructions, items, n, dialect).messages;
        assert forall|i: int| 0 <= i < after.len() implies (#[trigger] after[i]).reasoning() is None by {
            if i < before.len() {
                assert(before[i].reasoning() is None);
            }
        }
    }
}

/// No message carries reasoning in the strict dialect, nor in any dialect where
/// the conversation ends with the user's word.
pub proof fn law_reasoning_is_sent_within_a_thinking_turn_only(
    instructions: Seq<char>,
    items: Seq<ItemView>,
    dialect: ChatDialect,
    i: int,
)
    requires
        dialect == ChatDialect::Strict || last_emitted_role(items) == Some("user"@),
        0 <= i < chat_messages(instructions, items, dialect).len(),
    ensures
        chat_messages(instructions, items, dialect)[i].reasoning() is None,
{
    lemma_history_without_reasoning(instructions, items, items.len(), dialect);
    let reasoning = history_of(instructions, items, items.len(), dialect).messages[i].reasoning();
}

/// The tool call that an item is, where it is one.
pub open spec fn call_of(item: ItemView) -> Option<JsonView> {
    match item {
        ItemView::FunctionCall { name, arguments, call_id, .. } => Some(
            function_call_json(call_id, name, arguments),
        ),
        ItemView::LocalShellCall { id, status, action, .. } => Some(
            local_shell_call_json(id, status, action),
        ),
        ItemView::CustomToolCall { id, name, input, .. } => Some(custom_call_json(id, name, input)),
        _ => None,
    }
}

/// The tool calls of a conversation, in order.
pub open spec fn calls_of(items: Seq<ItemView>) -> Seq<JsonView>
    decreases items.len(),
{
    if items.len() == 0 {
        Seq::empty()
    } else {
        match call_of(items.last()) {
            Some(call) => calls_of(items.drop_last()).push(call),
            None => calls_of(items.drop_last()),
        }
    }
}

/// The tool calls of messages, in order.
pub open spec fn calls_in(messages: Seq<MessageView>) -> Seq<JsonView>
    decreases messages.len(),
{
    if messages.len() == 0 {
        Seq::empty()
    } else {
        match messages.last() {
            MessageView::ToolCalls { tool_calls, .. } => calls_in(messages.drop_last())
                + tool_calls,
            _ => calls_in(messages.drop_last()),
        }
    }
}

proof fn lemma_calls_after_tool_call(
    messages: Seq<MessageView>,
    call: JsonView,
    reasoning: Option<Seq<char>>,
)
    ensures
        calls_in(with_tool_call(messages, call, reasoning)) == calls_in(messages).push(call),
{
    let after = with_tool_call(messages, call, reasoning);
    if messages.len() > 0 && messages.last().is_open_call() {
        assert(after.drop_last() =~= messages.drop_last());
        assert(calls_in(after) =~= calls_in(messages).push(call));
    } else {
        assert(after.drop_last() =~= messages);
        assert(calls_in(after) =~= calls_in(messages).push(call));
    }
}

proof fn lemma_calls_after_message(messages: Seq<MessageView>, message: MessageView)
    requires
        !(message is ToolCalls),
    ensures
        calls_in(messages.push(message)) == calls_in(messages),
{
    assert(messages.push(message).drop_last() =~= messages);
}

proof fn lemma_history_keeps_calls(
    instructions: Seq<char>,
    items: Seq<ItemView>,
    n: nat,
    dialect: ChatDialect,
)
    requires
        n <= items.len(),
    ensures
        calls_in(history_of(instructions, items, n, dialect).messages) == calls_of(
            items.take(n as int),
        ),
    decreases n,
{
    if n == 0 {
        let first = history_of(instructions, items, 0, dialect).messages;
        assert(first.drop_last() =~= Seq::empty());
        reveal_with_fuel(calls_in, 2);
        assert(calls_in(first) =~= Seq::empty());
        assert(items.take(0) =~= Seq::empty());
    } else {
        lemma_history_keeps_calls(instructions, items, (n - 1) as nat, dialect);
        let before = history_of(instructions, items, (n - 1) as nat, dialect);
        let after = history_of(instructions, items, n, dialect);
        let item = items[n - 1];
        assert(items.take(n as int).drop_last() =~= items.take(n - 1));
        assert(items.take(n as int).last() == item);
        match call_of(item) {
            Some(call) => {
                let reasoning = crate::message::carried_reasoning(
                    dialect,
                    crate::history::anchored_reasoning(items, n - 1),
                );
                lemma_calls_after_tool_call(before.messages, call, reasoning);
            },
            None => {
                if after.messages.len() > before.messages.len() {
                    assert(after.messages =~= before.messages.push(after.messages.last()));
                    lemma_calls_after_message(before.messages, after.messages.last());
                } else if after.messages != before.messages {
                    assert(after.messages.drop_last() =~= before.messages.drop_last());
                }
            },
        }
    }
}

/// Every tool call of the conversation goes out once, and in order.
pub proof fn law_tool_calls_are_kept(
    instructions: Seq<char>,
    items: Seq<ItemView>,
    dialect: ChatDialect,
)
    ensures
        calls_in(chat_messages(instructions, items, dialect)) == calls_of(items),
{
    lemma_history_keeps_calls(instructions, items, items.len(), dialect);
    assert(items.take(items.len() as int) =~= items);
}

/// The calls of the items from `from` on, `k` in number.
pub open spec fn calls_between(items: Seq<ItemView>, from: int, k: nat) -> Seq<JsonView> {
    Seq::new(k, |j: int| call_of(items[from + j])->0)
}

/// Tool calls that follow one another go out in one assistant message, in
/// order, unless the message before them already takes calls.
pub proof fn law_consecutive_calls_share_a_message(
    instructions: Seq<char>,
    items: Seq<ItemView>,
    from: nat,
    k: nat,
    dialect: ChatDialect,
)
    requires
        k >= 1,
        from + k <= items.len(),
        forall|j: int| from <= j < from + k ==> call_of(#[trigger] items[j]) is Some,
        !history_of(instructions, items, from, dialect).messages.last().is_open_call(),
    ensures
        ({
            let before = history_of(instructions, items, from, dialect).messages;
            let after = history_of(instructions, items, from + k, dialect).messages;
            &&& after.len() == before.len() + 1
            &&& after.drop_last() == before
            &&& after.last().is_open_call()
            &&& after.last()->tool_calls == calls_between(items, from as int, k)
        }),
    decreases k,
{
    let before = history_of(instructions, items, from, dialect).messages;
    let after = history_of(instructions, items, from + k, dialect).messages;
    let step = history_of(instructions, items, (from + k - 1) as nat, dialect).messages;
    assert(call_of(items[from + k - 1]) is Some);
    let call = call_of(items[from + k - 1])->0;
    if k == 1 {
        assert(after.drop_last() =~= before);
        assert(after.last()->tool_calls =~= calls_between(items, from as int, k));
    } else {
        law_consecutive_calls_share_a_message(instructions, items, from, (k - 1) as nat, dialect);
        assert(after.drop_last() =~= step.drop_last());
        assert(calls_between(items, from as int, k) =~= calls_between(
            items,
            from as int,
            (k - 1) as nat,
        ).push(call));
    }
}

/// The tool outputs of a conversation, in order: the call that each answers,
/// and its content.
pub open spec fn outputs_of(items: Seq<ItemView>) -> Seq<(Seq<char>, JsonView)>
    decreases items.len(),
{
    if items.len() == 0 {
        Seq::empty()
    } else {
        match items.last() {
            ItemView::FunctionCallOutput { call_id, body, .. } => outputs_of(
                items.drop_last(),
            ).push((call_id, output_content(body))),
            ItemView::CustomToolCallOutput { call_id, output } => outputs_of(
                items.drop_last(),
            ).push((call_id, output)),
            _ => outputs_of(items.drop_last()),
        }
    }
}

/// The tool outputs of messages, in order.
pub open spec fn outputs_in(messages: Seq<MessageView>) -> Seq<(Seq<char>, JsonView)>
    decreases messages.len(),
{
    if messages.len() == 0 {
        Seq::empty()
    } else {
        match messages.last() {
            MessageView::ToolOutput { call_id, content } => outputs_in(messages.drop_last()).push(
                (call_id, content),
            ),
            _ => outputs_in(messages.drop_last()),
        }
    }
}

proof fn lemma_history_keeps_outputs(
    instructions: Seq<char>,
    items: Seq<ItemView>,
    n: nat,
    dialect: ChatDialect,
)
    requires
        n <= items.len(),
    ensures
        outputs_in(history_of(instructions, items, n, dialect).messages) == outputs_of(
            items.take(n as int),
        ),
    decreases n,
{
    if n == 0 {
        let first = history_of(instructions, items, 0, dialect).messages;
        assert(first.drop_last() =~= Seq::empty());
        reveal_with_fuel(outputs_in, 2);
        assert(outputs_in(first) =~= Seq::empty());
        assert(items.take(0) =~= Seq::empty());
    } else {
        lemma_history_keeps_outputs(instructions, items, (n - 1) as nat, dialect);
        let before = history_of(instructions, items, (n - 1) as nat, dialect).messages;
        let after = history_of(instructions, items, n, dialect).messages;
        assert(items.take(n as int).drop_last() =~= items.take(n - 1));
        assert(items.take(n as int).last() == items[n - 1]);
        if after.len() > before.len() {
            assert(after.drop_last() =~= before);
        } else if after != before {
            assert(after.drop_last() =~= before.drop_last());
        }
    }
}

/// Every tool output of the conversation goes out once, in order, and names the
/// call that it answers.
pub proof fn law_tool_outputs_are_kept(
    instructions: Seq<char>,
    items: Seq<ItemView>,
    dialect: ChatDialect,
)
    ensures
        outputs_in(chat_messages(instructions, items, dialect)) == outputs_of(items),
{
    lemma_history_keeps_outputs(instructions, items, items.len(), dialect);
    assert(items.take(items.len() as int) =~= items);
}

/// What the assistant says in a conversation, a text that repeats the one
/// before it left out.
pub open spec fn said_in_conversation(items: Seq<ItemView>) -> Seq<Seq<char>>
    decreases items.len(),
{
    if items.len() == 0 {
        Seq::empty()
    } else {
        let said = said_in_conversation(items.drop_last());
        match items.last() {
            ItemView::Message { role, content, .. } => if role == "assistant"@ && !(said.len() > 0
                && said.last() == content_text(content)) {
                said.push(content_text(content))
            } else {
                said
            },
            _ => said,
        }
    }
}

/// What the assistant says in messages.
pub open spec fn said_in_messages(messages: Seq<MessageView>) -> Seq<Seq<char>>
    decreases messages.len(),
{
    if messages.len() == 0 {
        Seq::empty()
    } else {
        let said = said_in_messages(messages.drop_last());
        match messages.last() {
            MessageView::Plain { role, content, .. } => if role == "assistant"@ {
                said.push(content->Str_0)
            } else {
                said
            },
            MessageView::ToolCalls { content: Some(text), .. } => said.push(text),
            _ => said,
        }
    }
}

proof fn lemma_history_keeps_assistant_texts(
    instructions: Seq<char>,
    items: Seq<ItemView>,
    n: nat,
    dialect: ChatDialect,
)
    requires
        n <= items.len(),
    ensures
        ({
            let history = history_of(instructions, items, n, dialect);
            let said = said_in_conversation(items.take(n as int));
            &&& said_in_messages(history.messages) == said
            &&& match history.last_assistant_text {
                Some(text) => said.len() > 0 && said.last() == text,
                None => said.len() == 0,
            }
        }),
    decreases n,
{
    lemma_role_words();
    if n == 0 {
        let first = history_of(instructions, items, 0, dialect).messages;
        assert(first.drop_last() =~= Seq::empty());
        reveal_with_fuel(said_in_messages, 2);
        assert(said_in_messages(first) =~= Seq::empty());
        assert(items.take(0) =~= Seq::empty());
    } else {
        lemma_history_keeps_assistant_texts(instructions, items, (n - 1) as nat, dialect);
        let before = history_of(instructions, items, (n - 1) as nat, dialect).messages;
        let after = history_of(instructions, items, n, dialect).messages;
        assert(items.take(n as int).drop_last() =~= items.take(n - 1));
        assert(items.take(n as int).last() == items[n - 1]);
        if after.len() > before.len() {
            assert(after.drop_last() =~= before);
        } else if after != before {
            assert(after.drop_last() =~= before.drop_last());
        }
    }
}

/// Everything that the assistant said goes out once and in order, but for a
/// text that repeats the one before it.
pub proof fn law_assistant_texts_are_kept(
    instructions: Seq<char>,
    items: Seq<ItemView>,
    dialect: ChatDialect,
)
    ensures
        said_in_messages(chat_messages(instructions, items, dialect)) == said_in_conversation(
            items,
        ),
{
    lemma_history_keeps_assistant_texts(instructions, items, items.len(), dialect);
    assert(items.take(items.len() as int) =~= items);
}

/// A provider's extra fields change nothing under a reserved key: what the
/// request says of the model, the messages, the tools and the stream stands,
/// and no other reserved key comes in.
pub proof fn law_reserved_keys_are_protected(
    model: Seq<char>,
    messages: Seq<MessageView>,
    tools: Seq<JsonView>,
    extra: Map<Seq<char>, JsonView>,
    key: Seq<char>,
)
    requires
        is_reserved_key(key),
    ensures
        request_body(model, messages, tools, extra).field(key) == JsonView::Object(
            core_body(model, messages, tools),
        ).field(key),
{
}

/// A provider's extra field under any other key is in the body as given, and a
/// key that is neither reserved nor given is not in it.
pub proof fn law_permitted_keys_are_taken_over(
    model: Seq<char>,
    messages: Seq<MessageView>,
    tools: Seq<JsonView>,
    extra: Map<Seq<char>, JsonView>,
    key: Seq<char>,
)
    requires
        !is_reserved_key(key),
    ensures
        request_body(model, messages, tools, extra).field(key) == JsonView::Object(extra).field(
            key,
        ),
{
}

/// Without extra fields the body is the request's own.
pub proof fn law_no_extra_fields_change_nothing(
    model: Seq<char>,
    messages: Seq<MessageView>,
    tools: Seq<JsonView>,
)
    ensures
        request_body(model, messages, tools, Map::empty()) == JsonView::Object(
            core_body(model, messages, tools),
        ),
{
    assert(core_body(model, messages, tools).union_prefer_right(permitted_extra(Map::empty()))
        =~= core_body(model, messages, tools));
}

} // verus!
