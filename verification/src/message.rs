//! The messages of a chat request.

use vstd::prelude::*;

use crate::json::{insert_field, items_view, lemma_items_view, Json, JsonView};
use crate::protocol::{opt_text, ChatDialect};

verus! {

/// A message of a chat request.
#[allow(inconsistent_fields)]
pub enum ChatMessage {
    /// A message of any role that is a text or a list of parts.
    Plain { role: String, content: Json, reasoning: Option<String> },
    /// An assistant message that calls tools, with the text that goes along.
    ToolCalls { content: Option<String>, tool_calls: Vec<Json>, reasoning: Option<String> },
    /// What a tool answered.
    ToolOutput { call_id: String, content: Json },
}

/// What a message is.
#[allow(inconsistent_fields)]
#[verifier::ext_equal]
pub enum MessageView {
    Plain { role: Seq<char>, content: JsonView, reasoning: Option<Seq<char>> },
    ToolCalls {
        content: Option<Seq<char>>,
        tool_calls: Seq<JsonView>,
        reasoning: Option<Seq<char>>,
    },
    ToolOutput { call_id: Seq<char>, content: JsonView },
}

impl ChatMessage {
    pub open spec fn view(&self) -> MessageView {
        match self {
            ChatMessage::Plain { role, content, reasoning } => MessageView::Plain {
                role: role@,
                content: content@,
                reasoning: opt_text(*reasoning),
            },
            ChatMessage::ToolCalls { content, tool_calls, reasoning } => MessageView::ToolCalls {
                content: opt_text(*content),
                tool_calls: items_view(tool_calls@),
                reasoning: opt_text(*reasoning),
            },
            ChatMessage::ToolOutput { call_id, content } => MessageView::ToolOutput {
                call_id: call_id@,
                content: content@,
            },
        }
    }
}

/// The messages, in order.
pub open spec fn messages_view(messages: Seq<ChatMessage>) -> Seq<MessageView> {
    messages.map_values(|message: ChatMessage| message@)
}

impl MessageView {
    /// The role under which the message goes out.
    pub open spec fn role(self) -> Seq<char> {
        match self {
            MessageView::Plain { role, .. } => role,
            MessageView::ToolCalls { .. } => "assistant"@,
            MessageView::ToolOutput { .. } => "tool"@,
        }
    }

    /// The reasoning that goes along with the message.
    pub open spec fn reasoning(self) -> Option<Seq<char>> {
        match self {
            MessageView::Plain { reasoning, .. } => reasoning,
            MessageView::ToolCalls { reasoning, .. } => reasoning,
            MessageView::ToolOutput { .. } => None,
        }
    }

    /// Whether the message calls tools and carries no text yet.
    pub open spec fn is_open_call(self) -> bool {
        self matches MessageView::ToolCalls { content: None, .. }
    }

    /// The message as JSON.
    pub open spec fn json(self) -> JsonView {
        match self {
            MessageView::Plain { role, content, reasoning } => JsonView::Object(
                with_reasoning(
                    Map::<Seq<char>, JsonView>::empty().insert("role"@, JsonView::Str(role)).insert(
                        "content"@,
                        content,
                    ),
                    reasoning,
                ),
            ),
            MessageView::ToolCalls { content, tool_calls, reasoning } => JsonView::Object(
                with_reasoning(
                    Map::<Seq<char>, JsonView>::empty().insert(
                        "role"@,
                        JsonView::Str("assistant"@),
                    ).insert(
                        "content"@,
                        match content {
                            Some(text) => JsonView::Str(text),
                            None => JsonView::Null,
                        },
                    ).insert("tool_calls"@, JsonView::Array(tool_calls)),
                    reasoning,
                ),
            ),
            MessageView::ToolOutput { call_id, content } => JsonView::Object(
                Map::<Seq<char>, JsonView>::empty().insert("role"@, JsonView::Str("tool"@)).insert(
                    "tool_call_id"@,
                    JsonView::Str(call_id),
                ).insert("content"@, content),
            ),
        }
    }
}

/// The bindings of a message with its reasoning, where there is some.
pub open spec fn with_reasoning(
    fields: Map<Seq<char>, JsonView>,
    reasoning: Option<Seq<char>>,
) -> Map<Seq<char>, JsonView> {
    match reasoning {
        Some(text) => fields.insert("reasoning_content"@, JsonView::Str(text)),
        None => fields,
    }
}

/// The messages as JSON, in order.
pub open spec fn messages_json(messages: Seq<MessageView>) -> Seq<JsonView> {
    messages.map_values(|message: MessageView| message.json())
}

fn insert_reasoning(fields: &mut Vec<(String, Json)>, reasoning: &Option<String>)
    ensures
        crate::json::fields_view(final(fields)@) == with_reasoning(
            crate::json::fields_view(old(fields)@),
            opt_text(*reasoning),
        ),
{
    match reasoning {
        Some(text) => {
            insert_field(fields, "reasoning_content".to_owned(), Json::Str(text.clone()));
        },
        None => {},
    }
}

impl ChatMessage {
    /// The message as JSON.
    pub fn into_json(self) -> (result: Json)
        ensures
            result@ == self@.json(),
    {
        let mut fields: Vec<(String, Json)> = Vec::new();
        match self {
            ChatMessage::Plain { role, content, reasoning } => {
                insert_field(&mut fields, "role".to_owned(), Json::Str(role));
                insert_field(&mut fields, "content".to_owned(), content);
                insert_reasoning(&mut fields, &reasoning);
            },
            ChatMessage::ToolCalls { content, tool_calls, reasoning } => {
                insert_field(&mut fields, "role".to_owned(), Json::string("assistant"));
                insert_field(&mut fields, "content".to_owned(), Json::optional_string(&content));
                insert_field(&mut fields, "tool_calls".to_owned(), Json::Array(tool_calls));
                insert_reasoning(&mut fields, &reasoning);
            },
            ChatMessage::ToolOutput { call_id, content } => {
                insert_field(&mut fields, "role".to_owned(), Json::string("tool"));
                insert_field(&mut fields, "tool_call_id".to_owned(), Json::Str(call_id));
                insert_field(&mut fields, "content".to_owned(), content);
            },
        }
        Json::Object(fields)
    }
}

/// The reasoning that a dialect lets through.
pub open spec fn carried_reasoning(
    dialect: ChatDialect,
    reasoning: Option<Seq<char>>,
) -> Option<Seq<char>> {
    match dialect {
        ChatDialect::Strict => None,
        ChatDialect::ThinkingReasoningContent => reasoning,
    }
}

/// Reasoning that comes on top of reasoning goes on a new line.
pub open spec fn joined_reasoning(
    existing: Option<Seq<char>>,
    added: Option<Seq<char>>,
) -> Option<Seq<char>> {
    match (existing, added) {
        (Some(e), Some(a)) => Some(
            if e.len() == 0 {
                a
            } else {
                e + "\n"@ + a
            },
        ),
        (None, Some(a)) => Some(a),
        (_, None) => existing,
    }
}

/// The messages after one more tool call: it joins the calls of the last
/// message where that one is an open call, and opens a message elsewhere.
pub open spec fn with_tool_call(
    messages: Seq<MessageView>,
    tool_call: JsonView,
    reasoning: Option<Seq<char>>,
) -> Seq<MessageView> {
    if messages.len() > 0 && messages.last().is_open_call() {
        messages.drop_last().push(
            MessageView::ToolCalls {
                content: None,
                tool_calls: messages.last()->tool_calls.push(tool_call),
                reasoning: joined_reasoning(messages.last().reasoning(), reasoning),
            },
        )
    } else {
        messages.push(
            MessageView::ToolCalls { content: None, tool_calls: seq![tool_call], reasoning },
        )
    }
}

fn join_reasoning(existing: Option<String>, added: Option<&str>) -> (result: Option<String>)
    ensures
        opt_text(result) == joined_reasoning(opt_text(existing), crate::json::text_view(added)),
{
    match (existing, added) {
        (Some(mut text), Some(more)) => {
            if !text.as_str().is_empty() {
                text.append("\n");
                text.append(more);
            } else {
                text.append(more);
                assert(text@ =~= more@);
            }
            Some(text)
        },
        (None, Some(more)) => Some(more.to_owned()),
        (existing, None) => existing,
    }
}

/// Adds a tool call to the messages, as `with_tool_call` says. The Chat
/// Completions protocol wants the calls of one turn in a single assistant
/// message.
pub fn push_tool_call_message(
    messages: &mut Vec<ChatMessage>,
    tool_call: Json,
    reasoning: Option<&str>,
    dialect: ChatDialect,
)
    ensures
        messages_view(final(messages)@) == with_tool_call(
            messages_view(old(messages)@),
            tool_call@,
            carried_reasoning(dialect, crate::json::text_view(reasoning)),
        ),
{
    let ghost before = messages@;
    let carried = match dialect {
        ChatDialect::Strict => None,
        ChatDialect::ThinkingReasoningContent => reasoning,
    };
    let last = messages.pop();
    proof {
        if before.len() > 0 {
            assert(messages_view(before).drop_last() =~= messages_view(messages@));
            assert(messages_view(before).last() == before.last()@);
        }
    }
    match last {
        Some(ChatMessage::ToolCalls { content: None, mut tool_calls, reasoning: existing }) => {
            let ghost calls = tool_calls@;
            let ghost kept = messages@;
            let reasoning = join_reasoning(existing, carried);
            tool_calls.push(tool_call);
            proof {
                lemma_items_view(calls);
                lemma_items_view(tool_calls@);
                assert(items_view(tool_calls@) =~= items_view(calls).push(tool_call@));
            }
            messages.push(ChatMessage::ToolCalls { content: None, tool_calls, reasoning });
            assert(messages_view(messages@) =~= messages_view(kept).push(messages@.last()@));
        },
        other => {
            match other {
                Some(message) => {
                    messages.push(message);
                },
                None => {},
            }
            assert(messages@ =~= before);
            let mut tool_calls: Vec<Json> = Vec::new();
            tool_calls.push(tool_call);
            proof {
                lemma_items_view(tool_calls@);
                assert(items_view(tool_calls@) =~= seq![tool_call@]);
            }
            let reasoning = match carried {
                Some(text) => Some(text.to_owned()),
                None => None,
            };
            messages.push(ChatMessage::ToolCalls { content: None, tool_calls, reasoning });
            assert(messages_view(messages@) =~= messages_view(before).push(messages@.last()@));
        },
    }
}

} // verus!
