//! How a conversation becomes the messages of a chat request.

use vstd::prelude::*;

use crate::json::{insert_field, items_view, lemma_items_view, Json, JsonView};
use crate::message::{
    carried_reasoning, messages_view, push_tool_call_message, with_tool_call, ChatMessage,
    MessageView,
};
use crate::protocol::{
    conversation, opt_text, ChatDialect, ContentItem, ContentView, FunctionCallOutputBody,
    FunctionCallOutputContentItem, FunctionCallOutputPayload, ItemView, OutputBodyView,
    OutputPartView, ReasoningItemContent, ReasoningView, ResponseItem,
};
use crate::text::{same_text, trim_text, trimmed};

verus! {

/// The role under which an item shows up in the conversation, where it does.
pub open spec fn emitted_role(item: ItemView) -> Option<Seq<char>> {
    match item {
        ItemView::Message { role, .. } => Some(role),
        ItemView::FunctionCall { .. } => Some("assistant"@),
        ItemView::LocalShellCall { .. } => Some("assistant"@),
        ItemView::FunctionCallOutput { .. } => Some("tool"@),
        _ => None,
    }
}

/// The role of the last item that has one.
pub open spec fn last_emitted_role(items: Seq<ItemView>) -> Option<Seq<char>>
    decreases items.len(),
{
    if items.len() == 0 {
        None
    } else if emitted_role(items.last()) is Some {
        emitted_role(items.last())
    } else {
        last_emitted_role(items.drop_last())
    }
}

/// Whether an item is a message of the given role.
pub open spec fn is_message_of(item: ItemView, wanted: Seq<char>) -> bool {
    item matches ItemView::Message { role, .. } && role == wanted
}

/// The place of the last user message, and -1 where there is none.
pub open spec fn last_user_index(items: Seq<ItemView>) -> int
    decreases items.len(),
{
    if items.len() == 0 {
        -1
    } else if is_message_of(items.last(), "user"@) {
        items.len() - 1
    } else {
        last_user_index(items.drop_last())
    }
}

/// The text of a reasoning part.
pub open spec fn reasoning_part_text(part: ReasoningView) -> Seq<char> {
    match part {
        ReasoningView::ReasoningText(text) => text,
        ReasoningView::Text(text) => text,
    }
}

/// The texts of reasoning parts, one after the other.
pub open spec fn reasoning_parts_text(parts: Seq<ReasoningView>) -> Seq<char>
    decreases parts.len(),
{
    if parts.len() == 0 {
        Seq::empty()
    } else {
        reasoning_parts_text(parts.drop_last()) + reasoning_part_text(parts.last())
    }
}

/// The reasoning that an item holds, where it is more than blank.
pub open spec fn reasoning_text(item: ItemView) -> Option<Seq<char>> {
    match item {
        ItemView::Reasoning { content: Some(parts), .. } => if trimmed(
            reasoning_parts_text(parts),
        ).len() > 0 {
            Some(reasoning_parts_text(parts))
        } else {
            None
        },
        _ => None,
    }
}

/// Whether reasoning can travel with an item that comes after it.
pub open spec fn takes_reasoning_before(item: ItemView) -> bool {
    ||| item is FunctionCall
    ||| item is LocalShellCall
    ||| is_message_of(item, "assistant"@)
}

/// The item that the reasoning at `i` travels with: the assistant message
/// right before it, or else the assistant message or call right after it.
pub open spec fn anchor_of(items: Seq<ItemView>, i: int) -> Option<int> {
    if i > 0 && is_message_of(items[i - 1], "assistant"@) {
        Some(i - 1)
    } else if i + 1 < items.len() && takes_reasoning_before(items[i + 1]) {
        Some(i + 1)
    } else {
        None
    }
}

/// The reasoning at `i` that travels with the item at `anchor`: reasoning is
/// sent back only while a turn is going on, and only that turn's.
pub open spec fn reasoning_sent_with(items: Seq<ItemView>, i: int, anchor: int) -> Option<
    Seq<char>,
> {
    if 0 <= i < items.len() && last_emitted_role(items) != Some("user"@) && i > last_user_index(
        items,
    ) && anchor_of(items, i) == Some(anchor) {
        reasoning_text(items[i])
    } else {
        None
    }
}

/// The reasoning that travels with the item at `anchor`.
pub open spec fn anchored_reasoning(items: Seq<ItemView>, anchor: int) -> Option<Seq<char>> {
    match (
        reasoning_sent_with(items, anchor - 1, anchor),
        reasoning_sent_with(items, anchor + 1, anchor),
    ) {
        (Some(before), Some(after)) => Some(before + after),
        (Some(before), None) => Some(before),
        (None, after) => after,
    }
}

/// The text of a message's parts, images left out.
pub open spec fn content_text(content: Seq<ContentView>) -> Seq<char>
    decreases content.len(),
{
    if content.len() == 0 {
        Seq::empty()
    } else {
        content_text(content.drop_last()) + (match content.last() {
            ContentView::InputText(text) => text,
            ContentView::OutputText(text) => text,
            ContentView::InputImage(_) => Seq::empty(),
        })
    }
}

/// Whether there is an image among a message's parts.
pub open spec fn has_image(content: Seq<ContentView>) -> bool {
    exists|i: int| 0 <= i < content.len() && #[trigger] content[i] is InputImage
}

/// A text part.
pub open spec fn text_part(text: Seq<char>) -> JsonView {
    JsonView::Object(
        Map::<Seq<char>, JsonView>::empty().insert("type"@, JsonView::Str("text"@)).insert(
            "text"@,
            JsonView::Str(text),
        ),
    )
}

/// An image part.
pub open spec fn image_part(url: Seq<char>) -> JsonView {
    JsonView::Object(
        Map::<Seq<char>, JsonView>::empty().insert("type"@, JsonView::Str("image_url"@)).insert(
            "image_url"@,
            JsonView::Object(
                Map::<Seq<char>, JsonView>::empty().insert("url"@, JsonView::Str(url)),
            ),
        ),
    )
}

/// A message's parts.
pub open spec fn content_parts(content: Seq<ContentView>) -> Seq<JsonView> {
    content.map_values(
        |part: ContentView|
            match part {
                ContentView::InputText(text) => text_part(text),
                ContentView::OutputText(text) => text_part(text),
                ContentView::InputImage(url) => image_part(url),
            },
    )
}

/// The role under which a message goes out: the protocol knows neither
/// `developer` nor `latest_reminder`.
pub open spec fn wire_role(role: Seq<char>) -> Seq<char> {
    if role == "developer"@ || role == "latest_reminder"@ {
        "system"@
    } else {
        role
    }
}

/// The content of a message that is not the assistant's.
pub open spec fn plain_content(content: Seq<ContentView>) -> JsonView {
    if has_image(content) {
        JsonView::Array(content_parts(content))
    } else {
        JsonView::Str(content_text(content))
    }
}

/// The parts of a tool's output, encrypted ones left out.
pub open spec fn output_parts(parts: Seq<OutputPartView>) -> Seq<JsonView>
    decreases parts.len(),
{
    if parts.len() == 0 {
        Seq::empty()
    } else {
        match parts.last() {
            OutputPartView::InputText(text) => output_parts(parts.drop_last()).push(
                text_part(text),
            ),
            OutputPartView::InputImage(url) => output_parts(parts.drop_last()).push(
                image_part(url),
            ),
            OutputPartView::EncryptedContent(_) => output_parts(parts.drop_last()),
        }
    }
}

/// A tool's output as the content of a message.
pub open spec fn output_content(body: OutputBodyView) -> JsonView {
    match body {
        OutputBodyView::Text(text) => JsonView::Str(text),
        OutputBodyView::ContentItems(parts) => JsonView::Array(output_parts(parts)),
    }
}

/// A call of a function.
pub open spec fn function_call_json(
    call_id: Seq<char>,
    name: Seq<char>,
    arguments: Seq<char>,
) -> JsonView {
    JsonView::Object(
        Map::<Seq<char>, JsonView>::empty().insert("id"@, JsonView::Str(call_id)).insert(
            "type"@,
            JsonView::Str("function"@),
        ).insert(
            "function"@,
            JsonView::Object(
                Map::<Seq<char>, JsonView>::empty().insert("name"@, JsonView::Str(name)).insert(
                    "arguments"@,
                    JsonView::Str(arguments),
                ),
            ),
        ),
    )
}

/// A call of the local shell.
pub open spec fn local_shell_call_json(
    id: Option<Seq<char>>,
    status: JsonView,
    action: JsonView,
) -> JsonView {
    JsonView::Object(
        Map::<Seq<char>, JsonView>::empty().insert(
            "id"@,
            JsonView::Str(
                match id {
                    Some(text) => text,
                    None => Seq::empty(),
                },
            ),
        ).insert("type"@, JsonView::Str("local_shell_call"@)).insert("status"@, status).insert(
            "action"@,
            action,
        ),
    )
}

/// A call of a custom tool.
pub open spec fn custom_call_json(
    id: Option<Seq<char>>,
    name: Seq<char>,
    input: Seq<char>,
) -> JsonView {
    JsonView::Object(
        Map::<Seq<char>, JsonView>::empty().insert(
            "id"@,
            match id {
                Some(text) => JsonView::Str(text),
                None => JsonView::Null,
            },
        ).insert("type"@, JsonView::Str("custom"@)).insert(
            "custom"@,
            JsonView::Object(
                Map::<Seq<char>, JsonView>::empty().insert("name"@, JsonView::Str(name)).insert(
                    "input"@,
                    JsonView::Str(input),
                ),
            ),
        ),
    )
}

/// The messages so far, and the text of the last assistant message.
#[verifier::ext_equal]
pub struct HistoryView {
    pub messages: Seq<MessageView>,
    pub last_assistant_text: Option<Seq<char>>,
}

/// The history after an assistant message: a repeated text is left out, and
/// the text of a turn that called tools joins the calls.
pub open spec fn with_assistant_text(
    history: HistoryView,
    text: Seq<char>,
    reasoning: Option<Seq<char>>,
) -> HistoryView {
    if history.last_assistant_text == Some(text) {
        history
    } else {
        let messages = history.messages;
        HistoryView {
            last_assistant_text: Some(text),
            messages: if messages.len() > 0 && messages.last().is_open_call() {
                messages.drop_last().push(
                    MessageView::ToolCalls {
                        content: Some(text),
                        tool_calls: messages.last()->tool_calls,
                        reasoning: messages.last().reasoning(),
                    },
                )
            } else {
                messages.push(
                    MessageView::Plain {
                        role: "assistant"@,
                        content: JsonView::Str(text),
                        reasoning,
                    },
                )
            },
        }
    }
}

/// The history after the item at `i`.
pub open spec fn with_item(
    history: HistoryView,
    items: Seq<ItemView>,
    i: int,
    dialect: ChatDialect,
) -> HistoryView {
    let reasoning = carried_reasoning(dialect, anchored_reasoning(items, i));
    match items[i] {
        ItemView::Message { role, content, .. } => if role == "assistant"@ {
            with_assistant_text(history, content_text(content), reasoning)
        } else {
            HistoryView {
                messages: history.messages.push(
                    MessageView::Plain {
                        role: wire_role(role),
                        content: plain_content(content),
                        reasoning: None,
                    },
                ),
                ..history
            }
        },
        ItemView::FunctionCall { name, arguments, call_id, .. } => HistoryView {
            messages: with_tool_call(
                history.messages,
                function_call_json(call_id, name, arguments),
                reasoning,
            ),
            ..history
        },
        ItemView::LocalShellCall { id, status, action, .. } => HistoryView {
            messages: with_tool_call(
                history.messages,
                local_shell_call_json(id, status, action),
                reasoning,
            ),
            ..history
        },
        ItemView::CustomToolCall { id, name, input, .. } => HistoryView {
            messages: with_tool_call(
                history.messages,
                custom_call_json(id, name, input),
                reasoning,
            ),
            ..history
        },
        ItemView::FunctionCallOutput { call_id, body, .. } => HistoryView {
            messages: history.messages.push(
                MessageView::ToolOutput { call_id, content: output_content(body) },
            ),
            ..history
        },
        ItemView::CustomToolCallOutput { call_id, output } => HistoryView {
            messages: history.messages.push(
                MessageView::ToolOutput { call_id, content: output },
            ),
            ..history
        },
        _ => history,
    }
}

/// The history of the first `n` items: the instructions, then what each item adds.
pub open spec fn history_of(
    instructions: Seq<char>,
    items: Seq<ItemView>,
    n: nat,
    dialect: ChatDialect,
) -> HistoryView
    decreases n,
{
    if n == 0 {
        HistoryView {
            messages: seq![
                MessageView::Plain {
                    role: "system"@,
                    content: JsonView::Str(instructions),
                    reasoning: None,
                },
            ],
            last_assistant_text: None,
        }
    } else {
        with_item(
            history_of(instructions, items, (n - 1) as nat, dialect),
            items,
            n - 1,
            dialect,
        )
    }
}

/// The messages of a chat request.
pub open spec fn chat_messages(
    instructions: Seq<char>,
    items: Seq<ItemView>,
    dialect: ChatDialect,
) -> Seq<MessageView> {
    history_of(instructions, items, items.len(), dialect).messages
}

fn ends_with_user(input: &[ResponseItem]) -> (result: bool)
    ensures
        result == (last_emitted_role(conversation(input@)) == Some("user"@)),
{
    let ghost items = conversation(input@);
    let mut i: usize = input.len();
    assert(items.take(i as int) =~= items);
    while i > 0
        invariant
            i <= input.len(),
            items == conversation(input@),
            last_emitted_role(items) == last_emitted_role(items.take(i as int)),
        decreases i,
    {
        i = i - 1;
        assert(items.take(i + 1).drop_last() =~= items.take(i as int));
        assert(items.take(i + 1).last() == input[i as int]@);
        match &input[i] {
            ResponseItem::Message { role, .. } => {
                return same_text(role.as_str(), "user");
            },
            ResponseItem::FunctionCall { .. } | ResponseItem::LocalShellCall { .. } => {
                proof {
                    reveal_strlit("assistant");
                    reveal_strlit("user");
                    assert("assistant"@.len() != "user"@.len());
                }
                return false;
            },
            ResponseItem::FunctionCallOutput { .. } => {
                proof {
                    reveal_strlit("tool");
                    reveal_strlit("user");
                    assert("tool"@[0] != "user"@[0]);
                }
                return false;
            },
            _ => {},
        }
    }
    false
}

fn is_message_with_role(item: &ResponseItem, wanted: &str) -> (result: bool)
    ensures
        result == is_message_of(item@, wanted@),
{
    match item {
        ResponseItem::Message { role, .. } => same_text(role.as_str(), wanted),
        _ => false,
    }
}

/// Whether a user message is at `from` or after it.
fn user_from(input: &[ResponseItem], from: usize) -> (result: bool)
    requires
        from <= input.len(),
    ensures
        result == (last_user_index(conversation(input@)) >= from),
{
    let ghost items = conversation(input@);
    let mut i: usize = input.len();
    assert(items.take(i as int) =~= items);
    while i > from
        invariant
            from <= i <= input.len(),
            items == conversation(input@),
            last_user_index(items) == last_user_index(items.take(i as int)),
        decreases i,
    {
        i = i - 1;
        assert(items.take(i + 1).drop_last() =~= items.take(i as int));
        assert(items.take(i + 1).last() == input[i as int]@);
        if is_message_with_role(&input[i], "user") {
            return true;
        }
    }
    proof {
        lemma_last_user_index_is_inside(items.take(i as int));
    }
    false
}

proof fn lemma_last_user_index_is_inside(items: Seq<ItemView>)
    ensures
        -1 <= last_user_index(items) < items.len(),
    decreases items.len(),
{
    if items.len() > 0 {
        lemma_last_user_index_is_inside(items.drop_last());
    }
}

fn reasoning_of(item: &ResponseItem) -> (result: Option<String>)
    ensures
        opt_text(result) == reasoning_text(item@),
{
    match item {
        ResponseItem::Reasoning { content: Some(parts), .. } => {
            let ghost views = parts@.map_values(|part: ReasoningItemContent| part@);
            let mut text = String::new();
            let mut i: usize = 0;
            assert(views.take(0) =~= Seq::<ReasoningView>::empty());
            while i < parts.len()
                invariant
                    i <= parts.len(),
                    views == parts@.map_values(|part: ReasoningItemContent| part@),
                    text@ == reasoning_parts_text(views.take(i as int)),
                decreases parts.len() - i,
            {
                assert(views.take(i + 1).drop_last() =~= views.take(i as int));
                assert(views.take(i + 1).last() == parts[i as int]@);
                match &parts[i] {
                    ReasoningItemContent::ReasoningText { text: segment } => {
                        text.append(segment.as_str());
                    },
                    ReasoningItemContent::Text { text: segment } => {
                        text.append(segment.as_str());
                    },
                }
                i = i + 1;
            }
            assert(views.take(i as int) =~= views);
            if trim_text(text.as_str()).is_empty() {
                None
            } else {
                Some(text)
            }
        },
        _ => None,
    }
}

fn takes_reasoning(item: &ResponseItem) -> (result: bool)
    ensures
        result == takes_reasoning_before(item@),
{
    match item {
        ResponseItem::FunctionCall { .. } => true,
        ResponseItem::LocalShellCall { .. } => true,
        ResponseItem::Message { role, .. } => same_text(role.as_str(), "assistant"),
        _ => false,
    }
}

/// The reasoning that travels with the item at `anchor`.
pub fn reasoning_for(input: &[ResponseItem], anchor: usize) -> (result: Option<String>)
    requires
        anchor < input.len(),
    ensures
        opt_text(result) == anchored_reasoning(conversation(input@), anchor as int),
{
    let ghost items = conversation(input@);
    proof {
        lemma_last_user_index_is_inside(items);
        assert(forall|k: int| 0 <= k < input.len() ==> #[trigger] items[k] == input[k]@);
    }
    if ends_with_user(input) {
        return None;
    }
    let mut text: Option<String> = None;
    if anchor > 0 && !user_from(input, anchor - 1) && !(anchor > 1 && is_message_with_role(
        &input[anchor - 2],
        "assistant",
    )) && takes_reasoning(&input[anchor]) {
        text = reasoning_of(&input[anchor - 1]);
    }
    assert(opt_text(text) == reasoning_sent_with(items, anchor - 1, anchor as int));
    if anchor + 1 < input.len() && !user_from(input, anchor + 1) && is_message_with_role(
        &input[anchor],
        "assistant",
    ) {
        let after = reasoning_of(&input[anchor + 1]);
        assert(opt_text(after) == reasoning_sent_with(items, anchor + 1, anchor as int));
        match (text, after) {
            (Some(mut before), Some(after)) => {
                before.append(after.as_str());
                Some(before)
            },
            (Some(before), None) => Some(before),
            (None, after) => after,
        }
    } else {
        assert(reasoning_sent_with(items, anchor + 1, anchor as int) is None);
        text
    }
}

fn text_part_json(text: &String) -> (result: Json)
    ensures
        result@ == text_part(text@),
{
    let mut fields: Vec<(String, Json)> = Vec::new();
    insert_field(&mut fields, "type".to_owned(), Json::string("text"));
    insert_field(&mut fields, "text".to_owned(), Json::Str(text.clone()));
    Json::Object(fields)
}

fn image_part_json(url: &String) -> (result: Json)
    ensures
        result@ == image_part(url@),
{
    let mut image: Vec<(String, Json)> = Vec::new();
    insert_field(&mut image, "url".to_owned(), Json::Str(url.clone()));
    let mut fields: Vec<(String, Json)> = Vec::new();
    insert_field(&mut fields, "type".to_owned(), Json::string("image_url"));
    insert_field(&mut fields, "image_url".to_owned(), Json::Object(image));
    Json::Object(fields)
}

/// What a message holds: its text, its parts, and whether an image is among them.
struct MessageContent {
    text: String,
    parts: Vec<Json>,
    saw_image: bool,
}

fn read_content(content: &Vec<ContentItem>) -> (result: MessageContent)
    ensures
        result.text@ == content_text(content@.map_values(|part: ContentItem| part@)),
        items_view(result.parts@) == content_parts(
            content@.map_values(|part: ContentItem| part@),
        ),
        result.saw_image == has_image(content@.map_values(|part: ContentItem| part@)),
{
    let ghost views = content@.map_values(|part: ContentItem| part@);
    let mut text = String::new();
    let mut parts: Vec<Json> = Vec::new();
    let mut saw_image = false;
    let mut i: usize = 0;
    assert(views.take(0) =~= Seq::<ContentView>::empty());
    while i < content.len()
        invariant
            i <= content.len(),
            views == content@.map_values(|part: ContentItem| part@),
            text@ == content_text(views.take(i as int)),
            parts.len() == i,
            forall|j: int| 0 <= j < i ==> #[trigger] parts[j]@ == content_parts(views)[j],
            saw_image == (exists|j: int| 0 <= j < i && #[trigger] views[j] is InputImage),
        decreases content.len() - i,
    {
        assert(views.take(i + 1).drop_last() =~= views.take(i as int));
        assert(views.take(i + 1).last() == views[i as int]);
        assert(views[i as int] == content[i as int]@);
        match &content[i] {
            ContentItem::InputText { text: t } => {
                text.append(t.as_str());
                parts.push(text_part_json(t));
            },
            ContentItem::OutputText { text: t } => {
                text.append(t.as_str());
                parts.push(text_part_json(t));
            },
            ContentItem::InputImage { image_url } => {
                assert(text@ =~= text@ + Seq::<char>::empty());
                saw_image = true;
                parts.push(image_part_json(image_url));
            },
        }
        i = i + 1;
    }
    assert(views.take(i as int) =~= views);
    proof {
        lemma_items_view(parts@);
    }
    assert(items_view(parts@) =~= content_parts(views));
    MessageContent { text, parts, saw_image }
}

fn read_output(output: &FunctionCallOutputPayload) -> (result: Json)
    ensures
        result@ == output_content(output.body@),
{
    match &output.body {
        FunctionCallOutputBody::Text(text) => Json::Str(text.clone()),
        FunctionCallOutputBody::ContentItems(items) => {
            let ghost views = items@.map_values(|item: FunctionCallOutputContentItem| item@);
            let mut parts: Vec<Json> = Vec::new();
            let mut i: usize = 0;
            proof {
                lemma_items_view(parts@);
                assert(views.take(0) =~= Seq::<OutputPartView>::empty());
                assert(items_view(parts@) =~= output_parts(views.take(0)));
            }
            while i < items.len()
                invariant
                    i <= items.len(),
                    views == items@.map_values(|item: FunctionCallOutputContentItem| item@),
                    items_view(parts@) == output_parts(views.take(i as int)),
                decreases items.len() - i,
            {
                assert(views.take(i + 1).drop_last() =~= views.take(i as int));
                assert(views.take(i + 1).last() == items[i as int]@);
                let ghost before = parts@;
                match &items[i] {
                    FunctionCallOutputContentItem::InputText { text } => {
                        parts.push(text_part_json(text));
                    },
                    FunctionCallOutputContentItem::InputImage { image_url } => {
                        parts.push(image_part_json(image_url));
                    },
                    FunctionCallOutputContentItem::EncryptedContent { .. } => {},
                }
                proof {
                    lemma_items_view(before);
                    lemma_items_view(parts@);
                    if parts@.len() > before.len() {
                        assert(items_view(parts@) =~= items_view(before).push(parts@.last()@));
                    }
                }
                i = i + 1;
            }
            assert(views.take(i as int) =~= views);
            Json::Array(parts)
        },
    }
}

fn function_call(call_id: &String, name: &String, arguments: &String) -> (result: Json)
    ensures
        result@ == function_call_json(call_id@, name@, arguments@),
{
    let mut function: Vec<(String, Json)> = Vec::new();
    insert_field(&mut function, "name".to_owned(), Json::Str(name.clone()));
    insert_field(&mut function, "arguments".to_owned(), Json::Str(arguments.clone()));
    let mut fields: Vec<(String, Json)> = Vec::new();
    insert_field(&mut fields, "id".to_owned(), Json::Str(call_id.clone()));
    insert_field(&mut fields, "type".to_owned(), Json::string("function"));
    insert_field(&mut fields, "function".to_owned(), Json::Object(function));
    Json::Object(fields)
}

fn local_shell_call(id: &Option<String>, status: &Json, action: &Json) -> (result: Json)
    ensures
        result@ == local_shell_call_json(opt_text(*id), status@, action@),
{
    let id = match id {
        Some(text) => text.clone(),
        None => String::new(),
    };
    let mut fields: Vec<(String, Json)> = Vec::new();
    insert_field(&mut fields, "id".to_owned(), Json::Str(id));
    insert_field(&mut fields, "type".to_owned(), Json::string("local_shell_call"));
    insert_field(&mut fields, "status".to_owned(), status.clone());
    insert_field(&mut fields, "action".to_owned(), action.clone());
    Json::Object(fields)
}

fn custom_call(id: &Option<String>, name: &String, input: &String) -> (result: Json)
    ensures
        result@ == custom_call_json(opt_text(*id), name@, input@),
{
    let mut custom: Vec<(String, Json)> = Vec::new();
    insert_field(&mut custom, "name".to_owned(), Json::Str(name.clone()));
    insert_field(&mut custom, "input".to_owned(), Json::Str(input.clone()));
    let mut fields: Vec<(String, Json)> = Vec::new();
    insert_field(&mut fields, "id".to_owned(), Json::optional_string(id));
    insert_field(&mut fields, "type".to_owned(), Json::string("custom"));
    insert_field(&mut fields, "custom".to_owned(), Json::Object(custom));
    Json::Object(fields)
}

/// The messages so far, and the text of the last assistant message.
struct History {
    messages: Vec<ChatMessage>,
    last_assistant_text: Option<String>,
}

impl History {
    spec fn view(&self) -> HistoryView {
        HistoryView {
            messages: messages_view(self.messages@),
            last_assistant_text: opt_text(self.last_assistant_text),
        }
    }

    fn push(&mut self, message: ChatMessage)
        ensures
            final(self)@ == (HistoryView {
                messages: old(self)@.messages.push(message@),
                ..old(self)@
            }),
    {
        self.messages.push(message);
        assert(messages_view(self.messages@) =~= messages_view(old(self).messages@).push(message@));
    }

    fn push_assistant_text(
        &mut self,
        text: String,
        reasoning: Option<String>,
        dialect: ChatDialect,
    )
        ensures
            final(self)@ == with_assistant_text(
                old(self)@,
                text@,
                carried_reasoning(dialect, opt_text(reasoning)),
            ),
    {
        match &self.last_assistant_text {
            Some(previous) => {
                if same_text(previous.as_str(), text.as_str()) {
                    return ;
                }
            },
            None => {},
        }
        self.last_assistant_text = Some(text.clone());
        let ghost before = self.messages@;
        let last = self.messages.pop();
        proof {
            if before.len() > 0 {
                assert(messages_view(before).drop_last() =~= messages_view(self.messages@));
                assert(messages_view(before).last() == before.last()@);
            }
        }
        match last {
            Some(ChatMessage::ToolCalls { content: None, tool_calls, reasoning: existing }) => {
                self.push(
                    ChatMessage::ToolCalls { content: Some(text), tool_calls, reasoning: existing },
                );
            },
            other => {
                match other {
                    Some(message) => {
                        self.messages.push(message);
                    },
                    None => {},
                }
                assert(self.messages@ =~= before);
                let carried = match dialect {
                    ChatDialect::Strict => None,
                    ChatDialect::ThinkingReasoningContent => reasoning,
                };
                self.push(
                    ChatMessage::Plain {
                        role: "assistant".to_owned(),
                        content: Json::Str(text),
                        reasoning: carried,
                    },
                );
            },
        }
    }

    fn push_tool_call(
        &mut self,
        tool_call: Json,
        reasoning: &Option<String>,
        dialect: ChatDialect,
    )
        ensures
            final(self)@ == (HistoryView {
                messages: with_tool_call(
                    old(self)@.messages,
                    tool_call@,
                    carried_reasoning(dialect, opt_text(*reasoning)),
                ),
                ..old(self)@
            }),
    {
        let text = match reasoning {
            Some(text) => Some(text.as_str()),
            None => None,
        };
        push_tool_call_message(&mut self.messages, tool_call, text, dialect);
    }

    fn push_item(&mut self, input: &[ResponseItem], i: usize, dialect: ChatDialect)
        requires
            i < input.len(),
        ensures
            final(self)@ == with_item(old(self)@, conversation(input@), i as int, dialect),
    {
        assert(conversation(input@)[i as int] == input[i as int]@);
        match &input[i] {
            ResponseItem::Message { role, content, .. } => {
                let content = read_content(content);
                if same_text(role.as_str(), "assistant") {
                    let reasoning = reasoning_for(input, i);
                    self.push_assistant_text(content.text, reasoning, dialect);
                } else {
                    let role = if same_text(role.as_str(), "developer") || same_text(
                        role.as_str(),
                        "latest_reminder",
                    ) {
                        "system".to_owned()
                    } else {
                        role.clone()
                    };
                    let content = if content.saw_image {
                        Json::Array(content.parts)
                    } else {
                        Json::Str(content.text)
                    };
                    self.push(ChatMessage::Plain { role, content, reasoning: None });
                }
            },
            ResponseItem::FunctionCall { name, arguments, call_id, .. } => {
                let reasoning = reasoning_for(input, i);
                self.push_tool_call(function_call(call_id, name, arguments), &reasoning, dialect);
            },
            ResponseItem::LocalShellCall { id, status, action, .. } => {
                let reasoning = reasoning_for(input, i);
                self.push_tool_call(local_shell_call(id, status, action), &reasoning, dialect);
            },
            ResponseItem::CustomToolCall { id, name, input: tool_input, .. } => {
                let reasoning = reasoning_for(input, i);
                self.push_tool_call(custom_call(id, name, tool_input), &reasoning, dialect);
            },
            ResponseItem::FunctionCallOutput { call_id, output } => {
                let content = read_output(output);
                self.push(ChatMessage::ToolOutput { call_id: call_id.clone(), content });
            },
            ResponseItem::CustomToolCallOutput { call_id, output } => {
                self.push(
                    ChatMessage::ToolOutput { call_id: call_id.clone(), content: output.clone() },
                );
            },
            _ => {},
        }
    }
}

/// The messages of a chat request: the instructions as the system message,
/// then what each item of the conversation adds.
pub fn build_messages(
    instructions: &str,
    input: &[ResponseItem],
    dialect: ChatDialect,
) -> (result: Vec<ChatMessage>)
    ensures
        messages_view(result@) == chat_messages(instructions@, conversation(input@), dialect),
{
    let mut history = History { messages: Vec::new(), last_assistant_text: None };
    history.push(
        ChatMessage::Plain {
            role: "system".to_owned(),
            content: Json::string(instructions),
            reasoning: None,
        },
    );
    let ghost items = conversation(input@);
    assert(history@ =~= history_of(instructions@, items, 0, dialect));
    let mut i: usize = 0;
    while i < input.len()
        invariant
            i <= input.len(),
            items == conversation(input@),
            history@ == history_of(instructions@, items, i as nat, dialect),
        decreases input.len() - i,
    {
        history.push_item(input, i, dialect);
        i = i + 1;
    }
    history.messages
}

} // verus!
