//! Chat Completions requests.

use vstd::prelude::*;

use crate::headers::{build_request_headers, header_contents, request_headers};
use crate::history::{build_messages, chat_messages};
use crate::json::{
    fields_view, insert_field, items_view, lemma_items_view, Json, JsonView,
};
use crate::message::{messages_json, messages_view, ChatMessage, MessageView};
use crate::protocol::{
    conversation, opt_text, ApiError, ChatDialect, ItemView, ResponseItem, SessionSource,
};
use crate::text::same_text;

verus! {

/// Body and headers of a streaming Chat Completions request.
pub struct ChatRequest {
    pub body: Json,
    pub headers: http::HeaderMap<http::HeaderValue>,
}

/// The top-level keys of a request body that a provider's extra fields may not
/// set.
pub open spec fn is_reserved_key(key: Seq<char>) -> bool {
    ||| key == "model"@
    ||| key == "messages"@
    ||| key == "tools"@
    ||| key == "tool_choice"@
    ||| key == "stream"@
    ||| key == "stream_options"@
    ||| key == "temperature"@
    ||| key == "top_p"@
    ||| key == "max_tokens"@
    ||| key == "max_completion_tokens"@
    ||| key == "n"@
    ||| key == "response_format"@
    ||| key == "reasoning"@
    ||| key == "reasoning_effort"@
}

/// Whether `key` is one that a provider's extra fields may not set.
pub fn is_reserved_extra_body_key(key: &str) -> (result: bool)
    ensures
        result == is_reserved_key(key@),
{
    same_text(key, "model") || same_text(key, "messages") || same_text(key, "tools") || same_text(
        key,
        "tool_choice",
    ) || same_text(key, "stream") || same_text(key, "stream_options") || same_text(
        key,
        "temperature",
    ) || same_text(key, "top_p") || same_text(key, "max_tokens") || same_text(
        key,
        "max_completion_tokens",
    ) || same_text(key, "n") || same_text(key, "response_format") || same_text(key, "reasoning")
        || same_text(key, "reasoning_effort")
}

/// A provider's extra fields without those that it may not set.
pub open spec fn permitted_extra(extra: Map<Seq<char>, JsonView>) -> Map<Seq<char>, JsonView> {
    extra.restrict(Set::new(|key: Seq<char>| !is_reserved_key(key)))
}

/// The fields that an optional object binds.
pub open spec fn extra_fields(extra: Option<&Vec<(String, Json)>>) -> Map<Seq<char>, JsonView> {
    match extra {
        Some(fields) => fields_view(fields@),
        None => Map::empty(),
    }
}

proof fn lemma_permitted_extra_grows(
    extra: Map<Seq<char>, JsonView>,
    key: Seq<char>,
    value: JsonView,
    payload: Map<Seq<char>, JsonView>,
)
    ensures
        payload.union_prefer_right(permitted_extra(extra.insert(key, value))) == (
        if is_reserved_key(key) {
            payload.union_prefer_right(permitted_extra(extra))
        } else {
            payload.union_prefer_right(permitted_extra(extra)).insert(key, value)
        }),
{
    let grown = permitted_extra(extra.insert(key, value));
    if is_reserved_key(key) {
        assert(grown =~= permitted_extra(extra));
    } else {
        assert(grown =~= permitted_extra(extra).insert(key, value));
        assert(payload.union_prefer_right(grown) =~= payload.union_prefer_right(
            permitted_extra(extra),
        ).insert(key, value));
    }
}

/// Puts a provider's extra fields on top of a request body. A key that is
/// reserved is skipped, any other is written whether the body has it or not.
pub fn merge_provider_extra_body(
    payload: &mut Vec<(String, Json)>,
    extra: Option<&Vec<(String, Json)>>,
)
    ensures
        fields_view(final(payload)@) == fields_view(old(payload)@).union_prefer_right(
            permitted_extra(extra_fields(extra)),
        ),
{
    let ghost before = fields_view(payload@);
    proof {
        assert(before.union_prefer_right(permitted_extra(Map::empty())) =~= before);
    }
    match extra {
        Some(fields) => {
            let mut i: usize = 0;
            assert(fields@.take(0) =~= Seq::<(String, Json)>::empty());
            while i < fields.len()
                invariant
                    i <= fields.len(),
                    fields_view(payload@) == before.union_prefer_right(
                        permitted_extra(fields_view(fields@.take(i as int))),
                    ),
                decreases fields.len() - i,
            {
                proof {
                    assert(fields@.take(i + 1).drop_last() =~= fields@.take(i as int));
                    lemma_permitted_extra_grows(
                        fields_view(fields@.take(i as int)),
                        fields[i as int].0@,
                        fields[i as int].1@,
                        before,
                    );
                }
                if !is_reserved_extra_body_key(fields[i].0.as_str()) {
                    insert_field(payload, fields[i].0.clone(), fields[i].1.clone());
                }
                i = i + 1;
            }
            assert(fields@.take(i as int) =~= fields@);
        },
        None => {},
    }
}

/// The reserved keys among a provider's extra fields, in order.
pub open spec fn reserved_keys(fields: Seq<(String, Json)>) -> Seq<Seq<char>>
    decreases fields.len(),
{
    if fields.len() == 0 {
        Seq::empty()
    } else if is_reserved_key(fields.last().0@) {
        reserved_keys(fields.drop_last()).push(fields.last().0@)
    } else {
        reserved_keys(fields.drop_last())
    }
}

/// The reserved keys among optional extra fields, in order.
pub open spec fn collisions(extra: Option<&Vec<(String, Json)>>) -> Seq<Seq<char>> {
    match extra {
        Some(fields) => reserved_keys(fields@),
        None => Seq::empty(),
    }
}

/// Texts, in order.
pub open spec fn texts(list: Seq<String>) -> Seq<Seq<char>> {
    list.map_values(|text: String| text@)
}

/// The reserved keys among a provider's extra fields, in order.
pub fn reserved_extra_body_keys(extra: Option<&Vec<(String, Json)>>) -> (result: Vec<String>)
    ensures
        texts(result@) == collisions(extra),
{
    let mut keys: Vec<String> = Vec::new();
    assert(texts(keys@) =~= Seq::empty());
    match extra {
        Some(fields) => {
            let mut i: usize = 0;
            assert(fields@.take(0) =~= Seq::<(String, Json)>::empty());
            while i < fields.len()
                invariant
                    i <= fields.len(),
                    texts(keys@) == reserved_keys(fields@.take(i as int)),
                decreases fields.len() - i,
            {
                let ghost before = keys@;
                assert(fields@.take(i + 1).drop_last() =~= fields@.take(i as int));
                if is_reserved_extra_body_key(fields[i].0.as_str()) {
                    keys.push(fields[i].0.clone());
                    assert(texts(keys@) =~= texts(before).push(fields[i as int].0@));
                }
                i = i + 1;
            }
            assert(fields@.take(i as int) =~= fields@);
        },
        None => {},
    }
    keys
}

/// The options of a stream: usage is asked for.
pub open spec fn stream_options() -> JsonView {
    JsonView::Object(
        Map::<Seq<char>, JsonView>::empty().insert("include_usage"@, JsonView::Bool(true)),
    )
}

/// The body of a request before a provider's extra fields.
pub open spec fn core_body(
    model: Seq<char>,
    messages: Seq<MessageView>,
    tools: Seq<JsonView>,
) -> Map<Seq<char>, JsonView> {
    Map::<Seq<char>, JsonView>::empty().insert("model"@, JsonView::Str(model)).insert(
        "messages"@,
        JsonView::Array(messages_json(messages)),
    ).insert("stream"@, JsonView::Bool(true)).insert("stream_options"@, stream_options()).insert(
        "tools"@,
        JsonView::Array(tools),
    )
}

/// The body of a request.
pub open spec fn request_body(
    model: Seq<char>,
    messages: Seq<MessageView>,
    tools: Seq<JsonView>,
    extra: Map<Seq<char>, JsonView>,
) -> JsonView {
    JsonView::Object(core_body(model, messages, tools).union_prefer_right(permitted_extra(extra)))
}

fn into_json_items(messages: Vec<ChatMessage>) -> (result: Vec<Json>)
    ensures
        items_view(result@) == messages_json(messages_view(messages@)),
{
    let ghost all = messages@;
    let mut rest = messages;
    let mut reversed: Vec<Json> = Vec::new();
    while rest.len() > 0
        invariant
            rest.len() + reversed.len() == all.len(),
            rest@ =~= all.take(rest.len() as int),
            forall|k: int|
                0 <= k < reversed.len() ==> #[trigger] reversed[k]@ == all[all.len() - 1
                    - k]@.json(),
        decreases rest.len(),
    {
        match rest.pop() {
            Some(message) => {
                reversed.push(message.into_json());
            },
            None => {},
        }
    }
    let mut result: Vec<Json> = Vec::new();
    while reversed.len() > 0
        invariant
            result.len() + reversed.len() == all.len(),
            forall|k: int|
                0 <= k < reversed.len() ==> #[trigger] reversed[k]@ == all[all.len() - 1
                    - k]@.json(),
            forall|k: int| 0 <= k < result.len() ==> #[trigger] result[k]@ == all[k]@.json(),
        decreases reversed.len(),
    {
        match reversed.pop() {
            Some(json) => {
                result.push(json);
            },
            None => {},
        }
    }
    proof {
        lemma_items_view(result@);
    }
    assert(items_view(result@) =~= messages_json(messages_view(all)));
    result
}

fn copy_tools(tools: &[Json]) -> (result: Vec<Json>)
    ensures
        items_view(result@) == items_view(tools@),
{
    let mut result: Vec<Json> = Vec::new();
    let mut i: usize = 0;
    while i < tools.len()
        invariant
            i <= tools.len(),
            result.len() == i,
            forall|j: int| 0 <= j < i ==> #[trigger] result[j]@ == tools[j]@,
        decreases tools.len() - i,
    {
        result.push(tools[i].clone());
        i = i + 1;
    }
    proof {
        lemma_items_view(result@);
        lemma_items_view(tools@);
    }
    assert(items_view(result@) =~= items_view(tools@));
    result
}

/// Assembles a chat request.
pub struct ChatRequestBuilder<'a> {
    model: &'a str,
    instructions: &'a str,
    input: &'a [ResponseItem],
    tools: &'a [Json],
    conversation_id: Option<String>,
    session_source: Option<SessionSource>,
    provider_name: &'a str,
    extra_body: Option<&'a Vec<(String, Json)>>,
}

/// What a builder was given.
#[verifier::ext_equal]
pub struct BuilderView {
    pub model: Seq<char>,
    pub instructions: Seq<char>,
    pub items: Seq<ItemView>,
    pub tools: Seq<JsonView>,
    pub conversation_id: Option<Seq<char>>,
    pub session_source: Option<SessionSource>,
    pub provider_name: Seq<char>,
    pub extra: Map<Seq<char>, JsonView>,
    pub collisions: Seq<Seq<char>>,
}

impl<'a> ChatRequestBuilder<'a> {
    pub closed spec fn view(&self) -> BuilderView {
        BuilderView {
            model: self.model@,
            instructions: self.instructions@,
            items: conversation(self.input@),
            tools: items_view(self.tools@),
            conversation_id: opt_text(self.conversation_id),
            session_source: self.session_source,
            provider_name: self.provider_name@,
            extra: extra_fields(self.extra_body),
            collisions: collisions(self.extra_body),
        }
    }

    /// A builder without a conversation id, a session source, a provider name
    /// and extra fields.
    pub fn new(
        model: &'a str,
        instructions: &'a str,
        input: &'a [ResponseItem],
        tools: &'a [Json],
    ) -> (result: Self)
        ensures
            result@ == (BuilderView {
                model: model@,
                instructions: instructions@,
                items: conversation(input@),
                tools: items_view(tools@),
                conversation_id: None,
                session_source: None,
                provider_name: Seq::empty(),
                extra: Map::empty(),
                collisions: Seq::empty(),
            }),
    {
        proof {
            reveal_strlit("");
        }
        let result = ChatRequestBuilder {
            model,
            instructions,
            input,
            tools,
            conversation_id: None,
            session_source: None,
            provider_name: "",
            extra_body: None,
        };
        assert(result@.provider_name =~= Seq::empty());
        result
    }

    /// Sets the conversation id.
    pub fn conversation_id(self, id: Option<String>) -> (result: Self)
        ensures
            result@ == (BuilderView { conversation_id: opt_text(id), ..self@ }),
    {
        ChatRequestBuilder { conversation_id: id, ..self }
    }

    /// Sets where the session comes from.
    pub fn session_source(self, source: Option<SessionSource>) -> (result: Self)
        ensures
            result@ == (BuilderView { session_source: source, ..self@ }),
    {
        ChatRequestBuilder { session_source: source, ..self }
    }

    /// Sets the provider's name, by which collisions of its extra fields are
    /// reported.
    pub fn provider_name(self, name: &'a str) -> (result: Self)
        ensures
            result@ == (BuilderView { provider_name: name@, ..self@ }),
    {
        ChatRequestBuilder { provider_name: name, ..self }
    }

    /// Sets the provider's extra fields for the top level of the body.
    pub fn extra_body(self, extra: Option<&'a Vec<(String, Json)>>) -> (result: Self)
        ensures
            result@ == (BuilderView {
                extra: extra_fields(extra),
                collisions: collisions(extra),
                ..self@
            }),
    {
        ChatRequestBuilder { extra_body: extra, ..self }
    }

    /// The provider's name and the reserved keys among its extra fields, which
    /// the body does not take over.
    pub fn extra_body_collisions(&self) -> (result: (String, Vec<String>))
        ensures
            result.0@ == self@.provider_name,
            texts(result.1@) == self@.collisions,
    {
        (self.provider_name.to_owned(), reserved_extra_body_keys(self.extra_body))
    }

    /// The request.
    pub fn build(self, dialect: ChatDialect) -> (result: Result<ChatRequest, ApiError>)
        ensures
            result matches Ok(request) && {
                &&& request.body@ == request_body(
                    self@.model,
                    chat_messages(self@.instructions, self@.items, dialect),
                    self@.tools,
                    self@.extra,
                )
                &&& header_contents(request.headers) == request_headers(
                    self@.conversation_id,
                    self@.session_source,
                )
                &&& header_contents(request.headers).dom().len() <= 2
            },
    {
        let messages = build_messages(self.instructions, self.input, dialect);
        let messages = into_json_items(messages);
        let mut options: Vec<(String, Json)> = Vec::new();
        insert_field(&mut options, "include_usage".to_owned(), Json::Bool(true));
        let mut payload: Vec<(String, Json)> = Vec::new();
        insert_field(&mut payload, "model".to_owned(), Json::string(self.model));
        insert_field(&mut payload, "messages".to_owned(), Json::Array(messages));
        insert_field(&mut payload, "stream".to_owned(), Json::Bool(true));
        insert_field(&mut payload, "stream_options".to_owned(), Json::Object(options));
        insert_field(&mut payload, "tools".to_owned(), Json::Array(copy_tools(self.tools)));
        merge_provider_extra_body(&mut payload, self.extra_body);
        let headers = build_request_headers(self.conversation_id, &self.session_source);
        Ok(ChatRequest { body: Json::Object(payload), headers })
    }
}

} // verus!
