//! Tools that a model is offered, and their JSON forms.

use vstd::prelude::*;
use vstd::std_specs::convert::FromSpecImpl;

use crate::json::{
    copy_fields, fields_view, insert_field, items_view, lemma_items_view, remove_field, Json,
    JsonView,
};

verus! {

/// A function tool: its name, and its other fields in their JSON form.
#[derive(Debug)]
pub struct ResponsesApiTool {
    pub name: String,
    pub fields: Vec<(String, Json)>,
}

/// A tool of a namespace.
#[derive(Debug)]
pub enum ResponsesApiNamespaceTool {
    Function(ResponsesApiTool),
}

/// A namespace of tools: its name, its tools, and its other fields in their
/// JSON form.
#[derive(Debug)]
pub struct ResponsesApiNamespace {
    pub name: String,
    pub fields: Vec<(String, Json)>,
    pub tools: Vec<ResponsesApiNamespaceTool>,
}

/// A tool that takes free text: its name, and its other fields in their JSON
/// form.
#[derive(Debug)]
pub struct FreeformTool {
    pub name: String,
    pub fields: Vec<(String, Json)>,
}

/// A tool that is loaded on demand.
#[derive(Debug)]
pub enum LoadableToolSpec {
    Function(ResponsesApiTool),
    Namespace(ResponsesApiNamespace),
}

/// How much context a web search brings.
#[derive(Clone, Copy, PartialEq, Eq, Structural, Debug)]
pub enum WebSearchContextSize {
    Low,
    Medium,
    High,
}

/// How a user's location is given.
#[derive(Clone, Copy, PartialEq, Eq, Structural, Debug)]
pub enum WebSearchUserLocationType {
    Approximate,
}

/// Web search filters as the configuration has them.
#[derive(Debug)]
pub struct WebSearchFilters {
    pub allowed_domains: Option<Vec<String>>,
}

/// A user's location as the configuration has it.
#[derive(Debug)]
pub struct WebSearchUserLocation {
    pub location_type: WebSearchUserLocationType,
    pub country: Option<String>,
    pub region: Option<String>,
    pub city: Option<String>,
    pub timezone: Option<String>,
}

/// Web search filters as the API takes them.
#[derive(Debug)]
pub struct ResponsesApiWebSearchFilters {
    pub allowed_domains: Option<Vec<String>>,
}

/// A user's location as the API takes it.
#[derive(Debug)]
pub struct ResponsesApiWebSearchUserLocation {
    pub location_type: WebSearchUserLocationType,
    pub country: Option<String>,
    pub region: Option<String>,
    pub city: Option<String>,
    pub timezone: Option<String>,
}

/// A tool that a model is offered.
#[derive(Debug)]
pub enum ToolSpec {
    Function(ResponsesApiTool),
    Namespace(ResponsesApiNamespace),
    /// `parameters` is held in its JSON form.
    ToolSearch { execution: String, description: String, parameters: Json },
    ImageGeneration { output_format: String },
    WebSearch {
        external_web_access: Option<bool>,
        filters: Option<ResponsesApiWebSearchFilters>,
        user_location: Option<ResponsesApiWebSearchUserLocation>,
        search_context_size: Option<WebSearchContextSize>,
        search_content_types: Option<Vec<String>>,
    },
    Freeform(FreeformTool),
}

impl From<LoadableToolSpec> for ToolSpec {
    fn from(value: LoadableToolSpec) -> (result: Self) {
        match value {
            LoadableToolSpec::Function(tool) => ToolSpec::Function(tool),
            LoadableToolSpec::Namespace(namespace) => ToolSpec::Namespace(namespace),
        }
    }
}

impl FromSpecImpl<LoadableToolSpec> for ToolSpec {
    open spec fn obeys_from_spec() -> bool {
        true
    }

    open spec fn from_spec(value: LoadableToolSpec) -> Self {
        match value {
            LoadableToolSpec::Function(tool) => ToolSpec::Function(tool),
            LoadableToolSpec::Namespace(namespace) => ToolSpec::Namespace(namespace),
        }
    }
}

impl From<WebSearchFilters> for ResponsesApiWebSearchFilters {
    fn from(filters: WebSearchFilters) -> (result: Self) {
        ResponsesApiWebSearchFilters { allowed_domains: filters.allowed_domains }
    }
}

impl FromSpecImpl<WebSearchFilters> for ResponsesApiWebSearchFilters {
    open spec fn obeys_from_spec() -> bool {
        true
    }

    open spec fn from_spec(filters: WebSearchFilters) -> Self {
        ResponsesApiWebSearchFilters { allowed_domains: filters.allowed_domains }
    }
}

impl From<WebSearchUserLocation> for ResponsesApiWebSearchUserLocation {
    fn from(user_location: WebSearchUserLocation) -> (result: Self) {
        ResponsesApiWebSearchUserLocation {
            location_type: user_location.location_type,
            country: user_location.country,
            region: user_location.region,
            city: user_location.city,
            timezone: user_location.timezone,
        }
    }
}

impl FromSpecImpl<WebSearchUserLocation> for ResponsesApiWebSearchUserLocation {
    open spec fn obeys_from_spec() -> bool {
        true
    }

    open spec fn from_spec(user_location: WebSearchUserLocation) -> Self {
        ResponsesApiWebSearchUserLocation {
            location_type: user_location.location_type,
            country: user_location.country,
            region: user_location.region,
            city: user_location.city,
            timezone: user_location.timezone,
        }
    }
}

/// Texts as a JSON array.
pub open spec fn texts_json(texts: Seq<String>) -> JsonView {
    JsonView::Array(texts.map_values(|text: String| JsonView::Str(text@)))
}

/// Fields with one more, where it has a value.
pub open spec fn with_field(
    fields: Map<Seq<char>, JsonView>,
    key: Seq<char>,
    value: Option<JsonView>,
) -> Map<Seq<char>, JsonView> {
    match value {
        Some(value) => fields.insert(key, value),
        None => fields,
    }
}

/// An optional text as an optional JSON value.
pub open spec fn text_json(text: Option<String>) -> Option<JsonView> {
    match text {
        Some(text) => Some(JsonView::Str(text@)),
        None => None,
    }
}

/// The JSON form of a context size.
pub open spec fn size_json(size: WebSearchContextSize) -> JsonView {
    match size {
        WebSearchContextSize::Low => JsonView::Str("low"@),
        WebSearchContextSize::Medium => JsonView::Str("medium"@),
        WebSearchContextSize::High => JsonView::Str("high"@),
    }
}

/// The JSON form of web search filters.
pub open spec fn filters_json(filters: ResponsesApiWebSearchFilters) -> JsonView {
    JsonView::Object(
        with_field(
            Map::empty(),
            "allowed_domains"@,
            match filters.allowed_domains {
                Some(domains) => Some(texts_json(domains@)),
                None => None,
            },
        ),
    )
}

/// The JSON form of a user's location.
pub open spec fn location_json(location: ResponsesApiWebSearchUserLocation) -> JsonView {
    let fields = Map::empty().insert("type"@, JsonView::Str("approximate"@));
    let fields = with_field(fields, "country"@, text_json(location.country));
    let fields = with_field(fields, "region"@, text_json(location.region));
    let fields = with_field(fields, "city"@, text_json(location.city));
    JsonView::Object(with_field(fields, "timezone"@, text_json(location.timezone)))
}

/// The fields of a named tool: its name, and its other fields.
pub open spec fn named_fields(name: Seq<char>, fields: Seq<(String, Json)>) -> Map<
    Seq<char>,
    JsonView,
> {
    fields_view(fields).insert("name"@, JsonView::Str(name))
}

/// Fields with the tag that says what kind of tool they are.
pub open spec fn tagged(fields: Map<Seq<char>, JsonView>, tag: Seq<char>) -> JsonView {
    JsonView::Object(fields.insert("type"@, JsonView::Str(tag)))
}

/// The JSON form of a tool of a namespace.
pub open spec fn namespace_tool_json(tool: ResponsesApiNamespaceTool) -> JsonView {
    match tool {
        ResponsesApiNamespaceTool::Function(tool) => tagged(
            named_fields(tool.name@, tool.fields@),
            "function"@,
        ),
    }
}

/// The JSON form of a tool in the Responses API.
pub open spec fn tool_json(tool: ToolSpec) -> JsonView {
    match tool {
        ToolSpec::Function(tool) => tagged(named_fields(tool.name@, tool.fields@), "function"@),
        ToolSpec::Namespace(namespace) => tagged(
            named_fields(namespace.name@, namespace.fields@).insert(
                "tools"@,
                JsonView::Array(
                    namespace.tools@.map_values(
                        |tool: ResponsesApiNamespaceTool| namespace_tool_json(tool),
                    ),
                ),
            ),
            "namespace"@,
        ),
        ToolSpec::ToolSearch { execution, description, parameters } => tagged(
            Map::empty().insert("execution"@, JsonView::Str(execution@)).insert(
                "description"@,
                JsonView::Str(description@),
            ).insert("parameters"@, parameters@),
            "tool_search"@,
        ),
        ToolSpec::ImageGeneration { output_format } => tagged(
            Map::empty().insert("output_format"@, JsonView::Str(output_format@)),
            "image_generation"@,
        ),
        ToolSpec::WebSearch {
            external_web_access,
            filters,
            user_location,
            search_context_size,
            search_content_types,
        } => {
            let fields = with_field(
                Map::empty(),
                "external_web_access"@,
                match external_web_access {
                    Some(access) => Some(JsonView::Bool(access)),
                    None => None,
                },
            );
            let fields = with_field(
                fields,
                "filters"@,
                match filters {
                    Some(filters) => Some(filters_json(filters)),
                    None => None,
                },
            );
            let fields = with_field(
                fields,
                "user_location"@,
                match user_location {
                    Some(location) => Some(location_json(location)),
                    None => None,
                },
            );
            let fields = with_field(
                fields,
                "search_context_size"@,
                match search_context_size {
                    Some(size) => Some(size_json(size)),
                    None => None,
                },
            );
            let fields = with_field(
                fields,
                "search_content_types"@,
                match search_content_types {
                    Some(types) => Some(texts_json(types@)),
                    None => None,
                },
            );
            tagged(fields, "web_search"@)
        },
        ToolSpec::Freeform(tool) => tagged(named_fields(tool.name@, tool.fields@), "custom"@),
    }
}

/// The name of a tool.
pub open spec fn tool_name(tool: ToolSpec) -> Seq<char> {
    match tool {
        ToolSpec::Function(tool) => tool.name@,
        ToolSpec::Namespace(namespace) => namespace.name@,
        ToolSpec::ToolSearch { .. } => "tool_search"@,
        ToolSpec::ImageGeneration { .. } => "image_generation"@,
        ToolSpec::WebSearch { .. } => "web_search"@,
        ToolSpec::Freeform(tool) => tool.name@,
    }
}

fn texts_into_json(texts: &Vec<String>) -> (result: Json)
    ensures
        result@ == texts_json(texts@),
{
    let mut items: Vec<Json> = Vec::new();
    let mut i: usize = 0;
    while i < texts.len()
        invariant
            i <= texts.len(),
            items.len() == i,
            forall|j: int| 0 <= j < i ==> #[trigger] items[j]@ == JsonView::Str(texts[j]@),
        decreases texts.len() - i,
    {
        items.push(Json::string(texts[i].as_str()));
        i = i + 1;
    }
    proof {
        lemma_items_view(items@);
        assert(items_view(items@) =~= texts@.map_values(|text: String| JsonView::Str(text@)));
    }
    Json::Array(items)
}

fn put(fields: &mut Vec<(String, Json)>, key: &str, value: Json)
    ensures
        fields_view(final(fields)@) == fields_view(old(fields)@).insert(key@, value@),
{
    insert_field(fields, key.to_owned(), value);
}

fn put_text(fields: &mut Vec<(String, Json)>, key: &str, text: &Option<String>)
    ensures
        fields_view(final(fields)@) == with_field(fields_view(old(fields)@), key@, text_json(*text)),
{
    if let Some(text) = text {
        put(fields, key, Json::string(text.as_str()));
    }
}

fn into_tagged(fields: Vec<(String, Json)>, tag: &str) -> (result: Json)
    ensures
        result@ == tagged(fields_view(fields@), tag@),
{
    let mut fields = fields;
    put(&mut fields, "type", Json::string(tag));
    Json::Object(fields)
}

fn into_named_fields(name: &str, fields: &Vec<(String, Json)>) -> (result: Vec<(String, Json)>)
    ensures
        fields_view(result@) == named_fields(name@, fields@),
{
    let mut named = copy_fields(fields);
    put(&mut named, "name", Json::string(name));
    named
}

impl ResponsesApiWebSearchFilters {
    /// The JSON form of the filters.
    pub fn to_json(&self) -> (result: Json)
        ensures
            result@ == filters_json(*self),
    {
        let mut fields: Vec<(String, Json)> = Vec::new();
        if let Some(domains) = &self.allowed_domains {
            put(&mut fields, "allowed_domains", texts_into_json(domains));
        }
        Json::Object(fields)
    }
}

impl ResponsesApiWebSearchUserLocation {
    /// The JSON form of the location.
    pub fn to_json(&self) -> (result: Json)
        ensures
            result@ == location_json(*self),
    {
        let mut fields: Vec<(String, Json)> = Vec::new();
        put(&mut fields, "type", Json::string("approximate"));
        put_text(&mut fields, "country", &self.country);
        put_text(&mut fields, "region", &self.region);
        put_text(&mut fields, "city", &self.city);
        put_text(&mut fields, "timezone", &self.timezone);
        Json::Object(fields)
    }
}

fn namespace_tools_into_json(tools: &Vec<ResponsesApiNamespaceTool>) -> (result: Json)
    ensures
        result@ == JsonView::Array(
            tools@.map_values(|tool: ResponsesApiNamespaceTool| namespace_tool_json(tool)),
        ),
{
    let mut items: Vec<Json> = Vec::new();
    let mut i: usize = 0;
    while i < tools.len()
        invariant
            i <= tools.len(),
            items.len() == i,
            forall|j: int| 0 <= j < i ==> #[trigger] items[j]@ == namespace_tool_json(tools[j]),
        decreases tools.len() - i,
    {
        match &tools[i] {
            ResponsesApiNamespaceTool::Function(tool) => {
                let fields = into_named_fields(tool.name.as_str(), &tool.fields);
                items.push(into_tagged(fields, "function"));
            },
        }
        i = i + 1;
    }
    proof {
        lemma_items_view(items@);
        assert(items_view(items@) =~= tools@.map_values(
            |tool: ResponsesApiNamespaceTool| namespace_tool_json(tool),
        ));
    }
    Json::Array(items)
}

impl ToolSpec {
    /// The name of the tool.
    pub fn name(&self) -> (result: &str)
        ensures
            result@ == tool_name(*self),
    {
        match self {
            ToolSpec::Function(tool) => tool.name.as_str(),
            ToolSpec::Namespace(namespace) => namespace.name.as_str(),
            ToolSpec::ToolSearch { .. } => "tool_search",
            ToolSpec::ImageGeneration { .. } => "image_generation",
            ToolSpec::WebSearch { .. } => "web_search",
            ToolSpec::Freeform(tool) => tool.name.as_str(),
        }
    }

    /// The JSON form of the tool in the Responses API.
    pub fn to_json(&self) -> (result: Json)
        ensures
            result@ == tool_json(*self),
    {
        match self {
            ToolSpec::Function(tool) => into_tagged(
                into_named_fields(tool.name.as_str(), &tool.fields),
                "function",
            ),
            ToolSpec::Namespace(namespace) => {
                let mut fields = into_named_fields(namespace.name.as_str(), &namespace.fields);
                put(&mut fields, "tools", namespace_tools_into_json(&namespace.tools));
                into_tagged(fields, "namespace")
            },
            ToolSpec::ToolSearch { execution, description, parameters } => {
                let mut fields: Vec<(String, Json)> = Vec::new();
                put(&mut fields, "execution", Json::string(execution.as_str()));
                put(&mut fields, "description", Json::string(description.as_str()));
                put(&mut fields, "parameters", parameters.clone());
                into_tagged(fields, "tool_search")
            },
            ToolSpec::ImageGeneration { output_format } => {
                let mut fields: Vec<(String, Json)> = Vec::new();
                put(&mut fields, "output_format", Json::string(output_format.as_str()));
                into_tagged(fields, "image_generation")
            },
            ToolSpec::WebSearch {
                external_web_access,
                filters,
                user_location,
                search_context_size,
                search_content_types,
            } => {
                let mut fields: Vec<(String, Json)> = Vec::new();
                if let Some(access) = external_web_access {
                    put(&mut fields, "external_web_access", Json::Bool(*access));
                }
                if let Some(filters) = filters {
                    put(&mut fields, "filters", filters.to_json());
                }
                if let Some(location) = user_location {
                    put(&mut fields, "user_location", location.to_json());
                }
                if let Some(size) = search_context_size {
                    let text = match size {
                        WebSearchContextSize::Low => "low",
                        WebSearchContextSize::Medium => "medium",
                        WebSearchContextSize::High => "high",
                    };
                    put(&mut fields, "search_context_size", Json::string(text));
                }
                if let Some(types) = search_content_types {
                    put(&mut fields, "search_content_types", texts_into_json(types));
                }
                into_tagged(fields, "web_search")
            },
            ToolSpec::Freeform(tool) => into_tagged(
                into_named_fields(tool.name.as_str(), &tool.fields),
                "custom",
            ),
        }
    }
}

/// The JSON forms of tools in the Responses API, in order. It never fails.
pub fn create_tools_json_for_responses_api(tools: &[ToolSpec]) -> (result: Result<
    Vec<Json>,
    serde_json::Error,
>)
    ensures
        match result {
            Ok(items) => items_view(items@) == tools@.map_values(|tool: ToolSpec| tool_json(tool)),
            Err(_) => false,
        },
{
    let mut items: Vec<Json> = Vec::new();
    let mut i: usize = 0;
    while i < tools.len()
        invariant
            i <= tools.len(),
            items.len() == i,
            forall|j: int| 0 <= j < i ==> #[trigger] items[j]@ == tool_json(tools[j]),
        decreases tools.len() - i,
    {
        items.push(tools[i].to_json());
        i = i + 1;
    }
    proof {
        lemma_items_view(items@);
        assert(items_view(items@) =~= tools@.map_values(|tool: ToolSpec| tool_json(tool)));
    }
    Ok(items)
}

/// The name that a namespace's tool has outside of it.
pub fn flatten_namespace_tool_name(namespace: &str, name: &str) -> (result: String)
    ensures
        result@ == namespace@ + name@,
{
    let mut flattened = namespace.to_owned();
    flattened.append(name);
    flattened
}

/// The JSON form of a function tool in the Chat Completions API: its name, and
/// all that describes it under `function`.
pub open spec fn chat_tool(name: Seq<char>, fields: Seq<(String, Json)>) -> JsonView {
    JsonView::Object(
        Map::empty().insert("type"@, JsonView::Str("function"@)).insert(
            "name"@,
            JsonView::Str(name),
        ).insert("function"@, JsonView::Object(named_fields(name, fields).remove("type"@))),
    )
}

/// The first `n` tools of a namespace in the Chat Completions API.
pub open spec fn namespace_chat_tools(namespace: ResponsesApiNamespace, n: nat) -> Seq<JsonView>
    decreases n,
{
    if n == 0 {
        Seq::empty()
    } else {
        match namespace.tools@[n - 1] {
            ResponsesApiNamespaceTool::Function(tool) => namespace_chat_tools(
                namespace,
                (n - 1) as nat,
            ).push(chat_tool(namespace.name@ + tool.name@, tool.fields@)),
        }
    }
}

/// The entries that a tool makes in the Chat Completions API, which has
/// functions only.
pub open spec fn chat_tools_of(tool: ToolSpec) -> Seq<JsonView> {
    match tool {
        ToolSpec::Function(tool) => seq![chat_tool(tool.name@, tool.fields@)],
        ToolSpec::Namespace(namespace) => namespace_chat_tools(namespace, namespace.tools@.len()),
        _ => Seq::empty(),
    }
}

/// The entries that tools make in the Chat Completions API, in order.
pub open spec fn chat_tools(tools: Seq<ToolSpec>) -> Seq<JsonView>
    decreases tools.len(),
{
    if tools.len() == 0 {
        Seq::empty()
    } else {
        chat_tools(tools.drop_last()) + chat_tools_of(tools.last())
    }
}

fn create_chat_completions_function_tool(name: &str, fields: &Vec<(String, Json)>) -> (result: Json)
    ensures
        result@ == chat_tool(name@, fields@),
{
    let mut function = into_named_fields(name, fields);
    remove_field(&mut function, "type");
    let mut entry: Vec<(String, Json)> = Vec::new();
    put(&mut entry, "type", Json::string("function"));
    put(&mut entry, "name", Json::string(name));
    put(&mut entry, "function", Json::Object(function));
    Json::Object(entry)
}

proof fn lemma_item_pushed(items: Seq<Json>, item: Json)
    ensures
        items_view(items.push(item)) == items_view(items).push(item@),
{
    lemma_items_view(items);
    lemma_items_view(items.push(item));
    assert(items_view(items.push(item)) =~= items_view(items).push(item@));
}

/// The entries that tools make in the Chat Completions API, in order: functions
/// and the functions of namespaces, the latter under their flattened names.
/// Other tools make none. It never fails.
pub fn create_tools_json_for_chat_completions_api(tools: &[ToolSpec]) -> (result: Result<
    Vec<Json>,
    serde_json::Error,
>)
    ensures
        match result {
            Ok(items) => items_view(items@) == chat_tools(tools@),
            Err(_) => false,
        },
{
    let mut items: Vec<Json> = Vec::new();
    let mut i: usize = 0;
    assert(tools@.take(0) =~= Seq::empty());
    assert(items_view(items@) =~= Seq::empty());
    while i < tools.len()
        invariant
            i <= tools.len(),
            items_view(items@) == chat_tools(tools@.take(i as int)),
        decreases tools.len() - i,
    {
        let ghost before = items_view(items@);
        assert(tools@.take(i + 1).drop_last() =~= tools@.take(i as int));
        assert(tools@.take(i + 1).last() == tools@[i as int]);
        match &tools[i] {
            ToolSpec::Function(tool) => {
                let item = create_chat_completions_function_tool(tool.name.as_str(), &tool.fields);
                proof {
                    lemma_item_pushed(items@, item);
                }
                items.push(item);
                assert(items_view(items@) =~= before + chat_tools_of(tools@[i as int]));
            },
            ToolSpec::Namespace(namespace) => {
                let mut k: usize = 0;
                assert(before =~= before + namespace_chat_tools(*namespace, 0));
                while k < namespace.tools.len()
                    invariant
                        k <= namespace.tools.len(),
                        items_view(items@) == before + namespace_chat_tools(*namespace, k as nat),
                    decreases namespace.tools.len() - k,
                {
                    let ghost so_far = items_view(items@);
                    match &namespace.tools[k] {
                        ResponsesApiNamespaceTool::Function(tool) => {
                            let name = flatten_namespace_tool_name(
                                namespace.name.as_str(),
                                tool.name.as_str(),
                            );
                            let item = create_chat_completions_function_tool(
                                name.as_str(),
                                &tool.fields,
                            );
                            proof {
                                lemma_item_pushed(items@, item);
                            }
                            items.push(item);
                        },
                    }
                    assert(items_view(items@) =~= before + namespace_chat_tools(
                        *namespace,
                        (k + 1) as nat,
                    ));
                    k = k + 1;
                }
            },
            ToolSpec::ToolSearch { .. } => {
                assert(before =~= before + chat_tools_of(tools@[i as int]));
            },
            ToolSpec::ImageGeneration { .. } => {
                assert(before =~= before + chat_tools_of(tools@[i as int]));
            },
            ToolSpec::WebSearch { .. } => {
                assert(before =~= before + chat_tools_of(tools@[i as int]));
            },
            ToolSpec::Freeform(_) => {
                assert(before =~= before + chat_tools_of(tools@[i as int]));
            },
        }
        i = i + 1;
    }
    assert(tools@.take(i as int) =~= tools@);
    Ok(items)
}

/// Whether a value has the form that the Chat Completions API wants of a tool:
/// a function whose name stands outside and inside, and whose description has
/// no tag of its own.
pub open spec fn is_chat_tool(entry: JsonView) -> bool {
    &&& entry.text_field("type"@) == Some("function"@)
    &&& entry.text_field("name"@) is Some
    &&& entry.field("function"@) matches Some(function) && {
        &&& function.text_field("name"@) == entry.text_field("name"@)
        &&& function.field("type"@) is None
    }
}

proof fn lemma_chat_tool_form(name: Seq<char>, fields: Seq<(String, Json)>)
    ensures
        is_chat_tool(chat_tool(name, fields)),
{
    reveal_strlit("type");
    reveal_strlit("name");
    reveal_strlit("function");
    assert("type"@[0] != "name"@[0]);
    assert("function"@.len() == 8);
    assert("type"@.len() == 4);
    assert("name"@.len() == 4);
}

proof fn lemma_namespace_chat_tool_form(namespace: ResponsesApiNamespace, n: nat)
    ensures
        forall|i: int|
            0 <= i < namespace_chat_tools(namespace, n).len() ==> is_chat_tool(
                #[trigger] namespace_chat_tools(namespace, n)[i],
            ),
    decreases n,
{
    if n > 0 {
        lemma_namespace_chat_tool_form(namespace, (n - 1) as nat);
        match namespace.tools@[n - 1] {
            ResponsesApiNamespaceTool::Function(tool) => {
                lemma_chat_tool_form(namespace.name@ + tool.name@, tool.fields@);
            },
        }
        let shorter = namespace_chat_tools(namespace, (n - 1) as nat);
        assert forall|i: int| 0 <= i < namespace_chat_tools(namespace, n).len() implies is_chat_tool(
            #[trigger] namespace_chat_tools(namespace, n)[i],
        ) by {
            if i < shorter.len() {
                assert(is_chat_tool(shorter[i]));
            }
        }
    }
}

/// Every entry that goes out in the Chat Completions API is a function with its
/// body nested under `function`, under one name outside and inside.
pub proof fn law_chat_tools_are_nested_functions(tools: Seq<ToolSpec>, i: int)
    requires
        0 <= i < chat_tools(tools).len(),
    ensures
        is_chat_tool(chat_tools(tools)[i]),
    decreases tools.len(),
{
    let shorter = chat_tools(tools.drop_last());
    if i < shorter.len() {
        law_chat_tools_are_nested_functions(tools.drop_last(), i);
    } else {
        let k = i - shorter.len();
        assert(chat_tools(tools)[i] == chat_tools_of(tools.last())[k]);
        match tools.last() {
            ToolSpec::Function(tool) => {
                lemma_chat_tool_form(tool.name@, tool.fields@);
            },
            ToolSpec::Namespace(namespace) => {
                lemma_namespace_chat_tool_form(namespace, namespace.tools@.len());
                assert(is_chat_tool(namespace_chat_tools(namespace, namespace.tools@.len())[k]));
            },
            _ => {},
        }
    }
}

/// Tools that the Chat Completions API has no form for leave what goes out as
/// it is.
pub proof fn law_other_tools_make_no_entry(tools: Seq<ToolSpec>, tool: ToolSpec)
    requires
        !(tool is Function) && !(tool is Namespace),
    ensures
        chat_tools(tools.push(tool)) == chat_tools(tools),
{
    assert(tools.push(tool).drop_last() =~= tools);
    assert(chat_tools(tools) + Seq::<JsonView>::empty() =~= chat_tools(tools));
}

} // verus!
