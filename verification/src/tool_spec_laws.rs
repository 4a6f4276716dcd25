//! What the JSON forms of tools bind, said of the tools themselves.

use vstd::prelude::*;
use vstd::std_specs::convert::FromSpec;

use crate::json::{fields_view, JsonView};
use crate::tool_spec::{
    chat_tools, chat_tools_of, filters_json, location_json, namespace_chat_tools,
    namespace_tool_json, texts_json, tool_json, tool_name, FreeformTool, LoadableToolSpec,
    ResponsesApiNamespace, ResponsesApiNamespaceTool, ResponsesApiTool,
    ResponsesApiWebSearchFilters, ResponsesApiWebSearchUserLocation, ToolSpec,
    WebSearchContextSize, WebSearchFilters, WebSearchUserLocation,
};

verus! {

/// Whether fields are a tool's own under the given name: each of its own fields
/// with its own value, but for the name and the tag, and no other field.
pub open spec fn are_own_fields(
    fields: Map<Seq<char>, JsonView>,
    name: Seq<char>,
    own: Map<Seq<char>, JsonView>,
) -> bool {
    &&& fields.contains_key("name"@)
    &&& fields["name"@] == JsonView::Str(name)
    &&& forall|key: Seq<char>|
        #![trigger fields.contains_key(key)]
        #![trigger own.contains_key(key)]
        key != "name"@ && key != "type"@ ==> fields.contains_key(key) == own.contains_key(key)
    &&& forall|key: Seq<char>|
        #![trigger fields[key]]
        #![trigger own[key]]
        key != "name"@ && key != "type"@ && own.contains_key(key) ==> fields[key] == own[key]
}

/// Whether an entry of the Chat Completions API is a function under the given
/// name, outside and inside, that is described by the given fields and by no
/// other.
pub open spec fn is_entry_of(
    entry: JsonView,
    name: Seq<char>,
    own: Map<Seq<char>, JsonView>,
) -> bool {
    &&& entry is Object
    &&& entry->Object_0.dom() == set!["type"@, "name"@, "function"@]
    &&& entry->Object_0["type"@] == JsonView::Str("function"@)
    &&& entry->Object_0["name"@] == JsonView::Str(name)
    &&& entry->Object_0["function"@] is Object
    &&& !entry->Object_0["function"@]->Object_0.contains_key("type"@)
    &&& are_own_fields(entry->Object_0["function"@]->Object_0, name, own)
}

proof fn lemma_entry_keys()
    ensures
        "type"@ != "name"@,
        "type"@ != "function"@,
        "name"@ != "function"@,
        "type"@ != "tools"@,
        "name"@ != "tools"@,
{
    reveal_strlit("type");
    reveal_strlit("name");
    reveal_strlit("function");
    reveal_strlit("tools");
    assert("type"@[0] != "name"@[0]);
    assert("type"@.len() == 4);
    assert("name"@.len() == 4);
    assert("function"@.len() == 8);
    assert("tools"@.len() == 5);
}

proof fn lemma_entry(name: Seq<char>, fields: Seq<(String, crate::json::Json)>)
    ensures
        is_entry_of(crate::tool_spec::chat_tool(name, fields), name, fields_view(fields)),
{
    lemma_entry_keys();
    let entry = crate::tool_spec::chat_tool(name, fields);
    assert(entry->Object_0.dom() =~= set!["type"@, "name"@, "function"@]);
}

/// A function makes one entry, which describes it by its own fields.
pub proof fn law_functions_make_their_entry(tool: ResponsesApiTool)
    ensures
        chat_tools_of(ToolSpec::Function(tool)).len() == 1,
        is_entry_of(
            chat_tools_of(ToolSpec::Function(tool))[0],
            tool.name@,
            fields_view(tool.fields@),
        ),
{
    lemma_entry(tool.name@, tool.fields@);
}

proof fn lemma_namespace_entries(namespace: ResponsesApiNamespace, n: nat)
    requires
        n <= namespace.tools@.len(),
    ensures
        namespace_chat_tools(namespace, n).len() == n,
        forall|k: int|
            0 <= k < n ==> namespace.tools@[k] is Function && is_entry_of(
                #[trigger] namespace_chat_tools(namespace, n)[k],
                namespace.name@ + namespace.tools@[k]->Function_0.name@,
                fields_view(namespace.tools@[k]->Function_0.fields@),
            ),
    decreases n,
{
    if n > 0 {
        lemma_namespace_entries(namespace, (n - 1) as nat);
        let shorter = namespace_chat_tools(namespace, (n - 1) as nat);
        let longer = namespace_chat_tools(namespace, n);
        match namespace.tools@[n - 1] {
            ResponsesApiNamespaceTool::Function(tool) => {
                lemma_entry(namespace.name@ + tool.name@, tool.fields@);
            },
        }
        assert forall|k: int| 0 <= k < n implies namespace.tools@[k] is Function && is_entry_of(
            #[trigger] longer[k],
            namespace.name@ + namespace.tools@[k]->Function_0.name@,
            fields_view(namespace.tools@[k]->Function_0.fields@),
        ) by {
            if k < n - 1 {
                assert(longer[k] == shorter[k]);
            }
        }
    }
}

/// A namespace makes one entry for each of its tools, in order. The entry stands
/// under the namespace's name with the tool's behind it, and describes the tool
/// by the tool's own fields: none of the namespace's shows in it.
pub proof fn law_namespace_tools_make_their_entries(
    namespace: ResponsesApiNamespace,
    tool: ResponsesApiTool,
    k: int,
)
    requires
        0 <= k < namespace.tools@.len(),
        namespace.tools@[k] == ResponsesApiNamespaceTool::Function(tool),
    ensures
        chat_tools_of(ToolSpec::Namespace(namespace)).len() == namespace.tools@.len(),
        is_entry_of(
            chat_tools_of(ToolSpec::Namespace(namespace))[k],
            namespace.name@ + tool.name@,
            fields_view(tool.fields@),
        ),
{
    lemma_namespace_entries(namespace, namespace.tools@.len());
    let entry = namespace_chat_tools(namespace, namespace.tools@.len())[k];
    assert(is_entry_of(entry, namespace.name@ + tool.name@, fields_view(tool.fields@)));
}

/// The entries of tools are those of each tool in turn; a tool that is neither a
/// function nor a namespace makes none.
pub proof fn law_entries_follow_the_tools(tools: Seq<ToolSpec>, tool: ToolSpec)
    ensures
        chat_tools(Seq::empty()).len() == 0,
        chat_tools(tools.push(tool)) == chat_tools(tools) + chat_tools_of(tool),
        !(tool is Function) && !(tool is Namespace) ==> chat_tools_of(tool).len() == 0,
{
    assert(tools.push(tool).drop_last() =~= tools);
}

/// A tool without fields of its own is described in the Responses API by its kind
/// and what it holds; a named one by its kind, its name and its own fields; a
/// namespace by its tools as well, one for one and in order.
pub proof fn law_tools_bind_what_they_hold(
    tool: ResponsesApiTool,
    freeform: FreeformTool,
    namespace: ResponsesApiNamespace,
    k: int,
)
    requires
        0 <= k < namespace.tools@.len(),
    ensures
        tool_json(ToolSpec::Function(tool)) matches JsonView::Object(fields) && {
            &&& are_own_fields(fields, tool.name@, fields_view(tool.fields@))
            &&& fields.contains_key("type"@) && fields["type"@] == JsonView::Str("function"@)
        },
        tool_json(ToolSpec::Freeform(freeform)) matches JsonView::Object(fields) && {
            &&& are_own_fields(fields, freeform.name@, fields_view(freeform.fields@))
            &&& fields.contains_key("type"@) && fields["type"@] == JsonView::Str("custom"@)
        },
        tool_json(ToolSpec::Namespace(namespace)) matches JsonView::Object(fields) && {
            &&& fields.contains_key("tools"@)
            &&& fields["tools"@] is Array
            &&& fields["tools"@]->Array_0.len() == namespace.tools@.len()
            &&& fields["tools"@]->Array_0[k] == namespace_tool_json(namespace.tools@[k])
            &&& are_own_fields(
                fields,
                namespace.name@,
                fields_view(namespace.fields@).insert("tools"@, fields["tools"@]),
            )
            &&& fields.contains_key("type"@) && fields["type"@] == JsonView::Str("namespace"@)
        },
        namespace_tool_json(ResponsesApiNamespaceTool::Function(tool)) == tool_json(
            ToolSpec::Function(tool),
        ),
{
    lemma_entry_keys();
}

/// A tool search is described by how it runs, what it is and what it takes, and
/// image generation by the format that it gives.
pub proof fn law_built_in_tools_bind_what_they_hold(tool: ToolSpec)
    ensures
        tool matches ToolSpec::ToolSearch { execution, description, parameters } ==> tool_json(tool)
            == JsonView::Object(
            map![
                "execution"@ => JsonView::Str(execution@),
                "description"@ => JsonView::Str(description@),
                "parameters"@ => parameters@,
                "type"@ => JsonView::Str("tool_search"@),
            ],
        ),
        tool matches ToolSpec::ImageGeneration { output_format } ==> tool_json(tool)
            == JsonView::Object(
            map![
                "output_format"@ => JsonView::Str(output_format@),
                "type"@ => JsonView::Str("image_generation"@),
            ],
        ),
        match tool {
            ToolSpec::Function(function) => tool_name(tool) == function.name@,
            ToolSpec::Namespace(namespace) => tool_name(tool) == namespace.name@,
            ToolSpec::Freeform(freeform) => tool_name(tool) == freeform.name@,
            ToolSpec::ToolSearch { .. } => tool_name(tool) == "tool_search"@,
            ToolSpec::ImageGeneration { .. } => tool_name(tool) == "image_generation"@,
            ToolSpec::WebSearch { .. } => tool_name(tool) == "web_search"@,
        },
{
}

/// Whether a field is there exactly where its value is given, with that value.
pub open spec fn is_bound_where_given(
    fields: Map<Seq<char>, JsonView>,
    key: Seq<char>,
    value: Option<JsonView>,
) -> bool {
    &&& fields.contains_key(key) == value is Some
    &&& value is Some ==> fields[key] == value->0
}

/// A text that may be missing, as a value that may be missing.
pub open spec fn as_given(text: Option<String>) -> Option<JsonView> {
    if text is Some {
        Some(JsonView::Str(text->0@))
    } else {
        None
    }
}

/// A web search is described by each of its settings that is given, and by
/// nothing else but its kind.
pub proof fn law_web_searches_bind_what_is_given(
    tool: ToolSpec,
    access: Option<bool>,
    filters: Option<ResponsesApiWebSearchFilters>,
    location: Option<ResponsesApiWebSearchUserLocation>,
    size: Option<WebSearchContextSize>,
    types: Option<Vec<String>>,
)
    requires
        tool == (ToolSpec::WebSearch {
            external_web_access: access,
            filters,
            user_location: location,
            search_context_size: size,
            search_content_types: types,
        }),
    ensures
        tool_json(tool) matches JsonView::Object(fields) && {
            &&& is_bound_where_given(
                fields,
                "external_web_access"@,
                if access is Some {
                    Some(JsonView::Bool(access->0))
                } else {
                    None
                },
            )
            &&& is_bound_where_given(
                fields,
                "filters"@,
                if filters is Some {
                    Some(filters_json(filters->0))
                } else {
                    None
                },
            )
            &&& is_bound_where_given(
                fields,
                "user_location"@,
                if location is Some {
                    Some(location_json(location->0))
                } else {
                    None
                },
            )
            &&& is_bound_where_given(
                fields,
                "search_context_size"@,
                match size {
                    Some(WebSearchContextSize::Low) => Some(JsonView::Str("low"@)),
                    Some(WebSearchContextSize::Medium) => Some(JsonView::Str("medium"@)),
                    Some(WebSearchContextSize::High) => Some(JsonView::Str("high"@)),
                    None => None,
                },
            )
            &&& is_bound_where_given(
                fields,
                "search_content_types"@,
                if types is Some {
                    Some(texts_json(types->0@))
                } else {
                    None
                },
            )
            &&& fields.contains_key("type"@) && fields["type"@] == JsonView::Str("web_search"@)
            &&& fields.dom().subset_of(
                set![
                    "type"@,
                    "external_web_access"@,
                    "filters"@,
                    "user_location"@,
                    "search_context_size"@,
                    "search_content_types"@,
                ],
            )
        },
{
    reveal_strlit("type");
    reveal_strlit("external_web_access");
    reveal_strlit("filters");
    reveal_strlit("user_location");
    reveal_strlit("search_context_size");
    reveal_strlit("search_content_types");
    assert("type"@.len() == 4);
    assert("external_web_access"@.len() == 19 && "external_web_access"@[0] == 'e');
    assert("filters"@.len() == 7);
    assert("user_location"@.len() == 13);
    assert("search_context_size"@.len() == 19 && "search_context_size"@[0] == 's');
    assert("search_content_types"@.len() == 20);
}

/// A user's location is described by each of its parts that is given and that it
/// is approximate, filters by the domains where they are given, and texts one for
/// one and in order.
pub proof fn law_search_settings_bind_what_is_given(
    location: ResponsesApiWebSearchUserLocation,
    filters: ResponsesApiWebSearchFilters,
    texts: Seq<String>,
)
    ensures
        location_json(location) matches JsonView::Object(fields) && {
            &&& is_bound_where_given(fields, "country"@, as_given(location.country))
            &&& is_bound_where_given(fields, "region"@, as_given(location.region))
            &&& is_bound_where_given(fields, "city"@, as_given(location.city))
            &&& is_bound_where_given(fields, "timezone"@, as_given(location.timezone))
            &&& fields.contains_key("type"@) && fields["type"@] == JsonView::Str("approximate"@)
            &&& fields.dom().subset_of(
                set!["type"@, "country"@, "region"@, "city"@, "timezone"@],
            )
        },
        filters_json(filters) matches JsonView::Object(fields) && {
            &&& is_bound_where_given(
                fields,
                "allowed_domains"@,
                if filters.allowed_domains is Some {
                    Some(texts_json(filters.allowed_domains->0@))
                } else {
                    None
                },
            )
            &&& fields.dom().subset_of(set!["allowed_domains"@])
        },
        texts_json(texts) matches JsonView::Array(items) && {
            &&& items.len() == texts.len()
            &&& forall|i: int|
                0 <= i < texts.len() ==> #[trigger] items[i] == JsonView::Str(texts[i]@)
        },
{
    reveal_strlit("type");
    reveal_strlit("country");
    reveal_strlit("region");
    reveal_strlit("city");
    reveal_strlit("timezone");
    assert("type"@.len() == 4 && "type"@[0] == 't');
    assert("country"@.len() == 7);
    assert("region"@.len() == 6);
    assert("city"@.len() == 4 && "city"@[0] == 'c');
    assert("timezone"@.len() == 8);
}

/// What is taken from the configuration, or loaded on demand, is taken over part
/// by part.
pub proof fn law_settings_are_taken_over(
    tool: ResponsesApiTool,
    namespace: ResponsesApiNamespace,
    filters: WebSearchFilters,
    location: WebSearchUserLocation,
)
    ensures
        <ToolSpec as FromSpec<LoadableToolSpec>>::from_spec(LoadableToolSpec::Function(tool))
            == ToolSpec::Function(tool),
        <ToolSpec as FromSpec<LoadableToolSpec>>::from_spec(LoadableToolSpec::Namespace(namespace))
            == ToolSpec::Namespace(namespace),
        <ResponsesApiWebSearchFilters as FromSpec<WebSearchFilters>>::from_spec(
            filters,
        ).allowed_domains == filters.allowed_domains,
        ({
            let taken = <ResponsesApiWebSearchUserLocation as FromSpec<
                WebSearchUserLocation,
            >>::from_spec(location);
            &&& taken.location_type == location.location_type
            &&& taken.country == location.country
            &&& taken.region == location.region
            &&& taken.city == location.city
            &&& taken.timezone == location.timezone
        }),
{
}

} // verus!
