//! Tool specifications and messages between agents.

use chat_wire::json::{parse_json, to_value, Json};
use chat_wire::multi_agent::{
    communication_from_tool_message, AgentMessageContentMode, CommunicationContent,
};
use chat_wire::tool_spec::{
    create_tools_json_for_chat_completions_api, create_tools_json_for_responses_api,
    flatten_namespace_tool_name, FreeformTool, LoadableToolSpec, ResponsesApiNamespace,
    ResponsesApiNamespaceTool, ResponsesApiTool, ResponsesApiWebSearchFilters,
    ResponsesApiWebSearchUserLocation, ToolSpec, WebSearchContextSize, WebSearchFilters,
    WebSearchUserLocation, WebSearchUserLocationType,
};
use serde_json::Value;

fn value(text: &str) -> Value {
    serde_json::from_str(text).expect("valid JSON")
}

fn json(text: &str) -> Json {
    parse_json(text).expect("valid JSON")
}

fn function(name: &str) -> ResponsesApiTool {
    ResponsesApiTool {
        name: name.to_string(),
        fields: vec![
            ("description".to_string(), json(r#""Does it""#)),
            ("strict".to_string(), json("false")),
            ("parameters".to_string(), json(r#"{"type":"object","properties":{}}"#)),
        ],
    }
}

fn all_tools() -> Vec<ToolSpec> {
    vec![
        ToolSpec::Function(function("do_it")),
        ToolSpec::Namespace(ResponsesApiNamespace {
            name: "mcp__".to_string(),
            fields: vec![("description".to_string(), json(r#""Server""#))],
            tools: vec![
                ResponsesApiNamespaceTool::Function(function("one")),
                ResponsesApiNamespaceTool::Function(function("two")),
            ],
        }),
        ToolSpec::ToolSearch {
            execution: "client".to_string(),
            description: "Searches".to_string(),
            parameters: json(r#"{"type":"object"}"#),
        },
        ToolSpec::ImageGeneration { output_format: "png".to_string() },
        ToolSpec::WebSearch {
            external_web_access: Some(true),
            filters: Some(ResponsesApiWebSearchFilters {
                allowed_domains: Some(vec!["a.com".to_string(), "b.org".to_string()]),
            }),
            user_location: Some(ResponsesApiWebSearchUserLocation {
                location_type: WebSearchUserLocationType::Approximate,
                country: Some("FR".to_string()),
                region: None,
                city: Some("Paris".to_string()),
                timezone: None,
            }),
            search_context_size: Some(WebSearchContextSize::High),
            search_content_types: Some(vec!["text".to_string()]),
        },
        ToolSpec::Freeform(FreeformTool {
            name: "apply_patch".to_string(),
            fields: vec![("description".to_string(), json(r#""Patches""#))],
        }),
    ]
}

fn values(items: Vec<Json>) -> Vec<Value> {
    items.iter().map(to_value).collect()
}

#[test]
fn tools_are_named() {
    let tools = all_tools();
    let names: Vec<&str> = tools.iter().map(|tool| tool.name()).collect();
    assert_eq!(
        names,
        vec![
            "do_it",
            "mcp__",
            "tool_search",
            "image_generation",
            "web_search",
            "apply_patch",
        ]
    );
}

#[test]
fn responses_api_tools_are_tagged() {
    let items = values(create_tools_json_for_responses_api(&all_tools()).expect("tools"));
    assert_eq!(items.len(), 6);
    assert_eq!(
        items[0],
        value(
            r#"{"type":"function","name":"do_it","description":"Does it","strict":false,
                "parameters":{"type":"object","properties":{}}}"#
        )
    );
    assert_eq!(
        items[1],
        value(
            r#"{"type":"namespace","name":"mcp__","description":"Server","tools":[
                {"type":"function","name":"one","description":"Does it","strict":false,
                 "parameters":{"type":"object","properties":{}}},
                {"type":"function","name":"two","description":"Does it","strict":false,
                 "parameters":{"type":"object","properties":{}}}]}"#
        )
    );
    assert_eq!(
        items[2],
        value(
            r#"{"type":"tool_search","execution":"client","description":"Searches",
                "parameters":{"type":"object"}}"#
        )
    );
    assert_eq!(items[3], value(r#"{"type":"image_generation","output_format":"png"}"#));
    assert_eq!(
        items[4],
        value(
            r#"{"type":"web_search","external_web_access":true,
                "filters":{"allowed_domains":["a.com","b.org"]},
                "user_location":{"type":"approximate","country":"FR","city":"Paris"},
                "search_context_size":"high","search_content_types":["text"]}"#
        )
    );
    assert_eq!(items[5], value(r#"{"type":"custom","name":"apply_patch","description":"Patches"}"#));
}

#[test]
fn absent_web_search_fields_are_left_out() {
    let tools = vec![ToolSpec::WebSearch {
        external_web_access: None,
        filters: None,
        user_location: None,
        search_context_size: None,
        search_content_types: None,
    }];
    let items = values(create_tools_json_for_responses_api(&tools).expect("tools"));
    assert_eq!(items, vec![value(r#"{"type":"web_search"}"#)]);
    let no_domains = ResponsesApiWebSearchFilters { allowed_domains: None };
    assert_eq!(to_value(&no_domains.to_json()), value("{}"));
}

#[test]
fn chat_tools_are_nested_functions() {
    let items = values(create_tools_json_for_chat_completions_api(&all_tools()).expect("tools"));
    assert_eq!(items.len(), 3);
    assert_eq!(
        items[0],
        value(
            r#"{"type":"function","name":"do_it","function":{"name":"do_it",
                "description":"Does it","strict":false,
                "parameters":{"type":"object","properties":{}}}}"#
        )
    );
    let names: Vec<&str> = items.iter().map(|item| item["name"].as_str().unwrap()).collect();
    assert_eq!(names, vec!["do_it", "mcp__one", "mcp__two"]);
    for item in &items {
        assert_eq!(item["type"], "function");
        assert_eq!(item["function"]["name"], item["name"]);
        assert!(item["function"].get("type").is_none());
    }
}

#[test]
fn other_tools_make_no_chat_entry() {
    let tools: Vec<ToolSpec> = all_tools().into_iter().skip(2).collect();
    assert!(create_tools_json_for_chat_completions_api(&tools).expect("tools").is_empty());
}

#[test]
fn namespace_names_are_put_before_tool_names() {
    assert_eq!(flatten_namespace_tool_name("mcp__files__", "read"), "mcp__files__read");
    assert_eq!(flatten_namespace_tool_name("", "read"), "read");
}

#[test]
fn loadable_tools_become_tools() {
    let tool = ToolSpec::from(LoadableToolSpec::Function(function("f")));
    assert!(matches!(&tool, ToolSpec::Function(inner) if inner.name == "f"));
    let tool = ToolSpec::from(LoadableToolSpec::Namespace(ResponsesApiNamespace {
        name: "n".to_string(),
        fields: vec![],
        tools: vec![],
    }));
    assert!(matches!(&tool, ToolSpec::Namespace(inner) if inner.name == "n"));
}

#[test]
fn configured_web_search_settings_are_taken_over() {
    let filters = ResponsesApiWebSearchFilters::from(WebSearchFilters {
        allowed_domains: Some(vec!["a.com".to_string()]),
    });
    assert_eq!(filters.allowed_domains, Some(vec!["a.com".to_string()]));
    let location = ResponsesApiWebSearchUserLocation::from(WebSearchUserLocation {
        location_type: WebSearchUserLocationType::Approximate,
        country: None,
        region: Some("IDF".to_string()),
        city: None,
        timezone: Some("Europe/Paris".to_string()),
    });
    assert_eq!(
        to_value(&location.to_json()),
        value(r#"{"type":"approximate","region":"IDF","timezone":"Europe/Paris"}"#)
    );
}

#[test]
fn tool_messages_are_held_as_the_wire_has_them() {
    let plain = communication_from_tool_message(
        "/root".to_string(),
        "/root/worker".to_string(),
        "inspect the chat-wire child task".to_string(),
        AgentMessageContentMode::Plaintext,
    );
    assert_eq!(plain.author, "/root");
    assert_eq!(plain.recipient, "/root/worker");
    assert!(plain.other_recipients.is_empty());
    assert!(plain.trigger_turn);
    assert!(matches!(
        &plain.content,
        CommunicationContent::Plaintext(text) if text == "inspect the chat-wire child task"
    ));
    let encrypted = communication_from_tool_message(
        "a".to_string(),
        "b".to_string(),
        "cipher".to_string(),
        AgentMessageContentMode::Encrypted,
    );
    assert!(encrypted.trigger_turn);
    assert!(matches!(
        &encrypted.content,
        CommunicationContent::Encrypted(text) if text == "cipher"
    ));
}
