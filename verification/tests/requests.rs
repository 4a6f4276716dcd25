//! Chat requests: bodies, messages and headers.

use chat_wire::json::{from_value, parse_json, to_value, Json};
use chat_wire::protocol::{
    ChatDialect, ContentItem, FunctionCallOutputBody, FunctionCallOutputContentItem,
    FunctionCallOutputPayload, ReasoningItemContent, ResponseItem, SessionSource, SubAgentSource,
};
use chat_wire::request::{
    is_reserved_extra_body_key, merge_provider_extra_body, ChatRequestBuilder,
};
use http::HeaderValue;
use serde_json::Value;

fn value(text: &str) -> Value {
    serde_json::from_str(text).expect("valid JSON")
}

fn json(text: &str) -> Json {
    parse_json(text).expect("valid JSON")
}

fn message(role: &str, text: &str) -> ResponseItem {
    ResponseItem::Message {
        id: None,
        role: role.to_string(),
        content: vec![ContentItem::InputText { text: text.to_string() }],
    }
}

fn call(name: &str, arguments: &str, call_id: &str) -> ResponseItem {
    ResponseItem::FunctionCall {
        id: None,
        name: name.to_string(),
        namespace: None,
        arguments: arguments.to_string(),
        call_id: call_id.to_string(),
    }
}

fn output(call_id: &str, text: &str) -> ResponseItem {
    ResponseItem::FunctionCallOutput {
        call_id: call_id.to_string(),
        output: FunctionCallOutputPayload {
            body: FunctionCallOutputBody::Text(text.to_string()),
            success: None,
        },
    }
}

fn reasoning(text: &str) -> ResponseItem {
    ResponseItem::Reasoning {
        id: "r".to_string(),
        summary: vec![],
        content: Some(vec![ReasoningItemContent::ReasoningText { text: text.to_string() }]),
        encrypted_content: None,
    }
}

fn body_of(input: &[ResponseItem], dialect: ChatDialect) -> Value {
    let req = ChatRequestBuilder::new("gpt-test", "inst", input, &[]).build(dialect).expect("request");
    to_value(&req.body)
}

fn messages_of(input: &[ResponseItem], dialect: ChatDialect) -> Vec<Value> {
    body_of(input, dialect)["messages"].as_array().expect("messages array").clone()
}

#[test]
fn attaches_conversation_and_subagent_headers() {
    let prompt_input = vec![message("user", "hi")];
    let req = ChatRequestBuilder::new("gpt-test", "inst", &prompt_input, &[])
        .conversation_id(Some("conv-1".into()))
        .session_source(Some(SessionSource::SubAgent(SubAgentSource::Review)))
        .build(ChatDialect::Strict)
        .expect("request");

    assert_eq!(
        req.headers.get("session-id"),
        Some(&HeaderValue::from_static("conv-1"))
    );
    assert_eq!(
        req.headers.get("x-openai-subagent"),
        Some(&HeaderValue::from_static("review"))
    );
}

#[test]
fn groups_consecutive_tool_calls_into_a_single_assistant_message() {
    let prompt_input = vec![
        message("user", "read these"),
        call("read_file", r#"{"path":"a.txt"}"#, "call-a"),
        call("read_file", r#"{"path":"b.txt"}"#, "call-b"),
        call("read_file", r#"{"path":"c.txt"}"#, "call-c"),
        output("call-a", "A"),
        output("call-b", "B"),
        output("call-c", "C"),
    ];

    let req = ChatRequestBuilder::new("gpt-test", "inst", &prompt_input, &[])
        .build(ChatDialect::Strict)
        .expect("request");

    let body = to_value(&req.body);
    let messages = body
        .get("messages")
        .and_then(|v| v.as_array())
        .expect("messages array");
    // system + user + assistant(tool_calls=[...]) + 3 tool outputs
    assert_eq!(messages.len(), 6);

    assert_eq!(messages[0]["role"], "system");
    assert_eq!(messages[1]["role"], "user");

    let tool_calls_msg = &messages[2];
    assert_eq!(tool_calls_msg["role"], "assistant");
    assert_eq!(tool_calls_msg["content"], serde_json::Value::Null);
    let tool_calls = tool_calls_msg["tool_calls"]
        .as_array()
        .expect("tool_calls array");
    assert_eq!(tool_calls.len(), 3);
    assert_eq!(tool_calls[0]["id"], "call-a");
    assert_eq!(tool_calls[1]["id"], "call-b");
    assert_eq!(tool_calls[2]["id"], "call-c");

    assert_eq!(messages[3]["role"], "tool");
    assert_eq!(messages[3]["tool_call_id"], "call-a");
    assert_eq!(messages[4]["role"], "tool");
    assert_eq!(messages[4]["tool_call_id"], "call-b");
    assert_eq!(messages[5]["role"], "tool");
    assert_eq!(messages[5]["tool_call_id"], "call-c");

    assert_eq!(
        messages[2],
        value(
            r#"{"role":"assistant","content":null,"tool_calls":[
                {"id":"call-a","type":"function","function":{"name":"read_file","arguments":"{\"path\":\"a.txt\"}"}},
                {"id":"call-b","type":"function","function":{"name":"read_file","arguments":"{\"path\":\"b.txt\"}"}},
                {"id":"call-c","type":"function","function":{"name":"read_file","arguments":"{\"path\":\"c.txt\"}"}}]}"#
        )
    );
    assert_eq!(messages[4], value(r#"{"role":"tool","tool_call_id":"call-b","content":"B"}"#));
}

#[test]
fn extra_body_none_leaves_payload_unchanged() {
    let prompt_input = vec![message("user", "hi")];
    let req = ChatRequestBuilder::new("gpt-test", "inst", &prompt_input, &[])
        .build(ChatDialect::Strict)
        .expect("request");

    let body = to_value(&req.body);
    let obj = body.as_object().expect("payload should be object");
    assert!(!obj.contains_key("chat_template_kwargs"));
    // model / messages / stream / stream_options / tools = 5
    assert_eq!(obj.len(), 5);
    assert_eq!(
        obj.get("stream_options"),
        Some(&value(r#"{ "include_usage": true }"#))
    );
}

#[test]
fn extra_body_empty_map_leaves_payload_unchanged() {
    let prompt_input = vec![message("user", "hi")];
    let empty: Vec<(String, Json)> = Vec::new();
    let req = ChatRequestBuilder::new("gpt-test", "inst", &prompt_input, &[])
        .provider_name("GLM")
        .extra_body(Some(&empty))
        .build(ChatDialect::Strict)
        .expect("request");

    let body = to_value(&req.body);
    let obj = body.as_object().expect("payload should be object");
    // model / messages / stream / stream_options / tools = 5
    assert_eq!(obj.len(), 5);
    assert!(!obj.contains_key("chat_template_kwargs"));
}

#[test]
fn extra_body_chat_template_kwargs_merges_into_top_level() {
    let prompt_input = vec![message("user", "hi")];
    let extra: Vec<(String, Json)> = vec![(
        "chat_template_kwargs".to_string(),
        json(r#"{ "enable_thinking": false }"#),
    )];

    let req = ChatRequestBuilder::new("gpt-test", "inst", &prompt_input, &[])
        .provider_name("GLM")
        .extra_body(Some(&extra))
        .build(ChatDialect::Strict)
        .expect("request");

    let body = to_value(&req.body);
    assert_eq!(
        body.get("chat_template_kwargs")
            .and_then(|v| v.get("enable_thinking")),
        Some(&Value::Bool(false))
    );
    assert_eq!(body.get("model"), Some(&value(r#""gpt-test""#)));
    assert!(body.get("messages").is_some());
    assert_eq!(body.get("stream"), Some(&Value::Bool(true)));
}

#[test]
fn extra_body_reserved_keys_are_skipped_not_overwritten() {
    let prompt_input = vec![message("user", "hi")];
    let extra: Vec<(String, Json)> = vec![
        ("model".to_string(), json(r#""hijacked-model""#)),
        ("messages".to_string(), json(r#"["evil"]"#)),
        ("temperature".to_string(), json("0.0")),
        ("response_format".to_string(), json(r#"{ "type": "json" }"#)),
        (
            "chat_template_kwargs".to_string(),
            json(r#"{ "enable_thinking": false }"#),
        ),
    ];

    let builder = ChatRequestBuilder::new("gpt-test", "inst", &prompt_input, &[])
        .provider_name("GLM")
        .extra_body(Some(&extra));
    let (provider, skipped) = builder.extra_body_collisions();
    assert_eq!(provider, "GLM");
    assert_eq!(skipped, vec!["model", "messages", "temperature", "response_format"]);
    let req = builder.build(ChatDialect::Strict).expect("request");

    let body = to_value(&req.body);
    assert_eq!(body.get("model"), Some(&value(r#""gpt-test""#)));
    let messages = body
        .get("messages")
        .and_then(|v| v.as_array())
        .expect("messages array");
    assert!(messages.len() >= 2);
    assert_eq!(messages[0]["role"], "system");
    assert_eq!(messages[1]["role"], "user");
    assert!(body.as_object().is_some_and(|o| !o.contains_key("temperature")));
    assert!(body.as_object().is_some_and(|o| !o.contains_key("response_format")));
    assert_eq!(
        body.get("chat_template_kwargs")
            .and_then(|v| v.get("enable_thinking")),
        Some(&Value::Bool(false))
    );
}

#[test]
fn body_is_exactly_the_core_fields() {
    let tools = vec![json(r#"{"type":"function","name":"t","function":{"name":"t"}}"#)];
    let prompt_input = vec![message("user", "hi")];
    let req = ChatRequestBuilder::new("gpt-test", "inst", &prompt_input, &tools)
        .build(ChatDialect::Strict)
        .expect("request");
    assert_eq!(
        to_value(&req.body),
        value(
            r#"{"model":"gpt-test","messages":[{"role":"system","content":"inst"},{"role":"user","content":"hi"}],
                "stream":true,"stream_options":{"include_usage":true},
                "tools":[{"type":"function","name":"t","function":{"name":"t"}}]}"#
        )
    );
    assert!(req.headers.is_empty());
}

#[test]
fn numbers_of_extra_fields_come_through() {
    let extra: Vec<(String, Json)> = vec![
        ("penalty".to_string(), json("-1.5")),
        ("top_k".to_string(), json("18446744073709551615")),
        ("offset".to_string(), json("-9223372036854775808")),
    ];
    let req = ChatRequestBuilder::new("m", "i", &[], &[])
        .extra_body(Some(&extra))
        .build(ChatDialect::Strict)
        .expect("request");
    let body = to_value(&req.body);
    assert_eq!(body["penalty"], value("-1.5"));
    assert_eq!(body["top_k"], value("18446744073709551615"));
    assert_eq!(body["offset"], value("-9223372036854775808"));
}

#[test]
fn all_reserved_keys_are_reserved() {
    for key in [
        "model",
        "messages",
        "tools",
        "tool_choice",
        "stream",
        "stream_options",
        "temperature",
        "top_p",
        "max_tokens",
        "max_completion_tokens",
        "n",
        "response_format",
        "reasoning",
        "reasoning_effort",
    ] {
        assert!(is_reserved_extra_body_key(key));
    }
    assert!(!is_reserved_extra_body_key("chat_template_kwargs"));
    assert!(!is_reserved_extra_body_key("Model"));
}

#[test]
fn extra_fields_overwrite_what_is_not_reserved() {
    let mut payload: Vec<(String, Json)> = vec![("a".to_string(), json("1"))];
    let extra: Vec<(String, Json)> =
        vec![("a".to_string(), json("2")), ("n".to_string(), json("3"))];
    merge_provider_extra_body(&mut payload, Some(&extra));
    assert_eq!(to_value(&Json::Object(payload)), value(r#"{"a":2}"#));
}

#[test]
fn unsendable_header_values_are_left_out() {
    let req = ChatRequestBuilder::new("m", "i", &[], &[])
        .conversation_id(Some("line\nbreak".into()))
        .session_source(Some(SessionSource::SubAgent(SubAgentSource::Other("memory".into()))))
        .build(ChatDialect::Strict)
        .expect("request");
    assert_eq!(req.headers.get("session-id"), None);
    assert_eq!(
        req.headers.get("x-openai-subagent"),
        Some(&HeaderValue::from_static("memory"))
    );
    let plain = ChatRequestBuilder::new("m", "i", &[], &[])
        .session_source(Some(SessionSource::Exec))
        .build(ChatDialect::Strict)
        .expect("request");
    assert!(plain.headers.is_empty());
}

#[test]
fn internal_roles_go_out_as_system() {
    let input = vec![
        message("developer", "d"),
        message("latest_reminder", "l"),
        message("user", "u"),
        ResponseItem::AgentMessage,
        ResponseItem::Other,
    ];
    let messages = messages_of(&input, ChatDialect::Strict);
    let roles: Vec<&str> = messages.iter().map(|m| m["role"].as_str().unwrap()).collect();
    assert_eq!(roles, vec!["system", "system", "system", "user"]);
}

#[test]
fn text_of_a_turn_joins_its_open_calls() {
    let input = vec![
        message("user", "go"),
        call("f", "{}", "c1"),
        message("assistant", "working on it"),
        output("c1", "done"),
    ];
    let messages = messages_of(&input, ChatDialect::Strict);
    assert_eq!(messages.len(), 4);
    assert_eq!(
        messages[2],
        value(
            r#"{"role":"assistant","content":"working on it","tool_calls":[
                {"id":"c1","type":"function","function":{"name":"f","arguments":"{}"}}]}"#
        )
    );
    assert_eq!(messages[3]["role"], "tool");
}

#[test]
fn repeated_assistant_texts_go_out_once() {
    let input = vec![
        message("assistant", "same"),
        message("assistant", "same"),
        message("assistant", "other"),
        message("assistant", "same"),
    ];
    let messages = messages_of(&input, ChatDialect::Strict);
    let texts: Vec<&str> = messages.iter().map(|m| m["content"].as_str().unwrap()).collect();
    assert_eq!(texts, vec!["inst", "same", "other", "same"]);
}

#[test]
fn images_make_a_list_of_parts() {
    let input = vec![ResponseItem::Message {
        id: None,
        role: "user".to_string(),
        content: vec![
            ContentItem::InputText { text: "look".to_string() },
            ContentItem::InputImage { image_url: "data:x".to_string() },
        ],
    }];
    let messages = messages_of(&input, ChatDialect::Strict);
    assert_eq!(
        messages[1],
        value(
            r#"{"role":"user","content":[{"type":"text","text":"look"},
                {"type":"image_url","image_url":{"url":"data:x"}}]}"#
        )
    );
}

#[test]
fn assistant_images_are_left_out() {
    let input = vec![ResponseItem::Message {
        id: None,
        role: "assistant".to_string(),
        content: vec![
            ContentItem::OutputText { text: "a".to_string() },
            ContentItem::InputImage { image_url: "data:x".to_string() },
            ContentItem::OutputText { text: "b".to_string() },
        ],
    }];
    let messages = messages_of(&input, ChatDialect::Strict);
    assert_eq!(messages[1], value(r#"{"role":"assistant","content":"ab"}"#));
}

#[test]
fn encrypted_output_parts_are_left_out() {
    let input = vec![ResponseItem::FunctionCallOutput {
        call_id: "c".to_string(),
        output: FunctionCallOutputPayload {
            body: FunctionCallOutputBody::ContentItems(vec![
                FunctionCallOutputContentItem::InputText { text: "t".to_string() },
                FunctionCallOutputContentItem::EncryptedContent {
                    encrypted_content: "blob".to_string(),
                },
                FunctionCallOutputContentItem::InputImage { image_url: "u".to_string() },
            ]),
            success: Some(true),
        },
    }];
    let messages = messages_of(&input, ChatDialect::Strict);
    assert_eq!(
        messages[1],
        value(
            r#"{"role":"tool","tool_call_id":"c","content":[{"type":"text","text":"t"},
                {"type":"image_url","image_url":{"url":"u"}}]}"#
        )
    );
}

#[test]
fn shell_and_custom_calls_share_a_message() {
    let input = vec![
        ResponseItem::LocalShellCall {
            id: None,
            call_id: Some("x".to_string()),
            status: json(r#""completed""#),
            action: json(r#"{"type":"exec"}"#),
        },
        ResponseItem::CustomToolCall {
            id: None,
            call_id: "y".to_string(),
            name: "apply_patch".to_string(),
            input: "patch".to_string(),
            status: None,
        },
        ResponseItem::CustomToolCallOutput { call_id: "y".to_string(), output: json(r#""ok""#) },
    ];
    let messages = messages_of(&input, ChatDialect::Strict);
    assert_eq!(
        messages[1],
        value(
            r#"{"role":"assistant","content":null,"tool_calls":[
                {"id":"","type":"local_shell_call","status":"completed","action":{"type":"exec"}},
                {"id":null,"type":"custom","custom":{"name":"apply_patch","input":"patch"}}]}"#
        )
    );
    assert_eq!(messages[2], value(r#"{"role":"tool","tool_call_id":"y","content":"ok"}"#));
}

#[test]
fn reasoning_travels_with_its_turn_in_the_thinking_dialect() {
    let input = vec![
        message("user", "go"),
        reasoning("think one"),
        call("f", "{}", "c1"),
        reasoning("think two"),
        call("g", "{}", "c2"),
        output("c1", "1"),
        output("c2", "2"),
    ];
    let thinking = messages_of(&input, ChatDialect::ThinkingReasoningContent);
    assert_eq!(thinking[2]["reasoning_content"], "think one\nthink two");
    assert_eq!(thinking[2]["tool_calls"].as_array().unwrap().len(), 2);
    let strict = messages_of(&input, ChatDialect::Strict);
    assert!(strict[2].get("reasoning_content").is_none());
}

#[test]
fn reasoning_behind_an_assistant_message_goes_with_it() {
    let input = vec![
        message("user", "go"),
        reasoning("before "),
        message("assistant", "text"),
        reasoning("after"),
    ];
    let messages = messages_of(&input, ChatDialect::ThinkingReasoningContent);
    assert_eq!(
        messages[2],
        value(r#"{"role":"assistant","content":"text","reasoning_content":"before after"}"#)
    );
}

#[test]
fn reasoning_is_not_sent_after_the_users_word() {
    let input = vec![
        message("user", "go"),
        reasoning("think"),
        message("assistant", "text"),
        message("user", "again"),
    ];
    let messages = messages_of(&input, ChatDialect::ThinkingReasoningContent);
    assert!(messages.iter().all(|m| m.get("reasoning_content").is_none()));
}

#[test]
fn blank_reasoning_and_that_of_earlier_turns_is_not_sent() {
    let input = vec![
        reasoning("earlier"),
        message("assistant", "old"),
        message("user", "go"),
        reasoning(" \n\u{3000}"),
        message("assistant", "new"),
    ];
    let messages = messages_of(&input, ChatDialect::ThinkingReasoningContent);
    assert!(messages.iter().all(|m| m.get("reasoning_content").is_none()));
}

#[test]
fn open_calls_are_never_followed_by_the_assistant() {
    let input = vec![
        call("f", "{}", "c1"),
        message("assistant", "x"),
        message("assistant", "y"),
        call("g", "{}", "c2"),
    ];
    let messages = messages_of(&input, ChatDialect::Strict);
    for pair in messages.windows(2) {
        let open = pair[0].get("tool_calls").is_some() && pair[0]["content"].is_null();
        assert!(!(open && pair[1]["role"] == "assistant"));
    }
    assert_eq!(messages.len(), 4);
}

#[test]
fn json_values_survive_both_conversions() {
    let original = value(r#"{"a":[1,-2,3.5,null,true,"s"],"b":{"c":{}}}"#);
    assert_eq!(to_value(&from_value(original.clone())), original);
}
