//! Chat streams, from the bytes of a server's event stream on.

use std::convert::Infallible;

use chat_wire::json::parse_json;
use chat_wire::protocol::{
    ApiError, ChatDialect, ContentItem, ReasoningItemContent, ResponseEvent, ResponseItem,
    TokenUsage,
};
use chat_wire::request::ChatRequestBuilder;
use chat_wire::stream::{process_chat_sse, ChatStream, SsePoll};
use chat_wire::tool_calls::ToolCalls;
use chat_wire::transport::{chat_endpoint_request, RequestBody};
use chat_wire::usage::parse_chat_usage;
use eventsource_stream::Eventsource;
use futures::StreamExt;

fn build_body(events: &[&str]) -> String {
    let mut body = String::new();
    for e in events {
        body.push_str(&format!("event: message\ndata: {e}\n\n"));
    }
    body
}

fn polls_of(body: &str) -> Vec<SsePoll> {
    let bytes: Vec<Result<Vec<u8>, Infallible>> = vec![Ok(body.as_bytes().to_vec())];
    let events = futures::executor::block_on(
        futures::stream::iter(bytes).eventsource().collect::<Vec<_>>(),
    );
    let mut polls: Vec<SsePoll> = events
        .into_iter()
        .map(|event| match event {
            Ok(sse) => SsePoll::Event(sse.data),
            Err(err) => SsePoll::Failed(err.to_string()),
        })
        .collect();
    polls.push(SsePoll::Ended);
    polls
}

fn results(body: &str, dialect: ChatDialect) -> Vec<Result<ResponseEvent, ApiError>> {
    process_chat_sse(&polls_of(body), dialect)
}

fn collect_in(body: &str, dialect: ChatDialect) -> Vec<ResponseEvent> {
    results(body, dialect)
        .into_iter()
        .map(|event| event.expect("stream error"))
        .collect()
}

fn collect_events(body: &str) -> Vec<ResponseEvent> {
    collect_in(body, ChatDialect::Strict)
}

fn usage_of(event: &ResponseEvent) -> Option<TokenUsage> {
    match event {
        ResponseEvent::Completed { token_usage, .. } => *token_usage,
        other => panic!("not completed: {other:?}"),
    }
}

#[test]
fn completes_on_done_sentinel_without_json() {
    let events = collect_events("event: message\ndata: [DONE]\n\n");
    assert!(matches!(&events[..], [ResponseEvent::Completed { .. }]));
}

#[test]
fn captures_token_usage_from_trailing_usage_chunk() {
    let delta = r#"{ "choices": [{ "delta": { "content": "hi" } }] }"#;
    let stop = r#"{ "choices": [{ "delta": {}, "finish_reason": "stop" }] }"#;
    let usage = r#"{ "choices": [], "usage": { "prompt_tokens": 1234, "completion_tokens": 56, "total_tokens": 1290, "prompt_tokens_details": { "cached_tokens": 100 }, "completion_tokens_details": { "reasoning_tokens": 12 } } }"#;
    let mut body = build_body(&[delta, stop, usage]);
    body.push_str("event: message\ndata: [DONE]\n\n");
    let events = collect_events(&body);
    let last = events.last().expect("at least one event");
    let usage = usage_of(last).expect("usage");
    assert_eq!(usage.total_tokens, 1290);
    assert_eq!(usage.input_tokens, 1234);
    assert_eq!(usage.output_tokens, 56);
    assert_eq!(usage.cached_input_tokens, 100);
    assert_eq!(usage.reasoning_output_tokens, 12);
}

#[test]
fn captures_token_usage_from_finish_stop_frame() {
    let delta = r#"{ "choices": [{ "delta": { "content": "hi" } }] }"#;
    let stop_with_usage = r#"{ "choices": [{ "delta": {}, "finish_reason": "stop" }], "usage": { "prompt_tokens": 200, "completion_tokens": 10, "total_tokens": 210 } }"#;
    let mut body = build_body(&[delta, stop_with_usage]);
    body.push_str("event: message\ndata: [DONE]\n\n");
    let events = collect_events(&body);
    let last = events.last().expect("at least one event");
    let usage = usage_of(last).expect("usage");
    assert_eq!(usage.total_tokens, 210);
    assert_eq!(usage.input_tokens, 200);
    assert_eq!(usage.output_tokens, 10);
}

#[test]
fn completes_with_none_usage_when_provider_omits_usage() {
    let delta = r#"{ "choices": [{ "delta": { "content": "hi" } }] }"#;
    let stop = r#"{ "choices": [{ "delta": {}, "finish_reason": "stop" }] }"#;
    let mut body = build_body(&[delta, stop]);
    body.push_str("event: message\ndata: [DONE]\n\n");
    let events = collect_events(&body);
    let last = events.last().expect("at least one event");
    assert_eq!(usage_of(last), None);
}

#[test]
fn concatenates_tool_call_arguments_across_deltas() {
    let delta_name = r#"{ "choices": [{ "delta": { "tool_calls": [{ "id": "call_a", "index": 0, "function": { "name": "do_a" } }] } }] }"#;
    let delta_args_1 = r#"{ "choices": [{ "delta": { "tool_calls": [{ "index": 0, "function": { "arguments": "{ \"foo\":" } }] } }] }"#;
    let delta_args_2 = r#"{ "choices": [{ "delta": { "tool_calls": [{ "index": 0, "function": { "arguments": "1}" } }] } }] }"#;
    let finish = r#"{ "choices": [{ "finish_reason": "tool_calls" }] }"#;

    let body = build_body(&[delta_name, delta_args_1, delta_args_2, finish]);
    let events = collect_events(&body);
    assert!(matches!(
        &events[..],
        [
            ResponseEvent::OutputItemDone(ResponseItem::FunctionCall { call_id, name, arguments, .. }),
            ResponseEvent::Completed { .. }
        ] if call_id == "call_a" && name == "do_a" && arguments == "{ \"foo\":1}"
    ));
}

#[test]
fn emits_multiple_tool_calls() {
    let delta_a = r#"{ "choices": [{ "delta": { "tool_calls": [{ "id": "call_a", "function": { "name": "do_a", "arguments": "{\"foo\":1}" } }] } }] }"#;
    let delta_b = r#"{ "choices": [{ "delta": { "tool_calls": [{ "id": "call_b", "function": { "name": "do_b", "arguments": "{\"bar\":2}" } }] } }] }"#;
    let finish = r#"{ "choices": [{ "finish_reason": "tool_calls" }] }"#;

    let body = build_body(&[delta_a, delta_b, finish]);
    let events = collect_events(&body);
    assert!(matches!(
        &events[..],
        [
            ResponseEvent::OutputItemDone(ResponseItem::FunctionCall { call_id: call_a, name: name_a, arguments: args_a, .. }),
            ResponseEvent::OutputItemDone(ResponseItem::FunctionCall { call_id: call_b, name: name_b, arguments: args_b, .. }),
            ResponseEvent::Completed { .. }
        ] if call_a == "call_a" && name_a == "do_a" && args_a == "{\"foo\":1}" && call_b == "call_b" && name_b == "do_b" && args_b == "{\"bar\":2}"
    ));
}

#[test]
fn emits_tool_calls_for_multiple_choices() {
    let payload = r#"{ "choices": [ { "delta": { "tool_calls": [{ "id": "call_a", "index": 0, "function": { "name": "do_a", "arguments": "{}" } }] }, "finish_reason": "tool_calls" }, { "delta": { "tool_calls": [{ "id": "call_b", "index": 0, "function": { "name": "do_b", "arguments": "{}" } }] }, "finish_reason": "tool_calls" } ] }"#;

    let body = build_body(&[payload]);
    let events = collect_events(&body);
    assert!(matches!(
        &events[..],
        [
            ResponseEvent::OutputItemDone(ResponseItem::FunctionCall { call_id: call_a, name: name_a, arguments: args_a, .. }),
            ResponseEvent::OutputItemDone(ResponseItem::FunctionCall { call_id: call_b, name: name_b, arguments: args_b, .. }),
            ResponseEvent::Completed { .. }
        ] if call_a == "call_a" && name_a == "do_a" && args_a == "{}" && call_b == "call_b" && name_b == "do_b" && args_b == "{}"
    ));
}

#[test]
fn merges_tool_calls_by_index_when_id_missing_on_subsequent_deltas() {
    let delta_with_id = r#"{ "choices": [{ "delta": { "tool_calls": [{ "index": 0, "id": "call_a", "function": { "name": "do_a", "arguments": "{ \"foo\":" } }] } }] }"#;
    let delta_without_id = r#"{ "choices": [{ "delta": { "tool_calls": [{ "index": 0, "function": { "arguments": "1}" } }] } }] }"#;
    let finish = r#"{ "choices": [{ "finish_reason": "tool_calls" }] }"#;

    let body = build_body(&[delta_with_id, delta_without_id, finish]);
    let events = collect_events(&body);
    assert!(matches!(
        &events[..],
        [
            ResponseEvent::OutputItemDone(ResponseItem::FunctionCall { call_id, name, arguments, .. }),
            ResponseEvent::Completed { .. }
        ] if call_id == "call_a" && name == "do_a" && arguments == "{ \"foo\":1}"
    ));
}

#[test]
fn preserves_tool_call_name_when_empty_deltas_arrive() {
    let delta_with_name = r#"{ "choices": [{ "delta": { "tool_calls": [{ "id": "call_a", "function": { "name": "do_a" } }] } }] }"#;
    let delta_with_empty_name = r#"{ "choices": [{ "delta": { "tool_calls": [{ "id": "call_a", "function": { "name": "", "arguments": "{}" } }] } }] }"#;
    let finish = r#"{ "choices": [{ "finish_reason": "tool_calls" }] }"#;

    let body = build_body(&[delta_with_name, delta_with_empty_name, finish]);
    let events = collect_events(&body);
    assert!(matches!(
        &events[..],
        [
            ResponseEvent::OutputItemDone(ResponseItem::FunctionCall { name, arguments, .. }),
            ResponseEvent::Completed { .. }
        ] if name == "do_a" && arguments == "{}"
    ));
}

#[test]
fn drops_partial_tool_calls_on_stop_finish_reason() {
    let delta_tool = r#"{ "choices": [{ "delta": { "tool_calls": [{ "id": "call_a", "function": { "name": "do_a", "arguments": "{}" } }] } }] }"#;
    let finish_stop = r#"{ "choices": [{ "finish_reason": "stop" }] }"#;

    let body = build_body(&[delta_tool, finish_stop]);
    let events = collect_events(&body);

    assert!(!events.iter().any(|ev| {
        matches!(
            ev,
            ResponseEvent::OutputItemDone(ResponseItem::FunctionCall { .. })
        )
    }));
    assert!(matches!(events.last(), Some(ResponseEvent::Completed { .. })));
}

#[test]
fn chat_completions_stream_translates_deltas_message_and_usage() {
    let input = vec![ResponseItem::Message {
        id: None,
        role: "user".to_string(),
        content: vec![ContentItem::InputText { text: "ping".to_string() }],
    }];
    let request = ChatRequestBuilder::new("gpt-test", "inst", &input, &[])
        .build(ChatDialect::Strict)
        .expect("request");
    let request = chat_endpoint_request(request);
    assert_eq!(request.method, "POST");
    assert!(format!("/{}", request.path).ends_with("/chat/completions"));
    let sent = match request.body {
        Some(RequestBody::EncodedJson(bytes)) => bytes,
        other => panic!("unexpected body: {other:?}"),
    };
    let sent_json: serde_json::Value =
        serde_json::from_slice(&sent).expect("request body should be JSON");
    assert_eq!(sent_json["model"].as_str(), Some("gpt-test"));
    assert_eq!(sent_json["stream"], serde_json::Value::Bool(true));
    assert!(String::from_utf8_lossy(&sent).contains("ping"));

    let mut body = build_body(&[
        r#"{"choices":[{"delta":{"role":"assistant","content":"Hello"}}]}"#,
        r#"{"choices":[{"delta":{"content":" world"}}]}"#,
        r#"{"choices":[{"delta":{},"finish_reason":"stop"}]}"#,
        r#"{"choices":[],"usage":{"prompt_tokens":11,"completion_tokens":3,"total_tokens":14,"prompt_tokens_details":{"cached_tokens":4},"completion_tokens_details":{"reasoning_tokens":2}}}"#,
    ]);
    body.push_str("event: message\ndata: [DONE]\n\n");
    let events = collect_events(&body);
    assert_eq!(events.len(), 5);
    let deltas: Vec<&str> = events
        .iter()
        .filter_map(|e| match e {
            ResponseEvent::OutputTextDelta(text) => Some(text.as_str()),
            _ => None,
        })
        .collect();
    assert_eq!(deltas, vec!["Hello", " world"]);
    let (added, done) = match (&events[0], &events[3]) {
        (
            ResponseEvent::OutputItemAdded(ResponseItem::Message { id: added, content, .. }),
            ResponseEvent::OutputItemDone(ResponseItem::Message { id: done, role, content: parts }),
        ) => {
            assert!(content.is_empty());
            assert_eq!(role, "assistant");
            let text: String = parts
                .iter()
                .filter_map(|c| match c {
                    ContentItem::OutputText { text } => Some(text.as_str()),
                    _ => None,
                })
                .collect();
            assert_eq!(text, "Hello world");
            (added.clone().expect("id"), done.clone().expect("id"))
        }
        other => panic!("unexpected events: {other:?}"),
    };
    assert_eq!(added, done);
    assert_eq!(
        usage_of(&events[4]),
        Some(TokenUsage {
            input_tokens: 11,
            cached_input_tokens: 4,
            output_tokens: 3,
            reasoning_output_tokens: 2,
            total_tokens: 14,
        })
    );
}

#[test]
fn drawn_ids_are_random_uuids() {
    let frame = r#"{"choices":[{"delta":{"content":"a"},"finish_reason":"stop"},{"delta":{"content":"b"},"finish_reason":"stop"}]}"#;
    let events = collect_events(&build_body(&[frame]));
    let ids: Vec<String> = events
        .iter()
        .filter_map(|e| match e {
            ResponseEvent::OutputItemAdded(ResponseItem::Message { id, .. }) => id.clone(),
            _ => None,
        })
        .collect();
    assert_eq!(ids.len(), 2);
    assert_ne!(ids[0], ids[1]);
    for id in ids {
        let chars: Vec<char> = id.chars().collect();
        assert_eq!(chars.len(), 36);
        for (i, c) in chars.iter().enumerate() {
            if [8, 13, 18, 23].contains(&i) {
                assert_eq!(*c, '-');
            } else {
                assert!(c.is_ascii_digit() || ('a'..='f').contains(c));
            }
        }
        assert_eq!(chars[14], '4');
        assert!(['8', '9', 'a', 'b'].contains(&chars[19]));
    }
}

#[test]
fn strict_streams_read_no_reasoning() {
    let frame = r#"{"choices":[{"delta":{"content":[{"text":"hi"},{"image":1}],"reasoning":"because","reasoning_content":"because","tool_calls":[{"id":"call_a","function":{"name":"do_a","arguments":"{}"}}]}}]}"#;
    let finish = r#"{"choices":[{"finish_reason":"tool_calls"}]}"#;
    let events = collect_events(&build_body(&[frame, finish]));
    assert!(matches!(
        &events[..],
        [
            ResponseEvent::OutputItemAdded(ResponseItem::Message { .. }),
            ResponseEvent::OutputTextDelta(delta),
            ResponseEvent::OutputItemDone(ResponseItem::FunctionCall { call_id, name, .. }),
            ResponseEvent::OutputItemDone(ResponseItem::Message { .. }),
            ResponseEvent::Completed { .. }
        ] if delta == "hi" && call_id == "call_a" && name == "do_a"
    ));
}

#[test]
fn thinking_streams_emit_reasoning_before_calls() {
    let frame = r#"{"choices":[{"delta":{"content":[{"text":"hi"}],"reasoning_content":"because","tool_calls":[{"id":"call_a","function":{"name":"do_a","arguments":"{}"}}]},"message":{"reasoning_content":" of that"}}]}"#;
    let finish = r#"{"choices":[{"finish_reason":"tool_calls"}]}"#;
    let events = collect_in(
        &build_body(&[frame, finish]),
        ChatDialect::ThinkingReasoningContent,
    );
    match &events[..] {
        [ResponseEvent::OutputItemAdded(ResponseItem::Reasoning { id: added, .. }), ResponseEvent::ReasoningContentDelta { delta, content_index: 0 }, ResponseEvent::OutputItemAdded(ResponseItem::Message { .. }), ResponseEvent::OutputTextDelta(text), ResponseEvent::ReasoningContentDelta { delta: more, content_index: 1 }, ResponseEvent::OutputItemDone(ResponseItem::Reasoning {
            id: done,
            summary,
            content: Some(parts),
            encrypted_content: None,
        }), ResponseEvent::OutputItemDone(ResponseItem::FunctionCall { .. }), ResponseEvent::OutputItemDone(ResponseItem::Message { .. }), ResponseEvent::Completed { .. }] => {
            assert_eq!(added, done);
            assert_eq!(delta, "because");
            assert_eq!(text, "hi");
            assert_eq!(more, " of that");
            assert!(summary.is_empty());
            let texts: Vec<&str> = parts
                .iter()
                .map(|part| match part {
                    ReasoningItemContent::ReasoningText { text } => text.as_str(),
                    ReasoningItemContent::Text { .. } => panic!("plain text"),
                })
                .collect();
            assert_eq!(texts, vec!["because", " of that"]);
        }
        other => panic!("unexpected events: {other:?}"),
    }
}

fn reasoning_deltas(events: &[ResponseEvent]) -> Vec<&str> {
    events
        .iter()
        .filter_map(|event| match event {
            ResponseEvent::ReasoningContentDelta { delta, .. } => Some(delta.as_str()),
            _ => None,
        })
        .collect()
}

#[test]
fn thinking_streams_hand_out_all_reasoning_in_order() {
    let body = build_body(&[
        r#"{"choices":[{"message":{"reasoning_content":"2"},"delta":{"reasoning_content":"1"}},{"delta":{"reasoning_content":" "}}]}"#,
        r#"{"choices":[{"delta":{"reasoning_content":7},"message":{"reasoning_content":null}}]}"#,
        r#"{"choices":[{"delta":{"content":"text","reasoning_content":""},"finish_reason":"stop"}]}"#,
        r#"{"choices":[{"message":{"reasoning_content":"3"},"finish_reason":"stop"}]}"#,
    ]);
    let events = collect_in(&body, ChatDialect::ThinkingReasoningContent);
    assert_eq!(reasoning_deltas(&events), vec!["1", "2", " ", "", "3"]);
    assert!(reasoning_deltas(&collect_events(&body)).is_empty());
}

fn without_ids(events: Vec<ResponseEvent>) -> Vec<String> {
    events
        .into_iter()
        .map(|event| match event {
            ResponseEvent::OutputItemAdded(ResponseItem::Message { role, content, .. }) => {
                format!("added {role} {content:?}")
            }
            ResponseEvent::OutputItemDone(ResponseItem::Message { role, content, .. }) => {
                format!("done {role} {content:?}")
            }
            other => format!("{other:?}"),
        })
        .collect()
}

#[test]
fn strict_streams_are_the_same_without_reasoning_keys() {
    let with = build_body(&[
        r#"{"choices":[{"delta":{"content":"a","reasoning_content":"x"},"message":{"reasoning_content":"y"}}]}"#,
        r#"{"choices":[{"delta":{"reasoning_content":"z","tool_calls":[{"id":"c","function":{"name":"f"}}]},"finish_reason":"tool_calls"}],"usage":{"total_tokens":3}}"#,
    ]);
    let without = build_body(&[
        r#"{"choices":[{"delta":{"content":"a"},"message":{}}]}"#,
        r#"{"choices":[{"delta":{"tool_calls":[{"id":"c","function":{"name":"f"}}]},"finish_reason":"tool_calls"}],"usage":{"total_tokens":3}}"#,
    ]);
    assert_eq!(without_ids(collect_events(&with)), without_ids(collect_events(&without)));
}

#[test]
fn length_ends_the_stream_with_an_error() {
    let frame = r#"{"choices":[{"delta":{"content":"a"},"finish_reason":"length"},{"delta":{"content":"b"}}]}"#;
    let after = r#"{"choices":[{"delta":{"content":"c"}}]}"#;
    let events = results(&build_body(&[frame, after]), ChatDialect::Strict);
    assert_eq!(events.len(), 3);
    assert!(matches!(events[1], Ok(ResponseEvent::OutputTextDelta(ref text)) if text == "a"));
    assert!(matches!(events[2], Err(ApiError::ContextWindowExceeded)));
}

#[test]
fn broken_and_idle_streams_end_with_an_error() {
    let broken = process_chat_sse(
        &vec![SsePoll::Failed("boom".to_string()), SsePoll::Ended],
        ChatDialect::Strict,
    );
    assert_eq!(broken.len(), 1);
    assert!(matches!(&broken[0], Err(ApiError::Stream(text)) if text == "boom"));
    let idle = process_chat_sse(&vec![SsePoll::TimedOut], ChatDialect::Strict);
    assert_eq!(idle.len(), 1);
    assert!(
        matches!(&idle[0], Err(ApiError::Stream(text)) if text == "idle timeout waiting for SSE")
    );
}

#[test]
fn blank_and_unreadable_events_are_skipped() {
    let polls = vec![
        SsePoll::Event(" \n".to_string()),
        SsePoll::Event("{not json".to_string()),
        SsePoll::Event("{\"choices\":7}".to_string()),
        SsePoll::Event("  DONE \u{a0}".to_string()),
        SsePoll::Event(r#"{"choices":[{"delta":{"content":"late"}}]}"#.to_string()),
        SsePoll::Ended,
    ];
    let events = process_chat_sse(&polls, ChatDialect::Strict);
    assert_eq!(events.len(), 1);
    assert!(matches!(
        &events[0],
        Ok(ResponseEvent::Completed { response_id, token_usage: None, end_turn: None }) if response_id.is_empty()
    ));
}

#[test]
fn given_ids_are_used() {
    let mut stream = ChatStream::new(ChatDialect::ThinkingReasoningContent);
    let choice = parse_json(
        r#"{"delta":{"content":"t","reasoning_content":"r"},"finish_reason":"stop"}"#,
    )
    .expect("valid JSON");
    stream.on_choice(&choice, Some("rid".to_string()), Some("aid".to_string()));
    assert!(!stream.has_ended());
    let events = stream.take_events();
    assert!(stream.take_events().is_empty());
    assert!(matches!(
        &events[..],
        [
            Ok(ResponseEvent::OutputItemAdded(ResponseItem::Reasoning { id: r1, .. })),
            Ok(ResponseEvent::ReasoningContentDelta { .. }),
            Ok(ResponseEvent::OutputItemAdded(ResponseItem::Message { id: Some(a1), .. })),
            Ok(ResponseEvent::OutputTextDelta(_)),
            Ok(ResponseEvent::OutputItemDone(ResponseItem::Reasoning { id: r2, .. })),
            Ok(ResponseEvent::OutputItemDone(ResponseItem::Message { id: Some(a2), .. })),
        ] if r1 == "rid" && r2 == "rid" && a1 == "aid" && a2 == "aid"
    ));
}

#[test]
fn polls_can_be_taken_in_one_by_one() {
    let mut stream = ChatStream::new(ChatDialect::Strict);
    stream.on_poll(&SsePoll::Event(r#"{"choices":[{"delta":{"content":"x"}}]}"#.to_string()));
    assert_eq!(stream.take_events().len(), 2);
    stream.on_poll(&SsePoll::Ended);
    let events = stream.take_events();
    assert_eq!(events.len(), 2);
    assert!(stream.has_ended());
    stream.on_poll(&SsePoll::Ended);
    assert!(stream.take_events().is_empty());
}

#[test]
fn usage_of_later_chunks_replaces_that_of_earlier_ones() {
    let body = build_body(&[
        r#"{"choices":[],"usage":{"total_tokens":5}}"#,
        r#"{"choices":[],"usage":{"total_tokens":9,"prompt_tokens":4}}"#,
        r#"{"choices":[],"usage":null}"#,
        r#"{"choices":[],"usage":{}}"#,
    ]);
    let events = collect_events(&body);
    let usage = usage_of(&events[0]).expect("usage");
    assert_eq!(usage.total_tokens, 9);
    assert_eq!(usage.input_tokens, 4);
    assert_eq!(usage.output_tokens, 0);
}

#[test]
fn usage_without_counts_is_none() {
    assert!(parse_chat_usage(None).is_none());
    for text in [
        "null",
        "[]",
        "{}",
        r#"{"total_tokens":"7"}"#,
        r#"{"total_tokens":0,"prompt_tokens_details":{"cached_tokens":3}}"#,
        r#"{"total_tokens":1.5}"#,
    ] {
        let json = parse_json(text).expect("valid JSON");
        assert!(parse_chat_usage(Some(&json)).is_none(), "{text}");
    }
    let json = parse_json(r#"{"completion_tokens":2,"prompt_tokens_details":7}"#).expect("valid JSON");
    assert_eq!(
        parse_chat_usage(Some(&json)),
        Some(TokenUsage {
            input_tokens: 0,
            cached_input_tokens: 0,
            output_tokens: 2,
            reasoning_output_tokens: 0,
            total_tokens: 0,
        })
    );
}

fn finished(pieces: &[&str]) -> Vec<(String, String, String)> {
    let mut calls = ToolCalls::new();
    for piece in pieces {
        calls.apply_delta(&parse_json(piece).expect("valid JSON"));
    }
    calls
        .finish()
        .into_iter()
        .map(|item| match item {
            ResponseItem::FunctionCall { call_id, name, arguments, id: None, namespace: None } => {
                (call_id, name, arguments)
            }
            other => panic!("no call: {other:?}"),
        })
        .collect()
}

fn triple(call_id: &str, name: &str, arguments: &str) -> (String, String, String) {
    (call_id.to_string(), name.to_string(), arguments.to_string())
}

#[test]
fn calls_without_ids_get_ids_from_their_indices() {
    let calls = finished(&[
        r#"{"index":7,"function":{"name":"f","arguments":"a"}}"#,
        r#"{"index":12,"function":{"name":"g","arguments":"b"}}"#,
    ]);
    assert_eq!(calls, vec![triple("tool-call-7", "f", "a"), triple("tool-call-12", "g", "b")]);
}

#[test]
fn calls_without_a_name_are_left_out() {
    let calls = finished(&[
        r#"{"id":"x","function":{"arguments":"a"}}"#,
        r#"{"id":"y","function":{"name":"g"}}"#,
    ]);
    assert_eq!(calls, vec![triple("y", "g", "")]);
}

#[test]
fn pieces_without_id_and_index_continue_the_last_call() {
    let calls = finished(&[
        r#"{"id":"x","function":{"name":"f","arguments":"1"}}"#,
        r#"{"id":"y","function":{"name":"g","arguments":"2"}}"#,
        r#"{"function":{"arguments":"3"}}"#,
        r#"{"id":"x","function":{"arguments":"4"}}"#,
        r#"{"function":{"name":"h","arguments":"5"}}"#,
    ]);
    assert_eq!(calls, vec![triple("x", "f", "145"), triple("y", "g", "23")]);
}

#[test]
fn new_calls_never_take_an_index_that_is_in_use() {
    let calls = finished(&[
        r#"{"index":0,"function":{"name":"f","arguments":"1"}}"#,
        r#"{"index":1,"function":{"name":"g","arguments":"2"}}"#,
        r#"{"id":"z","function":{"name":"h","arguments":"3"}}"#,
        r#"{"index":2,"function":{"arguments":"4"}}"#,
    ]);
    assert_eq!(
        calls,
        vec![
            triple("tool-call-0", "f", "1"),
            triple("tool-call-1", "g", "2"),
            triple("z", "h", "34"),
        ]
    );
}

#[test]
fn ids_stay_known_after_a_finish() {
    let mut calls = ToolCalls::new();
    let first = parse_json(r#"{"id":"a","index":3,"function":{"name":"f"}}"#).expect("valid JSON");
    calls.apply_delta(&first);
    assert_eq!(calls.finish().len(), 1);
    assert_eq!(calls.finish().len(), 0);
    let again = parse_json(r#"{"id":"a","function":{"name":"g"}}"#).expect("valid JSON");
    let other = parse_json(r#"{"index":3,"function":{"arguments":"x"}}"#).expect("valid JSON");
    calls.apply_delta(&again);
    calls.apply_delta(&other);
    let items = calls.finish();
    assert_eq!(items.len(), 1);
    assert!(matches!(
        &items[0],
        ResponseItem::FunctionCall { call_id, name, arguments, .. }
            if call_id == "a" && name == "g" && arguments == "x"
    ));
}
