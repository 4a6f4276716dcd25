//! A stream and the request that follows it.

use chat_wire::json::to_value;
use chat_wire::protocol::{
    ChatDialect, ContentItem, FunctionCallOutputBody, FunctionCallOutputPayload, ResponseEvent,
    ResponseItem,
};
use chat_wire::request::ChatRequestBuilder;
use chat_wire::stream::{process_chat_sse, SsePoll};

#[test]
fn streamed_reasoning_and_calls_go_back() {
    let polls = vec![
        SsePoll::Event(r#"{"choices":[{"delta":{"reasoning_content":"first, "}}]}"#.to_string()),
        SsePoll::Event(r#"{"choices":[{"delta":{"reasoning_content":"look"}}]}"#.to_string()),
        SsePoll::Event(
            r#"{"choices":[{"delta":{"tool_calls":[{"index":0,"id":"c1","function":{"name":"ls","arguments":"{}"}}]}}]}"#
                .to_string(),
        ),
        SsePoll::Event(r#"{"choices":[{"finish_reason":"tool_calls"}]}"#.to_string()),
        SsePoll::Event("[DONE]".to_string()),
    ];
    let mut input = vec![ResponseItem::Message {
        id: None,
        role: "user".to_string(),
        content: vec![ContentItem::InputText { text: "go".to_string() }],
    }];
    for event in process_chat_sse(&polls, ChatDialect::ThinkingReasoningContent) {
        if let Ok(ResponseEvent::OutputItemDone(item)) = event {
            input.push(item);
        }
    }
    input.push(ResponseItem::FunctionCallOutput {
        call_id: "c1".to_string(),
        output: FunctionCallOutputPayload {
            body: FunctionCallOutputBody::Text("files".to_string()),
            success: None,
        },
    });
    let request = ChatRequestBuilder::new("m", "i", &input, &[])
        .build(ChatDialect::ThinkingReasoningContent)
        .expect("request");
    let body = to_value(&request.body);
    let expected: serde_json::Value = serde_json::from_str(
        r#"[{"role":"system","content":"i"},{"role":"user","content":"go"},
            {"role":"assistant","content":null,"reasoning_content":"first, look",
             "tool_calls":[{"id":"c1","type":"function","function":{"name":"ls","arguments":"{}"}}]},
            {"role":"tool","tool_call_id":"c1","content":"files"}]"#,
    )
    .expect("valid JSON");
    assert_eq!(body["messages"], expected);
}
