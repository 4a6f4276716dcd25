//! Requests and responses of the chat endpoint, and trace lines.

use chat_wire::headers::header_value_for_trace;
use chat_wire::json::{parse_json, Json};
use chat_wire::protocol::{ChatDialect, ContentItem, ResponseItem};
use chat_wire::request::ChatRequestBuilder;
use chat_wire::transport::{
    chat_endpoint_request, check_status, encode_json_body, error_body, is_success, map_error,
    request_body_for_trace, request_stats_for_trace, response_headers_line, send_start_line,
    text_content_chars, HttpExchange, RequestBody, TransportError,
};
use http::{HeaderMap, HeaderValue};

fn json(text: &str) -> Json {
    parse_json(text).expect("valid JSON")
}

#[test]
fn chat_requests_are_posted_for_an_event_stream() {
    let input = vec![ResponseItem::Message {
        id: None,
        role: "user".to_string(),
        content: vec![ContentItem::InputText { text: "ping".to_string() }],
    }];
    let request = ChatRequestBuilder::new("deepseek", "inst", &input, &[])
        .conversation_id(Some("c".to_string()))
        .build(ChatDialect::Strict)
        .expect("request");
    let endpoint = chat_endpoint_request(request);
    assert_eq!(endpoint.method, "POST");
    assert_eq!(endpoint.path, "chat/completions");
    assert_eq!(
        endpoint.headers.get("accept"),
        Some(&HeaderValue::from_static("text/event-stream"))
    );
    assert_eq!(endpoint.headers.get("session-id"), Some(&HeaderValue::from_static("c")));
    assert_eq!(endpoint.headers.len(), 2);
    match endpoint.body {
        Some(RequestBody::EncodedJson(bytes)) => {
            let body: serde_json::Value = serde_json::from_slice(&bytes).expect("valid JSON");
            assert_eq!(body["model"], "deepseek");
            assert_eq!(body["stream"], true);
            assert_eq!(body["messages"][1]["content"], "ping");
        }
        other => panic!("unexpected body: {other:?}"),
    }
}

#[test]
fn failures_are_told_apart_by_timeout() {
    assert!(matches!(map_error(true, "late".to_string()), TransportError::Timeout));
    assert!(matches!(
        map_error(false, "reset".to_string()),
        TransportError::Network(text) if text == "reset"
    ));
}

#[test]
fn only_two_hundreds_are_success() {
    assert!(is_success(200));
    assert!(is_success(299));
    assert!(!is_success(199));
    assert!(!is_success(300));
    assert!(!is_success(404));
}

#[test]
fn refused_requests_carry_the_whole_response() {
    let mut headers = HeaderMap::new();
    headers.insert("retry-after", HeaderValue::from_static("3"));
    let refused = check_status(
        429,
        "https://x/chat/completions".to_string(),
        headers.clone(),
        Some("slow down".to_string()),
    );
    match refused {
        Err(TransportError::Http { status: 429, url: Some(url), headers: Some(h), body: Some(b) }) => {
            assert_eq!(url, "https://x/chat/completions");
            assert_eq!(h, headers);
            assert_eq!(b, "slow down");
        }
        other => panic!("unexpected: {other:?}"),
    }
    assert!(check_status(200, "u".to_string(), HeaderMap::new(), None).is_ok());
}

#[test]
fn bodies_that_are_no_utf8_are_left_out() {
    assert_eq!(error_body("n\u{e9}".as_bytes().to_vec()), Some("n\u{e9}".to_string()));
    assert_eq!(error_body(vec![0xff, 0xfe]), None);
}

#[test]
fn bodies_are_shown_in_trace_lines() {
    assert_eq!(
        request_body_for_trace(&Some(RequestBody::Json(json(r#"{ "b": 1, "a": "x" }"#)))),
        r#"{"a":"x","b":1}"#
    );
    assert_eq!(
        request_body_for_trace(&Some(RequestBody::EncodedJson(b"{\"a\" : 1}".to_vec()))),
        r#"{"a" : 1}"#
    );
    assert_eq!(
        request_body_for_trace(&Some(RequestBody::EncodedJson(vec![b'a', 0xff]))),
        "a\u{fffd}"
    );
    assert_eq!(
        request_body_for_trace(&Some(RequestBody::Raw(vec![0; 1024]))),
        "<raw body: 1024 bytes>"
    );
    assert_eq!(request_body_for_trace(&None), "");
}

#[test]
fn text_is_counted_in_characters() {
    assert_eq!(text_content_chars(&json(r#""héllo""#)), 5);
    assert_eq!(
        text_content_chars(&json(
            r#"[{"type":"text","text":"ab"},{"image_url":"xyz"},["c",{"text":["d",7]}],null,true]"#
        )),
        4
    );
    assert_eq!(text_content_chars(&json("12")), 0);
}

#[test]
fn requests_are_counted_for_trace_lines() {
    let text = r#"{"messages":[{"content":"sys","role":"system"},{"content":"dev!","role":"developer"},{"content":[{"text":"hello","type":"text"}],"role":"user"},{"content":"skip","role":"assistant"},{"role":"user"}],"model":"m","tools":[{},{}]}"#;
    let stats = request_stats_for_trace(&Some(RequestBody::Json(json(text))));
    assert_eq!(stats.model, "m");
    assert_eq!(stats.body_bytes, text.len());
    assert_eq!(stats.messages_count, 5);
    assert_eq!(stats.tools_count, 2);
    assert_eq!(stats.system_chars, 7);
    assert_eq!(stats.user_chars, 5);
    assert_eq!(
        send_start_line("POST", "u", &stats),
        format!(
            "[chat-http-trace] send start method=POST url=u model=m body_bytes={} messages_count=5 tools_count=2 system_chars=7 user_chars=5",
            text.len()
        )
    );
    let encoded = request_stats_for_trace(&Some(RequestBody::EncodedJson(text.as_bytes().to_vec())));
    assert_eq!(encoded.model, "m");
    assert_eq!(encoded.body_bytes, text.len());
    assert_eq!(encoded.system_chars, 7);
}

#[test]
fn requests_without_a_readable_body_are_counted_by_size() {
    let raw = request_stats_for_trace(&Some(RequestBody::Raw(vec![1, 2, 3])));
    assert_eq!(raw.model, "<raw>");
    assert_eq!(raw.body_bytes, 3);
    let broken = request_stats_for_trace(&Some(RequestBody::EncodedJson(b"{".to_vec())));
    assert_eq!(broken.model, "<missing>");
    assert_eq!(broken.body_bytes, 1);
    let none = request_stats_for_trace(&None);
    assert_eq!(none.model, "<missing>");
    assert_eq!(none.body_bytes, 0);
    let bare = request_stats_for_trace(&Some(RequestBody::Json(json("{}"))));
    assert_eq!(bare.model, "<missing>");
    assert_eq!(bare.body_bytes, 2);
    assert_eq!(bare.messages_count, 0);
}

#[test]
fn response_heads_are_shown_in_trace_lines() {
    let mut headers = HeaderMap::new();
    headers.insert("content-type", HeaderValue::from_static("text/event-stream"));
    headers.insert("transfer-encoding", HeaderValue::from_bytes(b"chunk\xff").expect("value"));
    assert_eq!(
        response_headers_line(200, "u", &headers),
        "[chat-http-trace] response headers status=200 url=u content_type=text/event-stream content_length=<missing> transfer_encoding=<missing>"
    );
    assert_eq!(header_value_for_trace(&headers, "content-type"), "text/event-stream");
    assert_eq!(header_value_for_trace(&headers, "content-length"), "<missing>");
    let long = format!("x_{}", "a".repeat(100));
    headers.insert(
        http::header::HeaderName::from_bytes(long.as_bytes()).expect("name"),
        HeaderValue::from_static("v"),
    );
    assert_eq!(header_value_for_trace(&headers, &long), "v");
}

#[test]
fn traced_exchanges_get_a_line_for_each_step() {
    let body = Some(RequestBody::Raw(vec![1, 2]));
    let (mut exchange, line) = HttpExchange::start("POST", "u".to_string(), &body, true);
    assert_eq!(
        line,
        Some(
            "[chat-http-trace] send start method=POST url=u model=<raw> body_bytes=2 messages_count=0 tools_count=0 system_chars=0 user_chars=0"
                .to_string()
        )
    );
    let (line, served) = exchange.on_head(200, &HeaderMap::new());
    assert!(served);
    assert_eq!(line, Some(response_headers_line(200, "u", &HeaderMap::new())));
    assert_eq!(
        exchange.on_chunk(10),
        Some("[chat-http-trace] first byte chunk url=u bytes=10".to_string())
    );
    assert_eq!(exchange.on_chunk(20), None);
    let (line, error) = exchange.on_chunk_error(false, "reset".to_string());
    assert_eq!(
        line,
        Some("[chat-http-trace] byte stream error url=u error=reset".to_string())
    );
    assert!(matches!(error, TransportError::Network(text) if text == "reset"));
    let (line, error) = exchange.on_send_error(true, "refused".to_string());
    assert_eq!(line, Some("[chat-http-trace] send error url=u error=refused".to_string()));
    assert!(matches!(error, TransportError::Timeout));
}

#[test]
fn untraced_exchanges_say_nothing() {
    let (mut exchange, line) = HttpExchange::start("POST", "u".to_string(), &None, false);
    assert_eq!(line, None);
    assert_eq!(exchange.on_head(503, &HeaderMap::new()), (None, false));
    assert_eq!(exchange.on_chunk(1), None);
    let (line, error) = exchange.on_chunk_error(true, "late".to_string());
    assert_eq!(line, None);
    assert!(matches!(error, TransportError::Timeout));
    let (line, error) = exchange.on_send_error(false, "refused".to_string());
    assert_eq!(line, None);
    assert!(matches!(error, TransportError::Network(text) if text == "refused"));
}

#[test]
fn written_out_bodies_are_counted_like_their_json() {
    let text = r#"{"model":"m","temperature":0.1,"top":1e308,"deep":[[[]]],"messages":[{"role":"system","content":"a\u2028\"b"},{"role":"user","content":[{"text":"c"},1.5]}],"tools":[-1]}"#;
    let body = json(text);
    let encoded = request_stats_for_trace(&Some(encode_json_body(&body)));
    let plain = request_stats_for_trace(&Some(RequestBody::Json(body)));
    assert_eq!(format!("{encoded:?}"), format!("{plain:?}"));
    assert_eq!(plain.model, "m");
    assert_eq!(plain.system_chars, 4);
    assert_eq!(plain.user_chars, 1);
}

#[test]
fn extreme_numbers_are_read_again() {
    for text in [
        "1.7976931348623157e308",
        "-1.7976931348623157e308",
        "5e-324",
        "-0.0",
        "1e16",
        "18446744073709551615",
        "-9223372036854775808",
        "18446744073709551616",
    ] {
        let body = json(text);
        match encode_json_body(&body) {
            RequestBody::EncodedJson(bytes) => {
                let read: serde_json::Value = serde_json::from_slice(&bytes).expect("valid JSON");
                let given: serde_json::Value = serde_json::from_str(text).expect("valid JSON");
                assert_eq!(read.is_f64(), given.is_f64());
            }
            other => panic!("unexpected body: {other:?}"),
        }
    }
}

#[test]
fn bodies_are_read_again_up_to_the_nesting_limit() {
    let nested = |depth: usize| {
        let mut body = Json::Null;
        for _ in 0..depth {
            body = Json::Array(vec![body]);
        }
        Json::Object(vec![("model".to_string(), json(r#""m""#)), ("x".to_string(), body)])
    };
    let within = request_stats_for_trace(&Some(encode_json_body(&nested(126))));
    assert_eq!(within.model, "m");
    let beyond = request_stats_for_trace(&Some(encode_json_body(&nested(127))));
    assert_eq!(beyond.model, "<missing>");
    assert!(beyond.body_bytes > 0);
}
