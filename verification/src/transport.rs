//! HTTP requests and responses of the chat endpoint: how a request goes out,
//! what a response means, and what trace lines say of both.

use vstd::prelude::*;
use vstd::utf8::{decode_utf8, encode_utf8, valid_utf8};

use crate::headers::{
    header_contents, header_value_for_trace, insert_header, is_header_name, is_header_text,
    shown_header, MAX_HEADER_NAMES,
};
use crate::json::{
    items_view, lemma_items_view, parse_json_bytes, parsed_bytes, print_json, print_json_bytes,
    printed, printed_bytes, get_field, nested_within, same_but_floats, Json, JsonView,
};
use crate::protocol::opt_text;
use crate::request::ChatRequest;
use crate::text::{decimal, decimal_text, same_text};

verus! {

/// The body of a request.
#[derive(Debug)]
pub enum RequestBody {
    Json(Json),
    /// JSON that is already written out.
    EncodedJson(Vec<u8>),
    Raw(Vec<u8>),
}

/// A request to the chat endpoint.
pub struct EndpointRequest {
    pub method: String,
    /// Below the provider's base address.
    pub path: String,
    pub headers: http::HeaderMap<http::HeaderValue>,
    pub body: Option<RequestBody>,
}

/// What the transport can fail with.
#[derive(Debug)]
pub enum TransportError {
    Timeout,
    Network(String),
    Build(String),
    Http {
        status: u16,
        url: Option<String>,
        headers: Option<http::HeaderMap<http::HeaderValue>>,
        body: Option<String>,
    },
}

/// A body with its JSON written out. A trace line says the same of it as of the
/// JSON itself, unless that is nested more deeply than it can be read again.
pub fn encode_json_body(body: &Json) -> (result: RequestBody)
    ensures
        result matches RequestBody::EncodedJson(bytes) && bytes@ == printed_bytes(body@),
        nested_within(body@, 127) ==> stats_of_request(Some(result)) == stats_of_request(
            Some(RequestBody::Json(*body)),
        ),
{
    let bytes = print_json_bytes(body);
    proof {
        if nested_within(body@, 127) {
            law_body_forms_agree(
                StatsView { body_bytes: bytes@.len(), ..no_stats() },
                body@,
                parsed_bytes(bytes@)->0,
            );
        }
    }
    RequestBody::EncodedJson(bytes)
}

/// The request that sends a chat request off: a `POST` to `chat/completions`
/// that asks for an event stream. Its body is written out here, once, so that
/// whoever sends it or traces it can use the same bytes.
pub fn chat_endpoint_request(request: ChatRequest) -> (result: EndpointRequest)
    requires
        header_contents(request.headers).dom().len() <= MAX_HEADER_NAMES,
    ensures
        result.method@ == "POST"@,
        result.path@ == "chat/completions"@,
        header_contents(result.headers) == header_contents(request.headers).insert(
            "accept"@,
            seq![encode_utf8("text/event-stream"@)],
        ),
        result.body matches Some(RequestBody::EncodedJson(bytes)) && bytes@ == printed_bytes(
            request.body@,
        ),
        nested_within(request.body@, 127) ==> stats_of_request(result.body) == stats_of_request(
            Some(RequestBody::Json(request.body)),
        ),
{
    let mut headers = request.headers;
    proof {
        reveal_strlit("accept");
        reveal_strlit("text/event-stream");
        assert(is_header_name("accept"@));
        assert(is_header_text("text/event-stream"@));
    }
    insert_header(&mut headers, "accept", "text/event-stream");
    EndpointRequest {
        method: "POST".to_owned(),
        path: "chat/completions".to_owned(),
        headers,
        body: Some(encode_json_body(&request.body)),
    }
}

/// Whether an error is what a failure of the given kind is reported as.
pub open spec fn reports(error: TransportError, is_timeout: bool, message: Seq<char>) -> bool {
    if is_timeout {
        error is Timeout
    } else {
        error matches TransportError::Network(text) && text@ == message
    }
}

/// What a failed send or a broken body is reported as.
pub fn map_error(is_timeout: bool, message: String) -> (result: TransportError)
    ensures
        reports(result, is_timeout, message@),
{
    if is_timeout {
        TransportError::Timeout
    } else {
        TransportError::Network(message)
    }
}

/// Whether a status says that the request was served.
pub fn is_success(status: u16) -> (result: bool)
    ensures
        result == (200 <= status < 300),
{
    200 <= status && status < 300
}

/// What a response is answered with: an error that carries all of it, unless
/// its status says that the request was served.
pub fn check_status(
    status: u16,
    url: String,
    headers: http::HeaderMap<http::HeaderValue>,
    body: Option<String>,
) -> (result: Result<(), TransportError>)
    ensures
        match result {
            Ok(_) => 200 <= status < 300,
            Err(TransportError::Http { status: s, url: u, headers: h, body: b }) => {
                &&& !(200 <= status < 300)
                &&& s == status
                &&& opt_text(u) == Some(url@)
                &&& h == Some(headers)
                &&& opt_text(b) == opt_text(body)
            },
            Err(_) => false,
        },
{
    if is_success(status) {
        Ok(())
    } else {
        Err(TransportError::Http { status, url: Some(url), headers: Some(headers), body })
    }
}

/// Calls `String::from_utf8`. The contract says that a text comes back exactly
/// where the bytes are UTF-8, and that it is the text that they encode.
#[verifier::external_body]
fn utf8_text(bytes: Vec<u8>) -> (result: Option<String>)
    ensures
        match result {
            Some(text) => valid_utf8(bytes@) && text@ == decode_utf8(bytes@),
            None => !valid_utf8(bytes@),
        },
{
    String::from_utf8(bytes).ok()
}

/// The text of a response's body, where it is UTF-8.
pub fn error_body(bytes: Vec<u8>) -> (result: Option<String>)
    ensures
        match result {
            Some(text) => valid_utf8(bytes@) && text@ == decode_utf8(bytes@),
            None => !valid_utf8(bytes@),
        },
{
    utf8_text(bytes)
}

/// The text that `String::from_utf8_lossy` gives for bytes.
pub uninterp spec fn lossy_text(bytes: Seq<u8>) -> Seq<char>;

/// Calls `String::from_utf8_lossy`. The contract says that the text depends on
/// the bytes alone and, where they are UTF-8, is the text that they encode.
#[verifier::external_body]
fn read_lossily(bytes: &[u8]) -> (result: String)
    ensures
        result@ == lossy_text(bytes@),
        valid_utf8(bytes@) ==> result@ == decode_utf8(bytes@),
{
    String::from_utf8_lossy(bytes).into_owned()
}

/// A request's body as a trace line shows it.
pub open spec fn shown_body(body: Option<RequestBody>) -> Seq<char> {
    match body {
        Some(RequestBody::Json(json)) => printed(json@),
        Some(RequestBody::EncodedJson(bytes)) => lossy_text(bytes@),
        Some(RequestBody::Raw(bytes)) => "<raw body: "@ + decimal(bytes@.len()) + " bytes>"@,
        None => Seq::empty(),
    }
}

/// A request's body as a trace line shows it.
pub fn request_body_for_trace(body: &Option<RequestBody>) -> (result: String)
    ensures
        result@ == shown_body(*body),
{
    match body {
        Some(RequestBody::Json(json)) => print_json(json),
        Some(RequestBody::EncodedJson(bytes)) => read_lossily(bytes.as_slice()),
        Some(RequestBody::Raw(bytes)) => {
            let mut text = "<raw body: ".to_owned();
            text.append(decimal_text(bytes.len()).as_str());
            text.append(" bytes>");
            text
        },
        None => {
            let text = String::new();
            assert(text@ =~= Seq::empty());
            text
        },
    }
}

/// The number of characters of text in a message's content: those of a text,
/// of all items of a list, and of an object's `text`.
pub open spec fn text_chars(value: JsonView) -> nat
    decreases value,
{
    match value {
        JsonView::Str(text) => text.len(),
        JsonView::Array(items) => total_text_chars(items),
        JsonView::Object(fields) => if fields.contains_key("text"@) {
            text_chars(fields["text"@])
        } else {
            0
        },
        _ => 0,
    }
}

/// The number of characters of text in values.
pub open spec fn total_text_chars(items: Seq<JsonView>) -> nat
    decreases items,
{
    if items.len() == 0 {
        0
    } else {
        total_text_chars(items.drop_last()) + text_chars(items.last())
    }
}

/// A count, or the largest `usize` where it is larger than that.
pub open spec fn capped(n: nat) -> usize {
    if n > usize::MAX {
        usize::MAX
    } else {
        n as usize
    }
}

/// The number of characters of text in a message's content.
pub fn text_content_chars(value: &Json) -> (result: usize)
    ensures
        result == capped(text_chars(value@)),
    decreases value,
{
    match value {
        Json::Str(text) => text.as_str().unicode_len(),
        Json::Array(items) => {
            let ghost views = items_view(items@);
            let mut total: usize = 0;
            let mut i: usize = 0;
            assert(views.take(0) =~= Seq::empty());
            while i < items.len()
                invariant
                    i <= items.len(),
                    views == items_view(items@),
                    views.len() == items.len(),
                    value matches Json::Array(inner) && *inner == *items,
                    total == capped(total_text_chars(views.take(i as int))),
                decreases items.len() - i,
            {
                let count: usize = text_content_chars(&items[i]);
                proof {
                    lemma_items_view(items@);
                    assert(views.take(i + 1).drop_last() =~= views.take(i as int));
                    assert(views.take(i + 1).last() == items[i as int]@);
                }
                total = total.saturating_add(count);
                i = i + 1;
            }
            assert(views.take(i as int) =~= views);
            total
        },
        Json::Object(fields) => match get_field(fields, "text") {
            Some(inner) => {
                proof {
                    let i = choose|i: int| 0 <= i < fields.len() && *inner == (#[trigger] fields[i]).1;
                    assert(decreases_to!(fields@ => fields@[i]));
                    assert(decreases_to!(fields@[i] => fields@[i].1));
                }
                text_content_chars(inner)
            },
            None => 0,
        },
        Json::Null => 0,
        Json::Bool(_) => 0,
        Json::Number(_) => 0,
    }
}

/// What a trace line says of a chat request.
#[derive(Debug)]
pub struct ChatHttpTraceStats {
    pub model: String,
    pub body_bytes: usize,
    pub messages_count: usize,
    pub tools_count: usize,
    pub system_chars: usize,
    pub user_chars: usize,
}

/// What trace statistics are.
pub struct StatsView {
    pub model: Seq<char>,
    pub body_bytes: nat,
    pub messages_count: nat,
    pub tools_count: nat,
    pub system_chars: usize,
    pub user_chars: usize,
}

impl ChatHttpTraceStats {
    pub open spec fn view(&self) -> StatsView {
        StatsView {
            model: self.model@,
            body_bytes: self.body_bytes as nat,
            messages_count: self.messages_count as nat,
            tools_count: self.tools_count as nat,
            system_chars: self.system_chars,
            user_chars: self.user_chars,
        }
    }
}

/// Statistics of a request of which nothing is known.
pub open spec fn no_stats() -> StatsView {
    StatsView {
        model: "<missing>"@,
        body_bytes: 0,
        messages_count: 0,
        tools_count: 0,
        system_chars: 0,
        user_chars: 0,
    }
}

/// The roles whose text counts as the system's.
pub open spec fn is_system_role(role: Option<Seq<char>>) -> bool {
    role == Some("system"@) || role == Some("developer"@)
}

/// The role whose text counts as the user's.
pub open spec fn is_user_role(role: Option<Seq<char>>) -> bool {
    role == Some("user"@)
}

/// The number of characters of text in a message.
pub open spec fn message_chars(message: JsonView) -> nat {
    match message.field("content"@) {
        Some(content) => text_chars(content),
        None => 0,
    }
}

/// The number of characters of text in the messages of a role.
pub open spec fn role_chars(
    messages: Seq<JsonView>,
    counts: spec_fn(Option<Seq<char>>) -> bool,
) -> nat
    decreases messages.len(),
{
    if messages.len() == 0 {
        0
    } else {
        let before = role_chars(messages.drop_last(), counts);
        if counts(messages.last().text_field("role"@)) {
            before + message_chars(messages.last())
        } else {
            before
        }
    }
}

/// The messages of a request's body.
pub open spec fn messages_of(body: JsonView) -> Seq<JsonView> {
    match body.items_field("messages"@) {
        Some(messages) => messages,
        None => Seq::empty(),
    }
}

/// Statistics once a body has been read into them.
pub open spec fn stats_of_body(stats: StatsView, body: JsonView) -> StatsView {
    StatsView {
        model: match body.text_field("model"@) {
            Some(model) => model,
            None => "<missing>"@,
        },
        body_bytes: stats.body_bytes,
        messages_count: match body.items_field("messages"@) {
            Some(messages) => messages.len(),
            None => stats.messages_count,
        },
        tools_count: match body.items_field("tools"@) {
            Some(tools) => tools.len(),
            None => 0,
        },
        system_chars: capped(
            stats.system_chars as nat + role_chars(
                messages_of(body),
                |role: Option<Seq<char>>| is_system_role(role),
            ),
        ),
        user_chars: capped(
            stats.user_chars as nat + role_chars(
                messages_of(body),
                |role: Option<Seq<char>>| is_user_role(role),
            ),
        ),
    }
}

/// What a trace line says of a request.
pub open spec fn stats_of_request(body: Option<RequestBody>) -> StatsView {
    match body {
        Some(RequestBody::Json(json)) => stats_of_body(
            StatsView { body_bytes: printed_bytes(json@).len(), ..no_stats() },
            json@,
        ),
        Some(RequestBody::EncodedJson(bytes)) => {
            let stats = StatsView { body_bytes: bytes@.len(), ..no_stats() };
            match parsed_bytes(bytes@) {
                Some(value) => stats_of_body(stats, value),
                None => stats,
            }
        },
        Some(RequestBody::Raw(bytes)) => StatsView {
            model: "<raw>"@,
            body_bytes: bytes@.len(),
            ..no_stats()
        },
        None => no_stats(),
    }
}

proof fn lemma_same_field(left: JsonView, right: JsonView, key: Seq<char>)
    requires
        same_but_floats(left, right),
    ensures
        match (left.field(key), right.field(key)) {
            (Some(l), Some(r)) => same_but_floats(l, r),
            (None, None) => true,
            _ => false,
        },
        left.text_field(key) == right.text_field(key),
        match (left.items_field(key), right.items_field(key)) {
            (Some(l), Some(r)) => same_but_floats(JsonView::Array(l), JsonView::Array(r)),
            (None, None) => true,
            _ => false,
        },
{
    if let (JsonView::Object(a), JsonView::Object(b)) = (left, right) {
        assert(a.contains_key(key) == b.contains_key(key)) by {
            assert(a.dom().contains(key) == b.dom().contains(key));
        }
        if a.contains_key(key) {
            assert(same_but_floats(a[key], b[key]));
        }
    }
}

proof fn lemma_same_text_chars(left: JsonView, right: JsonView)
    requires
        same_but_floats(left, right),
    ensures
        text_chars(left) == text_chars(right),
    decreases left,
{
    match (left, right) {
        (JsonView::Array(a), JsonView::Array(b)) => {
            lemma_same_total_chars(a, b);
        },
        (JsonView::Object(a), JsonView::Object(b)) => {
            lemma_same_field(left, right, "text"@);
            if a.contains_key("text"@) {
                assert(left.field("text"@) == Some(a["text"@]));
                assert(right.field("text"@) == Some(b["text"@]));
                lemma_same_text_chars(a["text"@], b["text"@]);
            } else {
                assert(left.field("text"@) is None);
                assert(!b.contains_key("text"@));
            }
        },
        _ => {},
    }
}

proof fn lemma_same_total_chars(left: Seq<JsonView>, right: Seq<JsonView>)
    requires
        left.len() == right.len(),
        forall|i: int| 0 <= i < left.len() ==> same_but_floats(#[trigger] left[i], right[i]),
    ensures
        total_text_chars(left) == total_text_chars(right),
    decreases left,
{
    if left.len() > 0 {
        assert(same_but_floats(left[left.len() - 1], right[right.len() - 1]));
        lemma_same_text_chars(left.last(), right.last());
        assert forall|i: int| 0 <= i < left.drop_last().len() implies same_but_floats(
            #[trigger] left.drop_last()[i],
            right.drop_last()[i],
        ) by {
            assert(same_but_floats(left[i], right[i]));
        }
        lemma_same_total_chars(left.drop_last(), right.drop_last());
    }
}

proof fn lemma_same_role_chars(
    left: Seq<JsonView>,
    right: Seq<JsonView>,
    counts: spec_fn(Option<Seq<char>>) -> bool,
)
    requires
        left.len() == right.len(),
        forall|i: int| 0 <= i < left.len() ==> same_but_floats(#[trigger] left[i], right[i]),
    ensures
        role_chars(left, counts) == role_chars(right, counts),
    decreases left.len(),
{
    if left.len() > 0 {
        let l = left[left.len() - 1];
        let r = right[right.len() - 1];
        assert(same_but_floats(l, r));
        lemma_same_field(l, r, "role"@);
        lemma_same_field(l, r, "content"@);
        if let (Some(a), Some(b)) = (l.field("content"@), r.field("content"@)) {
            lemma_same_text_chars(a, b);
        }
        assert forall|i: int| 0 <= i < left.drop_last().len() implies same_but_floats(
            #[trigger] left.drop_last()[i],
            right.drop_last()[i],
        ) by {
            assert(same_but_floats(left[i], right[i]));
        }
        lemma_same_role_chars(left.drop_last(), right.drop_last(), counts);
    }
}

/// A trace line says the same of two bodies that are the same but for their
/// floats: of a body and of what its bytes read as.
pub proof fn law_body_forms_agree(stats: StatsView, left: JsonView, right: JsonView)
    requires
        same_but_floats(left, right),
    ensures
        stats_of_body(stats, left) == stats_of_body(stats, right),
{
    lemma_same_field(left, right, "model"@);
    lemma_same_field(left, right, "messages"@);
    lemma_same_field(left, right, "tools"@);
    lemma_same_role_chars(
        messages_of(left),
        messages_of(right),
        |role: Option<Seq<char>>| is_system_role(role),
    );
    lemma_same_role_chars(
        messages_of(left),
        messages_of(right),
        |role: Option<Seq<char>>| is_user_role(role),
    );
}

/// Reads the body of a chat request into its statistics.
pub fn fill_chat_trace_stats_from_body(stats: &mut ChatHttpTraceStats, body: &Json)
    ensures
        final(stats)@ == stats_of_body(old(stats)@, body@),
{
    let ghost before = stats@;
    let ghost by_system = |role: Option<Seq<char>>| is_system_role(role);
    let ghost by_user = |role: Option<Seq<char>>| is_user_role(role);
    stats.model = match body.get_str("model") {
        Some(model) => model.to_owned(),
        None => "<missing>".to_owned(),
    };
    stats.tools_count = match body.get_array("tools") {
        Some(tools) => {
            proof {
                lemma_items_view(tools@);
            }
            tools.len()
        },
        None => 0,
    };
    if let Some(messages) = body.get_array("messages") {
        let ghost views = items_view(messages@);
        proof {
            lemma_items_view(messages@);
        }
        stats.messages_count = messages.len();
        let ghost counted = stats@;
        let mut i: usize = 0;
        assert(views.take(0) =~= Seq::empty());
        while i < messages.len()
            invariant
                i <= messages.len(),
                views == items_view(messages@),
                views.len() == messages.len(),
                by_system == (|role: Option<Seq<char>>| is_system_role(role)),
                by_user == (|role: Option<Seq<char>>| is_user_role(role)),
                stats@ == (StatsView {
                    system_chars: capped(
                        before.system_chars as nat + role_chars(views.take(i as int), by_system),
                    ),
                    user_chars: capped(
                        before.user_chars as nat + role_chars(views.take(i as int), by_user),
                    ),
                    ..counted
                }),
            decreases messages.len() - i,
        {
            let message = &messages[i];
            proof {
                lemma_items_view(messages@);
                assert(views.take(i + 1).drop_last() =~= views.take(i as int));
                assert(views.take(i + 1).last() == message@);
                lemma_roles_differ();
            }
            let content_chars: usize = match message.get("content") {
                Some(content) => text_content_chars(content),
                None => 0,
            };
            if let Some(role) = message.get_str("role") {
                if same_text(role, "system") || same_text(role, "developer") {
                    stats.system_chars = stats.system_chars.saturating_add(content_chars);
                } else if same_text(role, "user") {
                    stats.user_chars = stats.user_chars.saturating_add(content_chars);
                }
            }
            i = i + 1;
        }
        assert(views.take(i as int) =~= views);
    }
}

proof fn lemma_roles_differ()
    ensures
        "user"@ != "system"@,
        "user"@ != "developer"@,
{
    reveal_strlit("user");
    reveal_strlit("system");
    reveal_strlit("developer");
    assert("user"@.len() == 4);
    assert("system"@.len() == 6);
    assert("developer"@.len() == 9);
}

/// What a trace line says of a request.
pub fn request_stats_for_trace(body: &Option<RequestBody>) -> (result: ChatHttpTraceStats)
    ensures
        result@ == stats_of_request(*body),
{
    let mut stats = ChatHttpTraceStats {
        model: "<missing>".to_owned(),
        body_bytes: 0,
        messages_count: 0,
        tools_count: 0,
        system_chars: 0,
        user_chars: 0,
    };
    match body {
        Some(RequestBody::Json(json)) => {
            stats.body_bytes = print_json_bytes(json).len();
            fill_chat_trace_stats_from_body(&mut stats, json);
        },
        Some(RequestBody::EncodedJson(bytes)) => {
            stats.body_bytes = bytes.len();
            if let Some(value) = parse_json_bytes(bytes.as_slice()) {
                fill_chat_trace_stats_from_body(&mut stats, &value);
            }
        },
        Some(RequestBody::Raw(bytes)) => {
            stats.model = "<raw>".to_owned();
            stats.body_bytes = bytes.len();
        },
        None => {},
    }
    stats
}

/// The trace line for a request that is about to go out.
pub open spec fn send_start(method: Seq<char>, url: Seq<char>, stats: StatsView) -> Seq<char> {
    "[chat-http-trace] send start method="@ + method + " url="@ + url + " model="@ + stats.model
        + " body_bytes="@ + decimal(stats.body_bytes) + " messages_count="@ + decimal(
        stats.messages_count,
    ) + " tools_count="@ + decimal(stats.tools_count) + " system_chars="@ + decimal(
        stats.system_chars as nat,
    ) + " user_chars="@ + decimal(stats.user_chars as nat)
}

/// The trace line for a request that is about to go out.
pub fn send_start_line(method: &str, url: &str, stats: &ChatHttpTraceStats) -> (result: String)
    ensures
        result@ == send_start(method@, url@, stats@),
{
    let mut line = "[chat-http-trace] send start method=".to_owned();
    line.append(method);
    line.append(" url=");
    line.append(url);
    line.append(" model=");
    line.append(stats.model.as_str());
    line.append(" body_bytes=");
    line.append(decimal_text(stats.body_bytes).as_str());
    line.append(" messages_count=");
    line.append(decimal_text(stats.messages_count).as_str());
    line.append(" tools_count=");
    line.append(decimal_text(stats.tools_count).as_str());
    line.append(" system_chars=");
    line.append(decimal_text(stats.system_chars).as_str());
    line.append(" user_chars=");
    line.append(decimal_text(stats.user_chars).as_str());
    line
}

/// The trace line for the head of a response.
pub open spec fn response_headers(
    status: u16,
    url: Seq<char>,
    headers: Map<Seq<char>, Seq<Seq<u8>>>,
) -> Seq<char> {
    "[chat-http-trace] response headers status="@ + decimal(status as nat) + " url="@ + url
        + " content_type="@ + shown_header(headers, "content-type"@) + " content_length="@
        + shown_header(headers, "content-length"@) + " transfer_encoding="@ + shown_header(
        headers,
        "transfer-encoding"@,
    )
}

/// The trace line for the head of a response.
pub fn response_headers_line(
    status: u16,
    url: &str,
    headers: &http::HeaderMap<http::HeaderValue>,
) -> (result: String)
    ensures
        result@ == response_headers(status, url@, header_contents(*headers)),
{
    proof {
        reveal_strlit("content-type");
        reveal_strlit("content-length");
        reveal_strlit("transfer-encoding");
        assert(is_header_name("content-type"@));
        assert(is_header_name("content-length"@));
        assert(is_header_name("transfer-encoding"@));
    }
    let mut line = "[chat-http-trace] response headers status=".to_owned();
    line.append(decimal_text(status as usize).as_str());
    line.append(" url=");
    line.append(url);
    line.append(" content_type=");
    line.append(header_value_for_trace(headers, "content-type"));
    line.append(" content_length=");
    line.append(header_value_for_trace(headers, "content-length"));
    line.append(" transfer_encoding=");
    line.append(header_value_for_trace(headers, "transfer-encoding"));
    line
}

/// A streaming request under way, from the first line of its trace to the last
/// chunk of its response.
#[derive(Debug)]
pub struct HttpExchange {
    pub url: String,
    /// Whether there is a trace to write lines to.
    pub traced: bool,
    pub first_chunk_seen: bool,
}

/// A line, where there is a trace to write it to.
pub open spec fn traced_line(traced: bool, line: Seq<char>) -> Option<Seq<char>> {
    if traced {
        Some(line)
    } else {
        None
    }
}

impl HttpExchange {
    /// A request about to go out, and the line for it.
    pub fn start(method: &str, url: String, body: &Option<RequestBody>, traced: bool) -> (result: (
        Self,
        Option<String>,
    ))
        ensures
            result.0.url@ == url@,
            result.0.traced == traced,
            !result.0.first_chunk_seen,
            opt_text(result.1) == traced_line(
                traced,
                send_start(method@, url@, stats_of_request(*body)),
            ),
    {
        let line = if traced {
            let stats = request_stats_for_trace(body);
            Some(send_start_line(method, url.as_str(), &stats))
        } else {
            None
        };
        (HttpExchange { url, traced, first_chunk_seen: false }, line)
    }

    /// The request could not be sent: the line for that, and the error.
    pub fn on_send_error(&self, is_timeout: bool, message: String) -> (result: (
        Option<String>,
        TransportError,
    ))
        ensures
            opt_text(result.0) == traced_line(
                self.traced,
                "[chat-http-trace] send error url="@ + self.url@ + " error="@ + message@,
            ),
            reports(result.1, is_timeout, message@),
    {
        let line = if self.traced {
            let mut line = "[chat-http-trace] send error url=".to_owned();
            line.append(self.url.as_str());
            line.append(" error=");
            line.append(message.as_str());
            Some(line)
        } else {
            None
        };
        (line, map_error(is_timeout, message))
    }

    /// The head of the response has come: the line for it, and whether its body
    /// is the stream that was asked for.
    pub fn on_head(&self, status: u16, headers: &http::HeaderMap<http::HeaderValue>) -> (result: (
        Option<String>,
        bool,
    ))
        ensures
            opt_text(result.0) == traced_line(
                self.traced,
                response_headers(status, self.url@, header_contents(*headers)),
            ),
            result.1 == (200 <= status < 300),
    {
        let line = if self.traced {
            Some(response_headers_line(status, self.url.as_str(), headers))
        } else {
            None
        };
        (line, is_success(status))
    }

    /// A chunk of the given length has come: in a trace the first one gets a
    /// line, later ones get none.
    pub fn on_chunk(&mut self, bytes: usize) -> (result: Option<String>)
        ensures
            final(self).url@ == old(self).url@,
            final(self).traced == old(self).traced,
            final(self).first_chunk_seen == (old(self).first_chunk_seen || old(self).traced),
            opt_text(result) == traced_line(
                old(self).traced && !old(self).first_chunk_seen,
                "[chat-http-trace] first byte chunk url="@ + old(self).url@ + " bytes="@ + decimal(
                    bytes as nat,
                ),
            ),
    {
        if self.traced && !self.first_chunk_seen {
            self.first_chunk_seen = true;
            let mut line = "[chat-http-trace] first byte chunk url=".to_owned();
            line.append(self.url.as_str());
            line.append(" bytes=");
            line.append(decimal_text(bytes).as_str());
            Some(line)
        } else {
            None
        }
    }

    /// The body broke off: the line for that, and the error.
    pub fn on_chunk_error(&self, is_timeout: bool, message: String) -> (result: (
        Option<String>,
        TransportError,
    ))
        ensures
            opt_text(result.0) == traced_line(
                self.traced,
                "[chat-http-trace] byte stream error url="@ + self.url@ + " error="@ + message@,
            ),
            reports(result.1, is_timeout, message@),
    {
        let line = if self.traced {
            let mut line = "[chat-http-trace] byte stream error url=".to_owned();
            line.append(self.url.as_str());
            line.append(" error=");
            line.append(message.as_str());
            Some(line)
        } else {
            None
        };
        (line, map_error(is_timeout, message))
    }
}

} // verus!
