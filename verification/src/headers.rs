//! The HTTP headers of a chat request.

use vstd::prelude::*;
use vstd::utf8::{decode_utf8, encode_utf8};

use crate::protocol::{opt_text, SessionSource, SubAgentSource};

verus! {

/// `http::HeaderMap`: the headers of a request or a response.
#[verifier::external_type_specification]
#[verifier::external_body]
#[verifier::reject_recursive_types(T)]
pub struct ExHeaderMap<T>(http::HeaderMap<T>);

/// `http::HeaderValue`: the value of a header.
#[verifier::external_type_specification]
#[verifier::external_body]
pub struct ExHeaderValue(http::HeaderValue);

/// The values in a header map, by lower-case name, each name's in order.
pub uninterp spec fn header_contents(headers: http::HeaderMap<http::HeaderValue>) -> Map<
    Seq<char>,
    Seq<Seq<u8>>,
>;

/// The bytes of a header value.
pub uninterp spec fn header_bytes(value: http::HeaderValue) -> Seq<u8>;

/// The characters of a lower-case header name: letters, digits, and the marks
/// that a token may hold.
pub open spec fn is_header_char(c: char) -> bool {
    ||| 'a' <= c <= 'z'
    ||| '0' <= c <= '9'
    ||| c == '!'
    ||| '#' <= c <= '\''
    ||| c == '*'
    ||| c == '+'
    ||| c == '-'
    ||| c == '.'
    ||| c == '^'
    ||| c == '_'
    ||| c == '`'
    ||| c == '|'
    ||| c == '~'
}

/// A header name in lower case.
pub open spec fn is_header_name(name: Seq<char>) -> bool {
    &&& 1 <= name.len() <= 65535
    &&& forall|i: int| 0 <= i < name.len() ==> is_header_char(#[trigger] name[i])
}

/// The largest number of names to which a header map surely takes one more: from
/// the next on, its table may have to grow beyond its limit.
pub const MAX_HEADER_NAMES: usize = 6553;

/// A text that a header value can hold: no control character but the tab.
pub open spec fn is_header_text(text: Seq<char>) -> bool {
    forall|i: int|
        0 <= i < text.len() ==> (' ' <= #[trigger] text[i] && text[i] != '\u{7f}') || text[i]
            == '\t'
}

/// Bytes that are visible ASCII characters, blanks or tabs.
pub open spec fn is_visible_ascii(bytes: Seq<u8>) -> bool {
    forall|i: int| 0 <= i < bytes.len() ==> 32 <= #[trigger] bytes[i] < 127 || bytes[i] == 9
}

/// No header at all.
pub open spec fn no_headers() -> Map<Seq<char>, Seq<Seq<u8>>> {
    Map::empty()
}

/// Calls `http::HeaderMap::new`. The contract says that the map is empty.
#[verifier::external_body]
fn new_headers() -> (result: http::HeaderMap<http::HeaderValue>)
    ensures
        header_contents(result) == no_headers(),
{
    http::HeaderMap::new()
}

/// Calls `http::HeaderValue::from_str`. The contract says that a value comes
/// back exactly where the text has no control character but the tab, and that
/// it holds the text's bytes.
#[verifier::external_body]
fn header_value(text: &str) -> (result: Option<http::HeaderValue>)
    ensures
        match result {
            Some(value) => is_header_text(text@) && header_bytes(value) == encode_utf8(text@),
            None => !is_header_text(text@),
        },
{
    http::HeaderValue::from_str(text).ok()
}

/// Calls `http::HeaderMap::insert`. The contract says that the name gets the
/// value in the place of all it had, and that other names keep theirs. The
/// function panics on a name that is none and on a map that grows beyond its
/// size limit, which `requires` rules out.
#[verifier::external_body]
fn insert_value(
    headers: &mut http::HeaderMap<http::HeaderValue>,
    name: &'static str,
    value: http::HeaderValue,
)
    requires
        is_header_name(name@),
        header_contents(*old(headers)).dom().len() <= MAX_HEADER_NAMES,
    ensures
        header_contents(*final(headers)) == header_contents(*old(headers)).insert(
            name@,
            seq![header_bytes(value)],
        ),
{
    headers.insert(name, value);
}

/// Calls `http::HeaderMap::get`. The contract says that the first value of the
/// name comes back, and nothing where it has none.
#[verifier::external_body]
fn first_value<'a>(
    headers: &'a http::HeaderMap<http::HeaderValue>,
    name: &str,
) -> (result: Option<&'a http::HeaderValue>)
    requires
        is_header_name(name@),
    ensures
        match result {
            Some(value) => header_contents(*headers).contains_key(name@) && header_bytes(*value)
                == header_contents(*headers)[name@].first(),
            None => !header_contents(*headers).contains_key(name@),
        },
{
    headers.get(name)
}

/// Calls `http::HeaderValue::to_str`. The contract says that a text comes back
/// exactly where the bytes are visible ASCII, blanks or tabs, and that it has
/// those bytes.
#[verifier::external_body]
fn value_text(value: &http::HeaderValue) -> (result: Option<&str>)
    ensures
        match result {
            Some(text) => is_visible_ascii(header_bytes(*value)) && text@ == decode_utf8(
                header_bytes(*value),
            ),
            None => !is_visible_ascii(header_bytes(*value)),
        },
{
    value.to_str().ok()
}

/// The headers after `name` was given `text`; a text that a header value cannot
/// hold is left out.
pub open spec fn with_header(
    contents: Map<Seq<char>, Seq<Seq<u8>>>,
    name: Seq<char>,
    text: Seq<char>,
) -> Map<Seq<char>, Seq<Seq<u8>>> {
    if is_header_text(text) {
        contents.insert(name, seq![encode_utf8(text)])
    } else {
        contents
    }
}

/// Gives the header `name` the value `text`, where a header value can hold it.
pub(crate) fn insert_header(
    headers: &mut http::HeaderMap<http::HeaderValue>,
    name: &'static str,
    text: &str,
)
    requires
        is_header_name(name@),
        header_contents(*old(headers)).dom().len() <= MAX_HEADER_NAMES,
    ensures
        header_contents(*final(headers)) == with_header(
            header_contents(*old(headers)),
            name@,
            text@,
        ),
{
    match header_value(text) {
        Some(value) => insert_value(headers, name, value),
        None => {},
    }
}

/// The label that a subagent's requests carry.
pub open spec fn subagent_label(source: Option<SessionSource>) -> Option<Seq<char>> {
    match source {
        Some(SessionSource::SubAgent(SubAgentSource::Review)) => Some("review"@),
        Some(SessionSource::SubAgent(SubAgentSource::Other(label))) => Some(label@),
        _ => None,
    }
}

/// The label that a subagent's requests carry.
pub fn subagent_header(source: &Option<SessionSource>) -> (result: Option<String>)
    ensures
        opt_text(result) == subagent_label(*source),
{
    match source {
        Some(SessionSource::SubAgent(SubAgentSource::Review)) => Some("review".to_owned()),
        Some(SessionSource::SubAgent(SubAgentSource::Other(label))) => Some(label.clone()),
        _ => None,
    }
}

/// The headers of a session.
pub open spec fn session_headers(session_id: Option<Seq<char>>) -> Map<Seq<char>, Seq<Seq<u8>>> {
    match session_id {
        Some(id) => with_header(no_headers(), "session-id"@, id),
        None => no_headers(),
    }
}

/// The headers of a session.
pub fn build_session_headers(session_id: Option<String>) -> (result: http::HeaderMap<
    http::HeaderValue,
>)
    ensures
        header_contents(result) == session_headers(opt_text(session_id)),
        header_contents(result).dom().len() <= 1,
{
    let mut headers = new_headers();
    match session_id {
        Some(id) => {
            proof {
                reveal_strlit("session-id");
            }
            insert_header(&mut headers, "session-id", id.as_str());
        },
        None => {},
    }
    headers
}

/// The headers of a chat request.
pub open spec fn request_headers(
    conversation_id: Option<Seq<char>>,
    source: Option<SessionSource>,
) -> Map<Seq<char>, Seq<Seq<u8>>> {
    match subagent_label(source) {
        Some(label) => with_header(session_headers(conversation_id), "x-openai-subagent"@, label),
        None => session_headers(conversation_id),
    }
}

/// The headers of a chat request.
pub fn build_request_headers(
    conversation_id: Option<String>,
    source: &Option<SessionSource>,
) -> (result: http::HeaderMap<http::HeaderValue>)
    ensures
        header_contents(result) == request_headers(opt_text(conversation_id), *source),
        header_contents(result).dom().len() <= 2,
{
    let mut headers = build_session_headers(conversation_id);
    match subagent_header(source) {
        Some(label) => {
            proof {
                reveal_strlit("x-openai-subagent");
            }
            insert_header(&mut headers, "x-openai-subagent", label.as_str());
        },
        None => {},
    }
    headers
}

/// The text of a header as a trace line shows it.
pub open spec fn shown_header(
    contents: Map<Seq<char>, Seq<Seq<u8>>>,
    name: Seq<char>,
) -> Seq<char> {
    if contents.contains_key(name) && is_visible_ascii(contents[name].first()) {
        decode_utf8(contents[name].first())
    } else {
        "<missing>"@
    }
}

/// The first value of the header `name`, and `<missing>` where there is none
/// or it is not readable.
pub fn header_value_for_trace<'a>(
    headers: &'a http::HeaderMap<http::HeaderValue>,
    name: &str,
) -> (result: &'a str)
    requires
        is_header_name(name@),
    ensures
        result@ == shown_header(header_contents(*headers), name@),
{
    match first_value(headers, name) {
        Some(value) => match value_text(value) {
            Some(text) => text,
            None => "<missing>",
        },
        None => "<missing>",
    }
}

} // verus!
