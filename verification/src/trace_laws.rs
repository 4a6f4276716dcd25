//! What trace lines count and say of a request and of its response.

use vstd::prelude::*;

use crate::headers::shown_header;
use crate::json::{parsed_bytes, printed, printed_bytes, Json, JsonView};
use crate::text::decimal;
use crate::transport::{
    capped, is_system_role, is_user_role, lossy_text, message_chars, messages_of,
    reports, response_headers, role_chars, send_start, shown_body, stats_of_body,
    stats_of_request, text_chars, traced_line, ChatHttpTraceStats, RequestBody, StatsView,
    TransportError,
};

verus! {

/// Text is counted wherever content holds it: each character of a string, each
/// item of a list on top of those before it, and what an object has under `text`.
/// Nothing else counts.
pub proof fn law_all_text_is_counted(
    text: Seq<char>,
    items: Seq<JsonView>,
    item: JsonView,
    fields: Map<Seq<char>, JsonView>,
    other: JsonView,
)
    ensures
        text_chars(JsonView::Str(text)) == text.len(),
        text_chars(JsonView::Array(Seq::empty())) == 0,
        text_chars(JsonView::Array(items.push(item))) == text_chars(JsonView::Array(items))
            + text_chars(item),
        fields.contains_key("text"@) ==> text_chars(JsonView::Object(fields)) == text_chars(
            fields["text"@],
        ),
        !fields.contains_key("text"@) ==> text_chars(JsonView::Object(fields)) == 0,
        other is Null || other is Bool || other is Number ==> text_chars(other) == 0,
{
    reveal_with_fuel(text_chars, 2);
    reveal_with_fuel(crate::transport::total_text_chars, 2);
    assert(items.push(item).drop_last() =~= items);
}

/// A sum of counts, no larger than a count can be.
pub open spec fn plus_chars(count: usize, more: nat) -> usize {
    if count + more <= usize::MAX {
        (count + more) as usize
    } else {
        usize::MAX
    }
}

/// The body with the given messages.
pub open spec fn body_with(
    fields: Map<Seq<char>, JsonView>,
    messages: Seq<JsonView>,
) -> JsonView {
    JsonView::Object(fields.insert("messages"@, JsonView::Array(messages)))
}

/// One message more in a body is one message more in its statistics. Its text
/// counts as the system's where it is said by `system` or `developer`, as the
/// user's where it is said by `user`, and as nobody's elsewhere. A body without
/// messages counts no text.
pub proof fn law_messages_are_counted_one_by_one(
    stats: StatsView,
    fields: Map<Seq<char>, JsonView>,
    messages: Seq<JsonView>,
    message: Map<Seq<char>, JsonView>,
    speaker: Seq<char>,
    content: JsonView,
)
    requires
        message.contains_key("role"@),
        message["role"@] == JsonView::Str(speaker),
        message.contains_key("content"@),
        message["content"@] == content,
    ensures
        ({
            let before = stats_of_body(stats, body_with(fields, messages));
            let after = stats_of_body(
                stats,
                body_with(fields, messages.push(JsonView::Object(message))),
            );
            &&& before.messages_count == messages.len()
            &&& after.messages_count == messages.len() + 1
            &&& after.model == before.model
            &&& after.tools_count == before.tools_count
            &&& after.body_bytes == before.body_bytes
            &&& after.system_chars == (if speaker == "system"@ || speaker == "developer"@ {
                plus_chars(before.system_chars, text_chars(content))
            } else {
                before.system_chars
            })
            &&& after.user_chars == (if speaker == "user"@ {
                plus_chars(before.user_chars, text_chars(content))
            } else {
                before.user_chars
            })
        }),
        ({
            let none = stats_of_body(stats, body_with(fields, Seq::empty()));
            &&& none.messages_count == 0
            &&& none.system_chars == stats.system_chars
            &&& none.user_chars == stats.user_chars
        }),
{
    lemma_body_keys();
    let by_system = |role: Option<Seq<char>>| is_system_role(role);
    let by_user = |role: Option<Seq<char>>| is_user_role(role);
    let shorter = body_with(fields, messages);
    let longer = body_with(fields, messages.push(JsonView::Object(message)));
    let none = body_with(fields, Seq::empty());
    assert(messages_of(shorter) == messages);
    assert(messages_of(longer) == messages.push(JsonView::Object(message)));
    assert(messages_of(none) == Seq::<JsonView>::empty());
    assert(messages.push(JsonView::Object(message)).drop_last() =~= messages);
    assert(shorter.field("model"@) == longer.field("model"@));
    assert(shorter.field("tools"@) == longer.field("tools"@));
    assert(message_chars(JsonView::Object(message)) == text_chars(content));
    assert(JsonView::Object(message).text_field("role"@) == Some(speaker));
    assert(role_chars(Seq::empty(), by_system) == 0);
    assert(role_chars(Seq::empty(), by_user) == 0);
}

proof fn lemma_body_keys()
    ensures
        "messages"@ != "model"@,
        "messages"@ != "tools"@,
        "model"@ != "tools"@,
{
    reveal_strlit("messages");
    reveal_strlit("model");
    reveal_strlit("tools");
    assert("messages"@.len() == 8);
    assert("model"@.len() == 5 && "model"@[0] == 'm');
    assert("tools"@.len() == 5 && "tools"@[0] == 't');
}

/// A message without a role, or with a role that is no string, or without
/// content, adds no text.
pub proof fn law_silent_messages_add_no_text(
    stats: StatsView,
    fields: Map<Seq<char>, JsonView>,
    messages: Seq<JsonView>,
    message: JsonView,
)
    requires
        message matches JsonView::Object(bound) ==> !bound.contains_key("content"@)
            || !bound.contains_key("role"@) || !(bound["role"@] is Str),
    ensures
        ({
            let before = stats_of_body(stats, body_with(fields, messages));
            let after = stats_of_body(stats, body_with(fields, messages.push(message)));
            &&& after.messages_count == before.messages_count + 1
            &&& after.system_chars == before.system_chars
            &&& after.user_chars == before.user_chars
        }),
{
    lemma_body_keys();
    let shorter = body_with(fields, messages);
    let longer = body_with(fields, messages.push(message));
    assert(messages_of(shorter) == messages);
    assert(messages_of(longer) == messages.push(message));
    assert(messages.push(message).drop_last() =~= messages);
    assert(shorter.field("model"@) == longer.field("model"@));
}

/// The statistics of a body name its model, or say that it is missing, and count
/// its tools; without a list of messages the count of messages stays and no text
/// is added.
pub proof fn law_bodies_are_counted(
    stats: StatsView,
    fields: Map<Seq<char>, JsonView>,
    model: Seq<char>,
    tools: Seq<JsonView>,
)
    ensures
        ({
            let after = stats_of_body(stats, JsonView::Object(fields));
            &&& after.body_bytes == stats.body_bytes
            &&& fields.contains_key("model"@) && fields["model"@] == JsonView::Str(model)
                ==> after.model == model
            &&& !(fields.contains_key("model"@) && fields["model"@] is Str) ==> after.model
                == "<missing>"@
            &&& fields.contains_key("tools"@) && fields["tools"@] == JsonView::Array(tools)
                ==> after.tools_count == tools.len()
            &&& !(fields.contains_key("tools"@) && fields["tools"@] is Array) ==> after.tools_count
                == 0
            &&& !(fields.contains_key("messages"@) && fields["messages"@] is Array) ==> {
                &&& after.messages_count == stats.messages_count
                &&& after.system_chars == stats.system_chars
                &&& after.user_chars == stats.user_chars
            }
        }),
{
    let by_system = |role: Option<Seq<char>>| is_system_role(role);
    let by_user = |role: Option<Seq<char>>| is_user_role(role);
    assert(role_chars(Seq::empty(), by_system) == 0);
    assert(role_chars(Seq::empty(), by_user) == 0);
}

/// A request is counted by its bytes and by what its JSON says. Bytes that are no
/// JSON are only measured, and a raw body is marked as such.
pub proof fn law_requests_are_counted(json: Json, value: JsonView, bytes: Vec<u8>)
    ensures
        ({
            let nothing = StatsView {
                model: "<missing>"@,
                body_bytes: 0,
                messages_count: 0,
                tools_count: 0,
                system_chars: 0,
                user_chars: 0,
            };
            let measured = StatsView { body_bytes: bytes@.len(), ..nothing };
            &&& stats_of_request(None) == nothing
            &&& stats_of_request(Some(RequestBody::Raw(bytes))) == (StatsView {
                model: "<raw>"@,
                ..measured
            })
            &&& parsed_bytes(bytes@) is None ==> stats_of_request(
                Some(RequestBody::EncodedJson(bytes)),
            ) == measured
            &&& parsed_bytes(bytes@) == Some(value) ==> stats_of_request(
                Some(RequestBody::EncodedJson(bytes)),
            ) == stats_of_body(measured, value)
            &&& stats_of_request(Some(RequestBody::Json(json))) == stats_of_body(
                StatsView { body_bytes: printed_bytes(json@).len(), ..nothing },
                json@,
            )
        }),
{
}

/// A trace line shows a body as its JSON reads, written out or not, and of a raw
/// one only how long it is.
pub proof fn law_bodies_are_shown(json: Json, bytes: Vec<u8>)
    ensures
        shown_body(None).len() == 0,
        shown_body(Some(RequestBody::Json(json))) == printed(json@),
        shown_body(Some(RequestBody::EncodedJson(bytes))) == lossy_text(bytes@),
        shown_body(Some(RequestBody::Raw(bytes))) == "<raw body: "@ + decimal(bytes@.len())
            + " bytes>"@,
{
}

/// What the lines of a trace say, part by part, and that each is written exactly
/// where there is a trace.
pub proof fn law_lines_say_what_happens(
    method: Seq<char>,
    url: Seq<char>,
    stats: ChatHttpTraceStats,
    status: u16,
    headers: Map<Seq<char>, Seq<Seq<u8>>>,
    line: Seq<char>,
)
    ensures
        send_start(method, url, stats@) == "[chat-http-trace] send start method="@ + method
            + " url="@ + url + " model="@ + stats.model@ + " body_bytes="@ + decimal(
            stats.body_bytes as nat,
        ) + " messages_count="@ + decimal(stats.messages_count as nat) + " tools_count="@ + decimal(
            stats.tools_count as nat,
        ) + " system_chars="@ + decimal(stats.system_chars as nat) + " user_chars="@ + decimal(
            stats.user_chars as nat,
        ),
        response_headers(status, url, headers) == "[chat-http-trace] response headers status="@
            + decimal(status as nat) + " url="@ + url + " content_type="@ + shown_header(
            headers,
            "content-type"@,
        ) + " content_length="@ + shown_header(headers, "content-length"@) + " transfer_encoding="@
            + shown_header(headers, "transfer-encoding"@),
        traced_line(true, line) == Some(line),
        traced_line(false, line) is None,
{
}

/// A failure is a timeout exactly where it is said to be one, and otherwise a
/// failure of the network with its own message. A count that fits is itself, and
/// one that does not is the largest that fits.
pub proof fn law_failures_and_counts_are_reported(
    error: TransportError,
    message: Seq<char>,
    n: nat,
)
    ensures
        reports(error, true, message) <==> error is Timeout,
        reports(error, false, message) <==> error is Network && error->Network_0@ == message,
        n <= usize::MAX ==> capped(n) == n,
        n > usize::MAX ==> capped(n) == usize::MAX,
{
}

} // verus!
