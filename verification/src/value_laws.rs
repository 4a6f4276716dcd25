//! What holds of texts, JSON values, token usage and headers, whatever reads
//! them.

use vstd::prelude::*;
use vstd::utf8::encode_utf8;

use crate::headers::{is_header_text, request_headers, shown_header, with_header};
use crate::json::{fields_view, items_view, Json, JsonNumber, JsonView, NumberView};
use crate::protocol::{SessionSource, SubAgentSource};
use crate::text::{decimal, is_white_space, trimmed, trimmed_back, trimmed_front};
use crate::usage::reported_usage;

verus! {

/// The number that decimal digits stand for.
pub open spec fn number_of(digits: Seq<char>) -> int
    decreases digits.len(),
{
    if digits.len() == 0 {
        0
    } else {
        10 * number_of(digits.drop_last()) + (digits.last() as int - '0' as int)
    }
}

/// A numeral is made of digits, stands for its number, and has no zero in front
/// unless it is zero.
pub proof fn law_numerals_stand_for_their_number(n: nat)
    ensures
        number_of(decimal(n)) == n,
        decimal(n).len() > 0,
        forall|i: int| 0 <= i < decimal(n).len() ==> '0' <= #[trigger] decimal(n)[i] <= '9',
        n > 0 ==> decimal(n)[0] != '0',
    decreases n,
{
    reveal_with_fuel(number_of, 2);
    if n < 10 {
        assert(decimal(n).drop_last() =~= Seq::empty());
    } else {
        law_numerals_stand_for_their_number(n / 10);
        assert(decimal(n).drop_last() =~= decimal(n / 10));
    }
}

/// White space is the tab and the line breaks up to the carriage return, the
/// blank, and the spaces and separators beyond ASCII: 25 characters in all.
pub proof fn law_white_space_is_listed(c: char)
    ensures
        is_white_space(c) <==> {
            let n = c as int;
            ||| 9 <= n <= 13
            ||| n == 32
            ||| n == 133
            ||| n == 160
            ||| n == 5760
            ||| 8192 <= n <= 8202
            ||| n == 8232 || n == 8233
            ||| n == 8239
            ||| n == 8287
            ||| n == 12288
        },
{
}

proof fn lemma_trimmed_front(s: Seq<char>)
    ensures
        ({
            let rest = trimmed_front(s);
            let cut = s.len() - rest.len();
            &&& 0 <= cut
            &&& rest == s.skip(cut)
            &&& forall|i: int| 0 <= i < cut ==> is_white_space(#[trigger] s[i])
            &&& rest.len() > 0 ==> !is_white_space(rest[0])
        }),
    decreases s.len(),
{
    if s.len() > 0 && is_white_space(s.first()) {
        lemma_trimmed_front(s.drop_first());
        let rest = trimmed_front(s);
        let cut = s.len() - rest.len();
        assert(s.drop_first().skip(cut - 1) =~= s.skip(cut));
        assert forall|i: int| 0 <= i < cut implies is_white_space(#[trigger] s[i]) by {
            if i > 0 {
                assert(is_white_space(s.drop_first()[i - 1]));
            }
        }
    } else {
        assert(s.skip(0) =~= s);
    }
}

proof fn lemma_trimmed_back(s: Seq<char>)
    ensures
        ({
            let rest = trimmed_back(s);
            &&& rest.len() <= s.len()
            &&& rest == s.take(rest.len() as int)
            &&& forall|i: int| rest.len() <= i < s.len() ==> is_white_space(#[trigger] s[i])
            &&& rest.len() > 0 ==> !is_white_space(rest.last())
        }),
    decreases s.len(),
{
    if s.len() > 0 && is_white_space(s.last()) {
        lemma_trimmed_back(s.drop_last());
        let rest = trimmed_back(s);
        assert(s.drop_last().take(rest.len() as int) =~= s.take(rest.len() as int));
        assert forall|i: int| rest.len() <= i < s.len() implies is_white_space(#[trigger] s[i]) by {
            if i < s.len() - 1 {
                assert(is_white_space(s.drop_last()[i]));
            }
        }
    } else {
        assert(s.take(s.len() as int) =~= s);
    }
}

/// Trimming takes white space away at both ends and nothing else: what is left
/// stands in the text in one piece, has no white space at its ends, and all
/// around it is white space. Nothing is left of blank texts alone.
pub proof fn law_trimming_takes_white_space_only(s: Seq<char>)
    ensures
        exists|from: int|
            {
                &&& 0 <= from <= s.len() - trimmed(s).len()
                &&& trimmed(s) == #[trigger] s.subrange(from, from + trimmed(s).len())
                &&& forall|i: int| 0 <= i < from ==> is_white_space(#[trigger] s[i])
                &&& forall|i: int|
                    from + trimmed(s).len() <= i < s.len() ==> is_white_space(#[trigger] s[i])
            },
        trimmed(s).len() > 0 ==> !is_white_space(trimmed(s)[0]) && !is_white_space(
            trimmed(s).last(),
        ),
        trimmed(s).len() == 0 <==> forall|i: int| 0 <= i < s.len() ==> is_white_space(
            #[trigger] s[i],
        ),
{
    lemma_trimmed_front(s);
    let front = trimmed_front(s);
    let from = s.len() - front.len();
    lemma_trimmed_back(front);
    let rest = trimmed(s);
    assert(rest =~= s.subrange(from, from + rest.len()));
    assert forall|i: int| from + rest.len() <= i < s.len() implies is_white_space(
        #[trigger] s[i],
    ) by {
        assert(is_white_space(front[i - from]));
    }
    if rest.len() > 0 {
        assert(rest[0] == front[0]);
        assert(s[from] == rest[0]);
    } else {
        assert forall|i: int| 0 <= i < s.len() implies is_white_space(#[trigger] s[i]) by {}
    }
}

/// An object gives what it binds a key to, and nothing for a key that it does not
/// bind; nothing else has fields.
pub proof fn law_objects_give_what_they_bind(
    fields: Map<Seq<char>, JsonView>,
    value: JsonView,
    key: Seq<char>,
)
    ensures
        fields.contains_key(key) ==> JsonView::Object(fields).field(key) == Some(fields[key]),
        !fields.contains_key(key) ==> JsonView::Object(fields).field(key) is None,
        !(value is Object) ==> value.field(key) is None,
        JsonView::Object(fields).fields() == Some(fields),
        !(value is Object) ==> value.fields() is None,
{
}

/// A field is read as a text, a list or an integer exactly where it is one, and
/// as it stands.
pub proof fn law_fields_are_read_as_they_stand(
    fields: Map<Seq<char>, JsonView>,
    key: Seq<char>,
    s: Seq<char>,
    items: Seq<JsonView>,
    n: int,
    low: int,
    high: int,
)
    ensures
        fields.contains_key(key) && fields[key] == JsonView::Str(s) <==> JsonView::Object(
            fields,
        ).text_field(key) == Some(s),
        fields.contains_key(key) && fields[key] == JsonView::Array(items) <==> JsonView::Object(
            fields,
        ).items_field(key) == Some(items),
        fields.contains_key(key) && fields[key] == JsonView::Number(NumberView::Int(n)) && low <= n
            <= high <==> JsonView::Object(fields).integer_field(key, low, high) == Some(n),
{
}

/// Values are seen as they are held.
pub proof fn law_values_are_seen_as_held(
    b: bool,
    n: u64,
    m: i64,
    s: String,
    items: Vec<Json>,
    fields: Vec<(String, Json)>,
)
    ensures
        Json::Null@ == JsonView::Null,
        Json::Bool(b)@ == JsonView::Bool(b),
        Json::Number(JsonNumber::Unsigned(n))@ == JsonView::Number(NumberView::Int(n as int)),
        Json::Number(JsonNumber::Signed(m))@ == JsonView::Number(NumberView::Int(m as int)),
        Json::Str(s)@ == JsonView::Str(s@),
        Json::Array(items)@ matches JsonView::Array(views) && views.len() == items.len() && forall|
            i: int,
        |
            0 <= i < items.len() ==> views[i] == #[trigger] items@[i]@,
        Json::Object(fields)@ == JsonView::Object(fields_view(fields@)),
{
    crate::json::lemma_items_view(items@);
    assert(Json::Array(items)@ == JsonView::Array(items_view(items@)));
    assert forall|i: int| 0 <= i < items.len() implies items_view(items@)[i] == #[trigger] items@[i]@ by {
        assert(items_view(items@)[i] == items@[i]@);
    }
}

/// Of the bindings of a key the last one counts, and each binding leaves the
/// other keys alone.
pub proof fn law_last_bindings_count(
    fields: Seq<(String, Json)>,
    binding: (String, Json),
    key: Seq<char>,
)
    ensures
        fields_view(Seq::<(String, Json)>::empty()) == Map::<Seq<char>, JsonView>::empty(),
        fields_view(fields.push(binding)).contains_key(binding.0@),
        fields_view(fields.push(binding))[binding.0@] == binding.1@,
        key != binding.0@ ==> fields_view(fields.push(binding)).contains_key(key)
            == fields_view(fields).contains_key(key),
        key != binding.0@ && fields_view(fields).contains_key(key) ==> fields_view(
            fields.push(binding),
        )[key] == fields_view(fields)[key],
{
    assert(fields.push(binding).drop_last() =~= fields);
}

/// Whether `count` is what the fields count under `key`.
pub open spec fn count_at(fields: Map<Seq<char>, JsonView>, key: Seq<char>, count: i64) -> bool {
    if fields.contains_key(key) {
        match fields[key] {
            JsonView::Number(NumberView::Int(n)) => if i64::MIN <= n <= i64::MAX {
                count == n
            } else {
                count == 0
            },
            _ => count == 0,
        }
    } else {
        count == 0
    }
}

/// Whether `count` is what the object under `details` counts under `key`.
pub open spec fn detail_at(
    fields: Map<Seq<char>, JsonView>,
    details: Seq<char>,
    key: Seq<char>,
    count: i64,
) -> bool {
    if fields.contains_key(details) {
        match fields[details] {
            JsonView::Object(inner) => count_at(inner, key, count),
            _ => count == 0,
        }
    } else {
        count == 0
    }
}

/// Reported usage has each of its counts from the field that the protocol has it
/// in, zero where that is no count; there is none where the total, the prompt's
/// and the completion's count are all zero.
pub proof fn law_usage_counts_come_from_their_fields(
    fields: Map<Seq<char>, JsonView>,
    value: JsonView,
)
    ensures
        match reported_usage(Some(JsonView::Object(fields))) {
            Some(usage) => {
                &&& count_at(fields, "prompt_tokens"@, usage.input_tokens)
                &&& count_at(fields, "completion_tokens"@, usage.output_tokens)
                &&& count_at(fields, "total_tokens"@, usage.total_tokens)
                &&& detail_at(
                    fields,
                    "prompt_tokens_details"@,
                    "cached_tokens"@,
                    usage.cached_input_tokens,
                )
                &&& detail_at(
                    fields,
                    "completion_tokens_details"@,
                    "reasoning_tokens"@,
                    usage.reasoning_output_tokens,
                )
                &&& usage.input_tokens != 0 || usage.output_tokens != 0 || usage.total_tokens != 0
            },
            None => {
                &&& count_at(fields, "prompt_tokens"@, 0)
                &&& count_at(fields, "completion_tokens"@, 0)
                &&& count_at(fields, "total_tokens"@, 0)
            },
        },
        reported_usage(None) is None,
        !(value is Object) ==> reported_usage(Some(value)) is None,
{
}

/// A request has the conversation's id as its session, and a subagent's label,
/// each where there is one that a header can hold, and no other header.
pub proof fn law_request_headers_name_session_and_subagent(
    conversation_id: Option<Seq<char>>,
    label: Option<String>,
    name: Seq<char>,
)
    ensures
        ({
            let other = request_headers(
                conversation_id,
                match label {
                    Some(text) => Some(SessionSource::SubAgent(SubAgentSource::Other(text))),
                    None => None,
                },
            );
            let review = request_headers(
                conversation_id,
                Some(SessionSource::SubAgent(SubAgentSource::Review)),
            );
            let exec = request_headers(conversation_id, Some(SessionSource::Exec));
            &&& other.contains_key(name) ==> name == "session-id"@ || name
                == "x-openai-subagent"@
            &&& review.contains_key(name) ==> name == "session-id"@ || name
                == "x-openai-subagent"@
            &&& exec.contains_key(name) ==> name == "session-id"@
            &&& match conversation_id {
                Some(id) => if is_header_text(id) {
                    &&& other.contains_key("session-id"@) && other["session-id"@] == seq![
                        encode_utf8(id),
                    ]
                    &&& review.contains_key("session-id"@) && review["session-id"@] == seq![
                        encode_utf8(id),
                    ]
                    &&& exec.contains_key("session-id"@) && exec["session-id"@] == seq![
                        encode_utf8(id),
                    ]
                } else {
                    !other.contains_key("session-id"@) && !exec.contains_key("session-id"@)
                },
                None => !other.contains_key("session-id"@) && !exec.contains_key("session-id"@),
            }
            &&& review.contains_key("x-openai-subagent"@) && review["x-openai-subagent"@] == seq![
                encode_utf8("review"@),
            ]
            &&& match label {
                Some(text) => if is_header_text(text@) {
                    other.contains_key("x-openai-subagent"@) && other["x-openai-subagent"@]
                        == seq![encode_utf8(text@)]
                } else {
                    !other.contains_key("x-openai-subagent"@)
                },
                None => !other.contains_key("x-openai-subagent"@),
            }
        }),
{
    reveal_strlit("session-id");
    reveal_strlit("x-openai-subagent");
    reveal_strlit("review");
    assert("session-id"@.len() == 10);
    assert("x-openai-subagent"@.len() == 17);
    assert(is_header_text("review"@));
}

/// A header that a request gets replaces what the name had and leaves the other
/// names alone; a text that no header can hold changes nothing.
pub proof fn law_headers_are_set_one_by_one(
    contents: Map<Seq<char>, Seq<Seq<u8>>>,
    name: Seq<char>,
    text: Seq<char>,
    other: Seq<char>,
)
    ensures
        ({
            let after = with_header(contents, name, text);
            &&& (forall|i: int|
                0 <= i < text.len() ==> (' ' <= #[trigger] text[i] && text[i] != '\u{7f}')
                    || text[i] == '\t') ==> after.contains_key(name) && after[name] == seq![
                encode_utf8(text),
            ]
            &&& (exists|i: int|
                0 <= i < text.len() && !((' ' <= #[trigger] text[i] && text[i] != '\u{7f}')
                    || text[i] == '\t')) ==> after == contents
            &&& other != name ==> after.contains_key(other) == contents.contains_key(other)
            &&& other != name && contents.contains_key(other) ==> after[other] == contents[other]
        }),
{
}

/// A trace shows the first value of a header that is plain ASCII, and that it is
/// missing otherwise.
pub proof fn law_traces_show_plain_headers(
    contents: Map<Seq<char>, Seq<Seq<u8>>>,
    name: Seq<char>,
)
    ensures
        !contents.contains_key(name) ==> shown_header(contents, name) == "<missing>"@,
        contents.contains_key(name) && (exists|i: int|
            0 <= i < contents[name][0].len() && !(32 <= #[trigger] contents[name][0][i] < 127
                || contents[name][0][i] == 9)) ==> shown_header(contents, name) == "<missing>"@,
        contents.contains_key(name) && (forall|i: int|
            0 <= i < contents[name][0].len() ==> 32 <= #[trigger] contents[name][0][i] < 127
                || contents[name][0][i] == 9) ==> shown_header(contents, name)
            == vstd::utf8::decode_utf8(contents[name][0]),
{
    if contents.contains_key(name) {
        assert(contents[name].first() == contents[name][0]);
    }
}

} // verus!
