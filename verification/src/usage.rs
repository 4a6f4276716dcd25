//! Token usage as a chat stream reports it.

use vstd::prelude::*;

use crate::json::{Json, JsonView};
use crate::protocol::TokenUsage;

verus! {

/// The count bound to `key`: an integer that an `i64` holds, else zero.
pub open spec fn token_count(usage: JsonView, key: Seq<char>) -> i64 {
    match usage.integer_field(key, i64::MIN as int, i64::MAX as int) {
        Some(n) => n as i64,
        None => 0,
    }
}

/// The count bound to `key` in the object bound to `details`, else zero.
pub open spec fn detail_count(usage: JsonView, details: Seq<char>, key: Seq<char>) -> i64 {
    match usage.field(details) {
        Some(value) => token_count(value, key),
        None => 0,
    }
}

/// The usage that the `usage` field of a chunk reports: nothing where it is
/// missing, is no object, or has no count of its own that differs from zero.
pub open spec fn reported_usage(value: Option<JsonView>) -> Option<TokenUsage> {
    match value {
        Some(JsonView::Object(fields)) => {
            let usage = JsonView::Object(fields);
            let total_tokens = token_count(usage, "total_tokens"@);
            let input_tokens = token_count(usage, "prompt_tokens"@);
            let output_tokens = token_count(usage, "completion_tokens"@);
            if total_tokens == 0 && input_tokens == 0 && output_tokens == 0 {
                None
            } else {
                Some(
                    TokenUsage {
                        input_tokens,
                        cached_input_tokens: detail_count(
                            usage,
                            "prompt_tokens_details"@,
                            "cached_tokens"@,
                        ),
                        output_tokens,
                        reasoning_output_tokens: detail_count(
                            usage,
                            "completion_tokens_details"@,
                            "reasoning_tokens"@,
                        ),
                        total_tokens,
                    },
                )
            }
        },
        _ => None,
    }
}

fn read_count(usage: &Json, key: &str) -> (result: i64)
    ensures
        result == token_count(usage@, key@),
{
    match usage.get_i64(key) {
        Some(n) => n,
        None => 0,
    }
}

fn read_detail(usage: &Json, details: &str, key: &str) -> (result: i64)
    ensures
        result == detail_count(usage@, details@, key@),
{
    match usage.get(details) {
        Some(value) => read_count(value, key),
        None => 0,
    }
}

/// Reads the `usage` field of a chunk.
pub fn parse_chat_usage(value: Option<&Json>) -> (result: Option<TokenUsage>)
    ensures
        result == reported_usage(crate::json::value_view(value)),
{
    let usage = match value {
        Some(usage) => usage,
        None => {
            return None;
        },
    };
    if usage.as_object().is_none() {
        return None;
    }
    let total_tokens: i64 = read_count(usage, "total_tokens");
    let input_tokens: i64 = read_count(usage, "prompt_tokens");
    let output_tokens: i64 = read_count(usage, "completion_tokens");
    if total_tokens == 0 && input_tokens == 0 && output_tokens == 0 {
        return None;
    }
    let cached_input_tokens: i64 = read_detail(usage, "prompt_tokens_details", "cached_tokens");
    let reasoning_output_tokens: i64 = read_detail(
        usage,
        "completion_tokens_details",
        "reasoning_tokens",
    );
    Some(
        TokenUsage {
            input_tokens,
            cached_input_tokens,
            output_tokens,
            reasoning_output_tokens,
            total_tokens,
        },
    )
}

} // verus!
