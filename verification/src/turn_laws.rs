//! What holds between a stream and the request that follows it: what the model
//! reasoned in a turn goes back to it.

use vstd::prelude::*;

use crate::history::{
    anchor_of, anchored_reasoning, chat_messages, content_text, history_of, is_message_of,
    last_emitted_role, last_user_index, reasoning_parts_text, reasoning_sent_with,
};
use crate::json::JsonView;
use crate::message::MessageView;
use crate::protocol::{ChatDialect, ItemView, ReasoningView};
use crate::stream::{reasoning_item, DraftView};
use crate::text::trimmed;

verus! {

/// Texts, one after the other.
pub open spec fn joined(texts: Seq<Seq<char>>) -> Seq<char>
    decreases texts.len(),
{
    if texts.len() == 0 {
        Seq::empty()
    } else {
        joined(texts.drop_last()) + texts.last()
    }
}

/// Whether `text` holds `part` in one piece.
pub open spec fn holds(text: Seq<char>, part: Seq<char>) -> bool {
    exists|at: int|
        0 <= at && at + part.len() <= text.len() && #[trigger] text.subrange(
            at,
            at + part.len(),
        ) == part
}

/// Whether a message that calls tools carries reasoning that holds `part`.
pub open spec fn call_holds(messages: Seq<MessageView>, part: Seq<char>) -> bool {
    exists|k: int|
        0 <= k < messages.len() && #[trigger] messages[k] is ToolCalls && (
        messages[k].reasoning() matches Some(text) && holds(text, part))
}

proof fn lemma_parts_join(parts: Seq<Seq<char>>)
    ensures
        reasoning_parts_text(
            parts.map_values(|part: Seq<char>| ReasoningView::ReasoningText(part)),
        ) == joined(parts),
    decreases parts.len(),
{
    if parts.len() > 0 {
        lemma_parts_join(parts.drop_last());
        let views = parts.map_values(|part: Seq<char>| ReasoningView::ReasoningText(part));
        assert(views.drop_last() =~= parts.drop_last().map_values(
            |part: Seq<char>| ReasoningView::ReasoningText(part),
        ));
    }
}

/// Whether `longer` starts with all that `shorter` is.
spec fn extends(longer: Option<Seq<char>>, shorter: Option<Seq<char>>) -> bool {
    match (longer, shorter) {
        (_, None) => true,
        (Some(l), Some(s)) => l.len() >= s.len() && l.take(s.len() as int) == s,
        _ => false,
    }
}

proof fn lemma_extends_further(a: Option<Seq<char>>, b: Option<Seq<char>>, c: Option<Seq<char>>)
    requires
        extends(b, a),
        extends(c, b),
    ensures
        extends(c, a),
{
    if let (Some(s), Some(m), Some(l)) = (a, b, c) {
        assert(l.take(s.len() as int) =~= l.take(m.len() as int).take(s.len() as int));
    }
}

/// The reasoning of a message stays with it, whatever items come after.
proof fn lemma_reasoning_stays(
    instructions: Seq<char>,
    items: Seq<ItemView>,
    n: nat,
    m: nat,
    k: int,
    dialect: ChatDialect,
)
    requires
        n <= m,
        0 <= k < history_of(instructions, items, n, dialect).messages.len(),
    ensures
        k < history_of(instructions, items, m, dialect).messages.len(),
        extends(
            history_of(instructions, items, m, dialect).messages[k].reasoning(),
            history_of(instructions, items, n, dialect).messages[k].reasoning(),
        ),
    decreases m,
{
    let first = history_of(instructions, items, n, dialect).messages[k].reasoning();
    if n == m {
        if let Some(text) = first {
            assert(text.take(text.len() as int) =~= text);
        }
    } else {
        lemma_reasoning_stays(instructions, items, n, (m - 1) as nat, k, dialect);
        let before = history_of(instructions, items, (m - 1) as nat, dialect).messages;
        let after = history_of(instructions, items, m, dialect).messages;
        let old_text = before[k].reasoning();
        let new_text = after[k].reasoning();
        assert(extends(new_text, old_text)) by {
            if let Some(text) = old_text {
                assert(text.take(text.len() as int) =~= text);
                if let Some(longer) = new_text {
                    if longer != text {
                        assert(longer.take(text.len() as int) =~= text);
                    }
                }
            }
        }
        lemma_extends_further(first, old_text, new_text);
    }
}

/// What a model reasoned before it called a tool goes back to it as long as the
/// turn goes on: in the dialect that wants it, the message with the call holds
/// the reasoning item's deltas in one piece.
pub proof fn law_streamed_reasoning_goes_back(
    instructions: Seq<char>,
    items: Seq<ItemView>,
    i: int,
    draft: DraftView,
)
    requires
        0 <= i < items.len() - 1,
        items[i] == reasoning_item(draft),
        trimmed(joined(draft.parts)).len() > 0,
        items[i + 1] is FunctionCall || items[i + 1] is LocalShellCall,
        i > 0 ==> !is_message_of(items[i - 1], "assistant"@),
        i > last_user_index(items),
        last_emitted_role(items) != Some("user"@),
    ensures
        call_holds(
            chat_messages(instructions, items, ChatDialect::ThinkingReasoningContent),
            joined(draft.parts),
        ),
{
    let dialect = ChatDialect::ThinkingReasoningContent;
    let part = joined(draft.parts);
    lemma_parts_join(draft.parts);
    assert(anchored_reasoning(items, i + 1) == Some(part));
    let n = (i + 2) as nat;
    let at_call = history_of(instructions, items, n, dialect).messages;
    let k = at_call.len() - 1;
    let text = at_call[k].reasoning()->0;
    let at = text.len() - part.len();
    assert(text.subrange(at, text.len() as int) =~= part);
    lemma_reasoning_stays(instructions, items, n, items.len(), k, dialect);
    lemma_kind_stays(instructions, items, n, items.len(), k, dialect);
    let messages = chat_messages(instructions, items, dialect);
    let longer = messages[k].reasoning()->0;
    assert(longer.subrange(at, at + part.len()) =~= longer.take(text.len() as int).subrange(
        at,
        at + part.len(),
    ));
    assert(holds(longer, part));
}

/// A message that calls tools goes on to do so.
proof fn lemma_kind_stays(
    instructions: Seq<char>,
    items: Seq<ItemView>,
    n: nat,
    m: nat,
    k: int,
    dialect: ChatDialect,
)
    requires
        n <= m,
        0 <= k < history_of(instructions, items, n, dialect).messages.len(),
        history_of(instructions, items, n, dialect).messages[k] is ToolCalls,
    ensures
        k < history_of(instructions, items, m, dialect).messages.len(),
        history_of(instructions, items, m, dialect).messages[k] is ToolCalls,
    decreases m,
{
    if n < m {
        lemma_kind_stays(instructions, items, n, (m - 1) as nat, k, dialect);
    }
}

/// Whether an assistant message with the given text carries reasoning that holds
/// `part`.
pub open spec fn text_holds(messages: Seq<MessageView>, text: Seq<char>, part: Seq<char>) -> bool {
    exists|k: int|
        0 <= k < messages.len() && (#[trigger] messages[k] matches MessageView::Plain {
            role,
            content,
            reasoning: Some(reasoning),
        } && role == "assistant"@ && content == JsonView::Str(text) && holds(reasoning, part))
}

/// A message that calls no tools stays as it is.
proof fn lemma_plain_message_stays(
    instructions: Seq<char>,
    items: Seq<ItemView>,
    n: nat,
    m: nat,
    k: int,
    dialect: ChatDialect,
)
    requires
        n <= m,
        0 <= k < history_of(instructions, items, n, dialect).messages.len(),
        history_of(instructions, items, n, dialect).messages[k] is Plain,
    ensures
        k < history_of(instructions, items, m, dialect).messages.len(),
        history_of(instructions, items, m, dialect).messages[k] == history_of(
            instructions,
            items,
            n,
            dialect,
        ).messages[k],
    decreases m,
{
    if n < m {
        lemma_plain_message_stays(instructions, items, n, (m - 1) as nat, k, dialect);
    }
}

/// What a model reasoned before or after a message goes back to it as long as
/// the turn goes on, with that message. A message whose text repeats the one
/// before it, or joins open tool calls, takes no reasoning along.
pub proof fn law_streamed_reasoning_goes_back_with_its_message(
    instructions: Seq<char>,
    items: Seq<ItemView>,
    i: int,
    a: int,
    draft: DraftView,
)
    requires
        0 <= i < items.len(),
        0 <= a < items.len(),
        items[i] == reasoning_item(draft),
        trimmed(joined(draft.parts)).len() > 0,
        anchor_of(items, i) == Some(a),
        is_message_of(items[a], "assistant"@),
        i > last_user_index(items),
        last_emitted_role(items) != Some("user"@),
        ({
            let before = history_of(
                instructions,
                items,
                a as nat,
                ChatDialect::ThinkingReasoningContent,
            );
            &&& before.last_assistant_text != Some(content_text(items[a]->Message_content))
            &&& !before.messages.last().is_open_call()
        }),
    ensures
        text_holds(
            chat_messages(instructions, items, ChatDialect::ThinkingReasoningContent),
            content_text(items[a]->Message_content),
            joined(draft.parts),
        ),
{
    let dialect = ChatDialect::ThinkingReasoningContent;
    let part = joined(draft.parts);
    lemma_parts_join(draft.parts);
    assert(reasoning_sent_with(items, i, a) == Some(part));
    let carried = anchored_reasoning(items, a)->0;
    assert(holds(carried, part)) by {
        let other = if i < a {
            reasoning_sent_with(items, a + 1, a)
        } else {
            reasoning_sent_with(items, a - 1, a)
        };
        let at = match other {
            Some(text) => if i < a {
                0
            } else {
                text.len() as int
            },
            None => 0,
        };
        assert(carried.subrange(at, at + part.len()) =~= part);
    }
    let n = (a + 1) as nat;
    let at_message = history_of(instructions, items, n, dialect).messages;
    let k = at_message.len() - 1;
    lemma_plain_message_stays(instructions, items, n, items.len(), k, dialect);
    let messages = chat_messages(instructions, items, dialect);
    assert(messages[k] is Plain);
}

} // verus!
