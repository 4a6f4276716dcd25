//! Decoding of a chat stream: from the events that the server sends to the
//! events of a response.

use vstd::prelude::*;

use crate::json::{
    items_view, lemma_items_view, parse_json, parsed_text, Json, JsonView,
};
use crate::protocol::{
    conversation, event_view, events_view, ApiError, ChatDialect, ContentItem, ContentView,
    EventView, ItemView, ReasoningItemContent, ReasoningView, ResponseEvent, ResponseItem,
    TokenUsage,
};
use crate::text::{same_text, trim_text, trimmed};
use crate::tool_calls::{finished_calls, no_calls, CallsView, ToolCalls};
use crate::usage::{parse_chat_usage, reported_usage};

verus! {

/// The lower-case hexadecimal digits.
pub open spec fn is_hex_digit(c: char) -> bool {
    '0' <= c <= '9' || 'a' <= c <= 'f'
}

/// The text form of a random UUID: 36 lower-case hexadecimal digits and
/// hyphens, with the version and the variant in their places.
pub open spec fn is_item_id(id: Seq<char>) -> bool {
    &&& id.len() == 36
    &&& forall|i: int|
        0 <= i < 36 ==> if i == 8 || i == 13 || i == 18 || i == 23 {
            #[trigger] id[i] == '-'
        } else {
            is_hex_digit(id[i])
        }
    &&& id[14] == '4'
    &&& id[19] == '8' || id[19] == '9' || id[19] == 'a' || id[19] == 'b'
}

/// Calls `uuid::Uuid::new_v4` and renders the result by its `to_string`. The
/// contract states the form of the text alone: which one it is is chance.
#[verifier::external_body]
fn new_item_id() -> (result: String)
    ensures
        is_item_id(result@),
{
    uuid::Uuid::new_v4().to_string()
}

/// The ids that a choice gives to the items that it starts.
pub struct ItemIds {
    pub reasoning: Seq<char>,
    pub assistant: Seq<char>,
}

/// Whether `id` is the given one or, where none is given, one newly drawn.
pub open spec fn given_or_drawn(given: Option<Seq<char>>, id: Seq<char>) -> bool {
    match given {
        Some(text) => id == text,
        None => is_item_id(id),
    }
}

/// Whether ids are newly drawn ones.
pub open spec fn all_drawn(ids: Seq<ItemIds>) -> bool {
    forall|i: int|
        0 <= i < ids.len() ==> is_item_id((#[trigger] ids[i]).reasoning) && is_item_id(
            ids[i].assistant,
        )
}

/// An item that is still growing.
#[derive(Debug)]
pub struct Draft {
    pub id: String,
    pub parts: Vec<String>,
}

/// What a growing item is.
#[verifier::ext_equal]
pub struct DraftView {
    pub id: Seq<char>,
    pub parts: Seq<Seq<char>>,
}

impl Draft {
    pub open spec fn view(&self) -> DraftView {
        DraftView { id: self.id@, parts: self.parts@.map_values(|part: String| part@) }
    }
}

/// What an optional growing item is.
pub open spec fn draft_view(draft: Option<Draft>) -> Option<DraftView> {
    match draft {
        Some(draft) => Some(draft@),
        None => None,
    }
}

/// The assistant message that a draft is.
pub open spec fn message_item(draft: DraftView) -> ItemView {
    ItemView::Message {
        id: Some(draft.id),
        role: "assistant"@,
        content: draft.parts.map_values(|part: Seq<char>| ContentView::OutputText(part)),
    }
}

/// The reasoning item that a draft is.
pub open spec fn reasoning_item(draft: DraftView) -> ItemView {
    ItemView::Reasoning {
        id: draft.id,
        summary: Seq::empty(),
        content: Some(draft.parts.map_values(|part: Seq<char>| ReasoningView::ReasoningText(part))),
        encrypted_content: None,
    }
}

/// A draft that holds nothing yet.
pub open spec fn empty_draft(id: Seq<char>) -> DraftView {
    DraftView { id, parts: Seq::empty() }
}

/// A draft with one part more.
pub open spec fn grown(draft: DraftView, part: Seq<char>) -> DraftView {
    DraftView { id: draft.id, parts: draft.parts.push(part) }
}

/// What a poll of the server's event stream comes back with.
#[derive(Debug)]
pub enum SsePoll {
    /// An event with its data.
    Event(String),
    /// The stream broke.
    Failed(String),
    /// The stream is over.
    Ended,
    /// Nothing came in time.
    TimedOut,
}

/// What a poll is.
pub enum PollView {
    Event(Seq<char>),
    Failed(Seq<char>),
    Ended,
    TimedOut,
}

impl SsePoll {
    pub open spec fn view(&self) -> PollView {
        match self {
            SsePoll::Event(data) => PollView::Event(data@),
            SsePoll::Failed(message) => PollView::Failed(message@),
            SsePoll::Ended => PollView::Ended,
            SsePoll::TimedOut => PollView::TimedOut,
        }
    }
}

/// What a decoder is: what it has under way, and the events it has given out.
#[verifier::ext_equal]
pub struct StreamView {
    pub dialect: ChatDialect,
    pub calls: CallsView,
    pub assistant: Option<DraftView>,
    pub reasoning: Option<DraftView>,
    pub usage: Option<TokenUsage>,
    pub out: Seq<EventView>,
    pub ended: bool,
}

/// A decoder before the first event.
pub open spec fn new_stream(dialect: ChatDialect) -> StreamView {
    StreamView {
        dialect,
        calls: no_calls(),
        assistant: None,
        reasoning: None,
        usage: None,
        out: Seq::empty(),
        ended: false,
    }
}

/// The texts that the `content` of a delta holds: a text of its own, or those
/// of its parts that have one.
pub open spec fn content_texts(content: JsonView) -> Seq<Seq<char>> {
    match content {
        JsonView::Str(text) => seq![text],
        JsonView::Array(items) => part_texts(items),
        _ => Seq::empty(),
    }
}

/// The texts of content parts, in order.
pub open spec fn part_texts(items: Seq<JsonView>) -> Seq<Seq<char>>
    decreases items.len(),
{
    if items.len() == 0 {
        Seq::empty()
    } else {
        let texts = part_texts(items.drop_last());
        match items.last().text_field("text"@) {
            Some(text) => texts.push(text),
            None => texts,
        }
    }
}

/// The reasoning that a delta or a message holds, in dialects that have it.
pub open spec fn reasoning_in(dialect: ChatDialect, value: JsonView) -> Option<Seq<char>> {
    match dialect {
        ChatDialect::Strict => None,
        ChatDialect::ThinkingReasoningContent => value.text_field("reasoning_content"@),
    }
}

/// The choices of a frame.
pub open spec fn choices_of(frame: JsonView) -> Seq<JsonView> {
    match frame.items_field("choices"@) {
        Some(choices) => choices,
        None => Seq::empty(),
    }
}

/// The frame that the data of an event holds, where it holds one.
pub open spec fn frame_in(data: Seq<char>) -> Option<JsonView> {
    let text = trimmed(data);
    if text.len() == 0 || is_done(text) {
        None
    } else {
        parsed_text(text)
    }
}

/// The sentinels that end a stream.
pub open spec fn is_done(text: Seq<char>) -> bool {
    text == "[DONE]"@ || text == "DONE"@
}

/// The frame that a poll brought, where it brought one.
pub open spec fn frame_of(poll: PollView) -> Option<JsonView> {
    match poll {
        PollView::Event(data) => frame_in(data),
        _ => None,
    }
}

impl StreamView {
    /// One more event given out.
    pub open spec fn sent(self, event: EventView) -> StreamView {
        StreamView { out: self.out.push(event), ..self }
    }

    /// The last event given out.
    pub open spec fn ended_with(self, event: EventView) -> StreamView {
        StreamView { ended: true, ..self.sent(event) }
    }

    /// A piece of the assistant's text has come. `id` is for the message that
    /// it may start.
    pub open spec fn with_assistant_text(self, text: Seq<char>, id: Seq<char>) -> StreamView {
        let started = match self.assistant {
            Some(_) => self,
            None => StreamView { assistant: Some(empty_draft(id)), ..self }.sent(
                EventView::Added(message_item(empty_draft(id))),
            ),
        };
        StreamView { assistant: Some(grown(started.assistant->0, text)), ..started }.sent(
            EventView::TextDelta(text),
        )
    }

    /// Pieces of the assistant's text have come.
    pub open spec fn with_assistant_texts(self, texts: Seq<Seq<char>>, id: Seq<char>) -> StreamView
        decreases texts.len(),
    {
        if texts.len() == 0 {
            self
        } else {
            self.with_assistant_texts(texts.drop_last(), id).with_assistant_text(texts.last(), id)
        }
    }

    /// A piece of reasoning has come. `id` is for the item that it may start.
    pub open spec fn with_reasoning_text(self, text: Seq<char>, id: Seq<char>) -> StreamView {
        let started = match self.reasoning {
            Some(_) => self,
            None => StreamView { reasoning: Some(empty_draft(id)), ..self }.sent(
                EventView::Added(reasoning_item(empty_draft(id))),
            ),
        };
        let draft = started.reasoning->0;
        StreamView { reasoning: Some(grown(draft, text)), ..started }.sent(
            EventView::ReasoningDelta { delta: text, content_index: draft.parts.len() as i64 },
        )
    }

    /// The reasoning in a delta or a message has come.
    pub open spec fn with_reasoning_in(self, value: JsonView, id: Seq<char>) -> StreamView {
        match reasoning_in(self.dialect, value) {
            Some(text) => self.with_reasoning_text(text, id),
            None => self,
        }
    }

    /// The assistant's text in a delta has come.
    pub open spec fn with_content_in(self, delta: JsonView, id: Seq<char>) -> StreamView {
        match delta.field("content"@) {
            Some(content) => self.with_assistant_texts(content_texts(content), id),
            None => self,
        }
    }

    /// The pieces of tool calls in a delta have come.
    pub open spec fn with_calls_in(self, delta: JsonView) -> StreamView {
        match delta.items_field("tool_calls"@) {
            Some(pieces) => StreamView { calls: self.calls.after_pieces(pieces), ..self },
            None => self,
        }
    }

    /// A delta has come: reasoning first, then text, then tool calls.
    pub open spec fn after_delta(self, delta: JsonView, ids: ItemIds) -> StreamView {
        self.with_reasoning_in(delta, ids.reasoning).with_content_in(
            delta,
            ids.assistant,
        ).with_calls_in(delta)
    }

    /// The reasoning item is given out as done, where one is growing.
    pub open spec fn reasoning_done(self) -> StreamView {
        match self.reasoning {
            Some(draft) => StreamView { reasoning: None, ..self }.sent(
                EventView::Done(reasoning_item(draft)),
            ),
            None => self,
        }
    }

    /// The assistant message is given out as done, where one is growing.
    pub open spec fn assistant_done(self) -> StreamView {
        match self.assistant {
            Some(draft) => StreamView { assistant: None, ..self }.sent(
                EventView::Done(message_item(draft)),
            ),
            None => self,
        }
    }

    /// The pending tool calls are given out as done.
    pub open spec fn calls_done(self) -> StreamView {
        StreamView {
            calls: self.calls.after_finish(),
            out: self.out + done_events(finished_calls(self.calls.pending)),
            ..self
        }
    }

    /// A choice has said why it finishes.
    pub open spec fn after_finish_reason(self, reason: Option<Seq<char>>) -> StreamView {
        if reason == Some("stop"@) {
            self.reasoning_done().assistant_done()
        } else if reason == Some("length"@) {
            self.ended_with(EventView::ContextWindowExceeded)
        } else if reason == Some("tool_calls"@) {
            self.reasoning_done().calls_done()
        } else {
            self
        }
    }

    /// What a choice carries has come, but for its finish reason.
    pub open spec fn with_choice(self, choice: JsonView, ids: ItemIds) -> StreamView {
        let changed = match choice.field("delta"@) {
            Some(delta) => self.after_delta(delta, ids),
            None => self,
        };
        match choice.field("message"@) {
            Some(message) => changed.with_reasoning_in(message, ids.reasoning),
            None => changed,
        }
    }

    /// A choice has come.
    pub open spec fn after_choice(self, choice: JsonView, ids: ItemIds) -> StreamView {
        self.with_choice(choice, ids).after_finish_reason(choice.text_field("finish_reason"@))
    }

    /// The first `n` of a frame's choices have come; those after the end of
    /// the stream change nothing.
    pub open spec fn after_choices(
        self,
        choices: Seq<JsonView>,
        ids: Seq<ItemIds>,
        n: nat,
    ) -> StreamView
        decreases n,
    {
        if n == 0 {
            self
        } else {
            let before = self.after_choices(choices, ids, (n - 1) as nat);
            if before.ended {
                before
            } else {
                before.after_choice(choices[n - 1], ids[n - 1])
            }
        }
    }

    /// The usage that a frame reports is kept.
    pub open spec fn with_usage_in(self, frame: JsonView) -> StreamView {
        match reported_usage(frame.field("usage"@)) {
            Some(usage) => StreamView { usage: Some(usage), ..self },
            None => self,
        }
    }

    /// A frame has come.
    pub open spec fn after_frame(self, frame: JsonView, ids: Seq<ItemIds>) -> StreamView {
        self.with_usage_in(frame).after_choices(choices_of(frame), ids, choices_of(frame).len())
    }

    /// The response is complete: what is growing is given out, then the usage.
    pub open spec fn completed(self) -> StreamView {
        self.reasoning_done().assistant_done().ended_with(
            EventView::Completed { response_id: Seq::empty(), token_usage: self.usage, end_turn: None },
        )
    }

    /// The data of an event has come.
    pub open spec fn after_event(self, data: Seq<char>, ids: Seq<ItemIds>) -> StreamView {
        if is_done(trimmed(data)) {
            self.completed()
        } else {
            match frame_in(data) {
                Some(frame) => self.after_frame(frame, ids),
                None => self,
            }
        }
    }

    /// A poll has come back; after the end of the stream it changes nothing.
    pub open spec fn after_poll(self, poll: PollView, ids: Seq<ItemIds>) -> StreamView {
        if self.ended {
            self
        } else {
            match poll {
                PollView::Event(data) => self.after_event(data, ids),
                PollView::Failed(message) => self.ended_with(EventView::StreamError(message)),
                PollView::Ended => self.completed(),
                PollView::TimedOut => self.ended_with(
                    EventView::StreamError("idle timeout waiting for SSE"@),
                ),
            }
        }
    }

    /// Polls have come back.
    pub open spec fn after_polls(self, polls: Seq<PollView>, ids: Seq<Seq<ItemIds>>) -> StreamView
        decreases polls.len(),
    {
        if polls.len() == 0 {
            self
        } else {
            self.after_polls(polls.drop_last(), ids.drop_last()).after_poll(
                polls.last(),
                ids.last(),
            )
        }
    }
}

/// Items as events that say that they are done.
pub open spec fn done_events(items: Seq<ItemView>) -> Seq<EventView> {
    items.map_values(|item: ItemView| EventView::Done(item))
}

/// What polls are, in order.
pub open spec fn polls_view(polls: Seq<SsePoll>) -> Seq<PollView> {
    polls.map_values(|poll: SsePoll| poll@)
}

/// Whether `ids` holds newly drawn ids for the choices that a poll brings.
pub open spec fn drawn_for(poll: PollView, ids: Seq<ItemIds>) -> bool {
    &&& all_drawn(ids)
    &&& match frame_of(poll) {
        Some(frame) => ids.len() == choices_of(frame).len(),
        None => ids.len() == 0,
    }
}

/// Whether `ids` holds newly drawn ids for the choices that polls bring.
pub open spec fn drawn_for_polls(polls: Seq<PollView>, ids: Seq<Seq<ItemIds>>) -> bool {
    &&& ids.len() == polls.len()
    &&& forall|i: int| 0 <= i < polls.len() ==> drawn_for(polls[i], #[trigger] ids[i])
}

/// Decodes a chat stream.
pub struct ChatStream {
    dialect: ChatDialect,
    calls: ToolCalls,
    assistant: Option<Draft>,
    reasoning: Option<Draft>,
    usage: Option<TokenUsage>,
    outbox: Vec<Result<ResponseEvent, ApiError>>,
    ended: bool,
}

/// Some id that has the form of a drawn one.
spec fn sample_id() -> Seq<char> {
    Seq::new(
        36,
        |i: int|
            if i == 8 || i == 13 || i == 18 || i == 23 {
                '-'
            } else if i == 14 {
                '4'
            } else if i == 19 {
                '8'
            } else {
                '0'
            },
    )
}

/// The given id, or one that has the form of a drawn one.
spec fn some_id(given: Option<Seq<char>>) -> Seq<char> {
    match given {
        Some(id) => id,
        None => sample_id(),
    }
}

proof fn lemma_some_id(given: Option<Seq<char>>)
    ensures
        given_or_drawn(given, some_id(given)),
{
}

proof fn lemma_texts_start_a_message(stream: StreamView, texts: Seq<Seq<char>>, id: Seq<char>)
    ensures
        texts.len() > 0 ==> stream.with_assistant_texts(texts, id).assistant is Some,
        stream.assistant is Some ==> stream.with_assistant_texts(texts, id).assistant is Some,
    decreases texts.len(),
{
    if texts.len() > 0 {
        lemma_texts_start_a_message(stream, texts.drop_last(), id);
    }
}

/// The given id, or a newly drawn one.
fn take_id(given: &Option<String>) -> (result: String)
    ensures
        given_or_drawn(crate::protocol::opt_text(*given), result@),
{
    match given {
        Some(id) => id.clone(),
        None => new_item_id(),
    }
}

fn finished_message(draft: Draft) -> (result: ResponseItem)
    ensures
        result@ == message_item(draft@),
{
    let mut content: Vec<ContentItem> = Vec::new();
    let mut i: usize = 0;
    while i < draft.parts.len()
        invariant
            i <= draft.parts.len(),
            content.len() == i,
            forall|j: int|
                0 <= j < i ==> #[trigger] content[j]@ == ContentView::OutputText(draft.parts[j]@),
        decreases draft.parts.len() - i,
    {
        content.push(ContentItem::OutputText { text: draft.parts[i].clone() });
        i = i + 1;
    }
    let result = ResponseItem::Message {
        id: Some(draft.id.clone()),
        role: "assistant".to_owned(),
        content,
    };
    assert(result@->Message_content =~= message_item(draft@)->Message_content);
    result
}

fn finished_reasoning(draft: Draft) -> (result: ResponseItem)
    ensures
        result@ == reasoning_item(draft@),
{
    let mut content: Vec<ReasoningItemContent> = Vec::new();
    let mut i: usize = 0;
    while i < draft.parts.len()
        invariant
            i <= draft.parts.len(),
            content.len() == i,
            forall|j: int|
                0 <= j < i ==> #[trigger] content[j]@ == ReasoningView::ReasoningText(
                    draft.parts[j]@,
                ),
        decreases draft.parts.len() - i,
    {
        content.push(ReasoningItemContent::ReasoningText { text: draft.parts[i].clone() });
        i = i + 1;
    }
    let result = ResponseItem::Reasoning {
        id: draft.id.clone(),
        summary: Vec::new(),
        content: Some(content),
        encrypted_content: None,
    };
    assert(result@->summary =~= Seq::empty());
    assert(result@->Reasoning_content->0 =~= reasoning_item(draft@)->Reasoning_content->0);
    result
}

impl ChatStream {
    pub closed spec fn view(&self) -> StreamView {
        StreamView {
            dialect: self.dialect,
            calls: self.calls@,
            assistant: draft_view(self.assistant),
            reasoning: draft_view(self.reasoning),
            usage: self.usage,
            out: events_view(self.outbox@),
            ended: self.ended,
        }
    }

    /// A decoder before the first event.
    pub fn new(dialect: ChatDialect) -> (result: Self)
        ensures
            result@ == new_stream(dialect),
    {
        let result = ChatStream {
            dialect,
            calls: ToolCalls::new(),
            assistant: None,
            reasoning: None,
            usage: None,
            outbox: Vec::new(),
            ended: false,
        };
        assert(result@ =~= new_stream(dialect));
        result
    }

    /// Whether the stream is over.
    pub fn has_ended(&self) -> (result: bool)
        ensures
            result == self@.ended,
    {
        self.ended
    }

    /// Hands out the events that have been gathered.
    pub fn take_events(&mut self) -> (result: Vec<Result<ResponseEvent, ApiError>>)
        ensures
            events_view(result@) == old(self)@.out,
            final(self)@ == (StreamView { out: Seq::empty(), ..old(self)@ }),
    {
        let mut events: Vec<Result<ResponseEvent, ApiError>> = Vec::new();
        std::mem::swap(&mut self.outbox, &mut events);
        assert(self@.out =~= Seq::empty());
        events
    }

    fn send(&mut self, event: Result<ResponseEvent, ApiError>)
        ensures
            final(self)@ == old(self)@.sent(event_view(event)),
    {
        let ghost before = self@;
        self.outbox.push(event);
        assert(self@.out =~= before.out.push(event_view(event)));
    }

    /// Takes in a piece of the assistant's text. Where it starts a message, that
    /// gets the given id or, where none is given, a newly drawn one.
    pub fn append_assistant_text(&mut self, text: &str, given: &Option<String>)
        ensures
            exists|id: Seq<char>|
                given_or_drawn(crate::protocol::opt_text(*given), id) && final(self)@
                    == #[trigger] old(self)@.with_assistant_text(text@, id),
    {
        let ghost before = self@;
        let ghost mut id = some_id(crate::protocol::opt_text(*given));
        proof {
            lemma_some_id(crate::protocol::opt_text(*given));
        }
        let mut draft = match self.assistant.take() {
            Some(draft) => draft,
            None => {
                let item_id = take_id(given);
                proof {
                    id = item_id@;
                }
                let added = finished_message(Draft { id: item_id.clone(), parts: Vec::new() });
                assert(added@ == message_item(empty_draft(id))) by {
                    assert(added@->Message_content =~= Seq::empty());
                    assert(message_item(empty_draft(id))->Message_content =~= Seq::empty());
                }
                self.send(Ok(ResponseEvent::OutputItemAdded(added)));
                Draft { id: item_id, parts: Vec::new() }
            },
        };
        let ghost started = draft@;
        draft.parts.push(text.to_owned());
        assert(draft@ =~= grown(started, text@));
        assert(before.assistant is None ==> started =~= empty_draft(id));
        self.assistant = Some(draft);
        self.send(Ok(ResponseEvent::OutputTextDelta(text.to_owned())));
        assert(self@ =~= before.with_assistant_text(text@, id));
    }

    /// Takes in a piece of reasoning. Where it starts an item, that gets the
    /// given id or, where none is given, a newly drawn one.
    pub fn append_reasoning_text(&mut self, text: &str, given: &Option<String>)
        ensures
            exists|id: Seq<char>|
                given_or_drawn(crate::protocol::opt_text(*given), id) && final(self)@
                    == #[trigger] old(self)@.with_reasoning_text(text@, id),
    {
        let ghost before = self@;
        let ghost mut id = some_id(crate::protocol::opt_text(*given));
        proof {
            lemma_some_id(crate::protocol::opt_text(*given));
        }
        let mut draft = match self.reasoning.take() {
            Some(draft) => draft,
            None => {
                let item_id = take_id(given);
                proof {
                    id = item_id@;
                }
                let added = finished_reasoning(Draft { id: item_id.clone(), parts: Vec::new() });
                assert(added@ == reasoning_item(empty_draft(id))) by {
                    assert(added@->Reasoning_content->0 =~= Seq::empty());
                    assert(reasoning_item(empty_draft(id))->Reasoning_content->0 =~= Seq::empty());
                }
                self.send(Ok(ResponseEvent::OutputItemAdded(added)));
                Draft { id: item_id, parts: Vec::new() }
            },
        };
        let ghost started = draft@;
        let content_index: i64 = draft.parts.len() as i64;
        draft.parts.push(text.to_owned());
        assert(draft@ =~= grown(started, text@));
        assert(before.reasoning is None ==> started =~= empty_draft(id));
        self.reasoning = Some(draft);
        self.send(
            Ok(ResponseEvent::ReasoningContentDelta { delta: text.to_owned(), content_index }),
        );
        assert(self@ =~= before.with_reasoning_text(text@, id));
    }

    /// Takes in the reasoning in a delta or a message.
    fn take_reasoning(&mut self, value: &Json, given: &Option<String>)
        ensures
            exists|id: Seq<char>|
                given_or_drawn(crate::protocol::opt_text(*given), id) && final(self)@
                    == #[trigger] old(self)@.with_reasoning_in(value@, id),
    {
        let ghost before = self@;
        let ghost mut id = some_id(crate::protocol::opt_text(*given));
        proof {
            lemma_some_id(crate::protocol::opt_text(*given));
        }
        match self.dialect {
            ChatDialect::Strict => {},
            ChatDialect::ThinkingReasoningContent => {
                if let Some(text) = value.get_str("reasoning_content") {
                    self.append_reasoning_text(text, given);
                    proof {
                        id = choose|id: Seq<char>|
                            given_or_drawn(crate::protocol::opt_text(*given), id) && self@
                                == #[trigger] before.with_reasoning_text(text@, id);
                    }
                }
            },
        }
        assert(self@ == before.with_reasoning_in(value@, id));
    }

    /// Takes in the texts of content parts.
    fn take_parts(&mut self, items: &Vec<Json>, given: &Option<String>)
        ensures
            exists|id: Seq<char>|
                given_or_drawn(crate::protocol::opt_text(*given), id) && final(self)@
                    == #[trigger] old(self)@.with_assistant_texts(
                    part_texts(items_view(items@)),
                    id,
                ),
    {
        let ghost before = self@;
        let ghost views = items_view(items@);
        let ghost mut id = some_id(crate::protocol::opt_text(*given));
        proof {
            lemma_some_id(crate::protocol::opt_text(*given));
            lemma_items_view(items@);
        }
        let mut i: usize = 0;
        assert(views.take(0) =~= Seq::empty());
        while i < items.len()
            invariant
                i <= items.len(),
                views == items_view(items@),
                views.len() == items.len(),
                given_or_drawn(crate::protocol::opt_text(*given), id),
                self@ == before.with_assistant_texts(part_texts(views.take(i as int)), id),
            decreases items.len() - i,
        {
            let ghost texts = part_texts(views.take(i as int));
            let ghost grown_so_far = self@;
            proof {
                lemma_items_view(items@);
                assert(views.take(i + 1).drop_last() =~= views.take(i as int));
                assert(views.take(i + 1).last() == items[i as int]@);
            }
            if let Some(text) = items[i].get_str("text") {
                self.append_assistant_text(text, given);
                proof {
                    let used = choose|used: Seq<char>|
                        given_or_drawn(crate::protocol::opt_text(*given), used) && self@
                            == #[trigger] grown_so_far.with_assistant_text(text@, used);
                    assert(texts.push(text@).drop_last() =~= texts);
                    if texts.len() == 0 && before.assistant is None {
                        id = used;
                        assert(before.with_assistant_texts(texts, used) == before);
                    } else {
                        lemma_texts_start_a_message(before, texts, id);
                    }
                    assert(self@ == before.with_assistant_texts(texts.push(text@), id));
                }
            }
            i = i + 1;
        }
        assert(views.take(i as int) =~= views);
    }

    /// Takes in the assistant's text in a delta.
    fn take_content(&mut self, delta: &Json, given: &Option<String>)
        ensures
            exists|id: Seq<char>|
                given_or_drawn(crate::protocol::opt_text(*given), id) && final(self)@
                    == #[trigger] old(self)@.with_content_in(delta@, id),
    {
        let ghost before = self@;
        let ghost mut id = some_id(crate::protocol::opt_text(*given));
        proof {
            lemma_some_id(crate::protocol::opt_text(*given));
        }
        match delta.get("content") {
            Some(Json::Array(items)) => {
                self.take_parts(items, given);
                proof {
                    id = choose|id: Seq<char>|
                        given_or_drawn(crate::protocol::opt_text(*given), id) && self@
                            == #[trigger] before.with_assistant_texts(
                            part_texts(items_view(items@)),
                            id,
                        );
                }
            },
            Some(Json::Str(text)) => {
                self.append_assistant_text(text.as_str(), given);
                proof {
                    id = choose|id: Seq<char>|
                        given_or_drawn(crate::protocol::opt_text(*given), id) && self@
                            == #[trigger] before.with_assistant_text(text@, id);
                    reveal_with_fuel(StreamView::with_assistant_texts, 2);
                    assert(seq![text@].drop_last() =~= Seq::empty());
                }
            },
            Some(_) => {},
            None => {},
        }
        assert(self@ == before.with_content_in(delta@, id));
    }

    /// Takes in the pieces of tool calls in a delta.
    fn take_calls(&mut self, delta: &Json)
        ensures
            final(self)@ == old(self)@.with_calls_in(delta@),
    {
        if let Some(pieces) = delta.get_array("tool_calls") {
            self.calls.apply_deltas(pieces);
        }
    }

    /// Gives the reasoning item out as done, where one is growing.
    fn flush_reasoning(&mut self)
        ensures
            final(self)@ == old(self)@.reasoning_done(),
    {
        if let Some(draft) = self.reasoning.take() {
            self.send(Ok(ResponseEvent::OutputItemDone(finished_reasoning(draft))));
        }
    }

    /// Gives the assistant message out as done, where one is growing.
    fn flush_assistant(&mut self)
        ensures
            final(self)@ == old(self)@.assistant_done(),
    {
        if let Some(draft) = self.assistant.take() {
            self.send(Ok(ResponseEvent::OutputItemDone(finished_message(draft))));
        }
    }

    /// Gives the pending tool calls out as done.
    fn flush_calls(&mut self)
        ensures
            final(self)@ == old(self)@.calls_done(),
    {
        let ghost before = self@;
        let items = self.calls.finish();
        let ghost views = conversation(items@);
        let ghost finished = self@;
        assert(finished.out =~= finished.out + done_events(views.take(0)));
        for item in iter: items
            invariant
                views == conversation(iter.seq()),
                self@ == (StreamView {
                    out: finished.out + done_events(views.take(iter.index() as int)),
                    ..finished
                }),
        {
            self.send(Ok(ResponseEvent::OutputItemDone(item)));
            assert(done_events(views.take(iter.index() + 1)) =~= done_events(
                views.take(iter.index() as int),
            ).push(EventView::Done(item@)));
            assert(finished.out + done_events(views.take(iter.index() + 1)) =~= (finished.out
                + done_events(views.take(iter.index() as int))).push(EventView::Done(item@)));
        }
        assert(views.take(views.len() as int) =~= views);
        assert(self@ =~= before.calls_done());
    }

    /// Ends the stream with an event.
    fn end_with(&mut self, event: Result<ResponseEvent, ApiError>)
        ensures
            final(self)@ == old(self)@.ended_with(event_view(event)),
    {
        self.send(event);
        self.ended = true;
    }

    /// Gives out what is growing and completes the response.
    fn flush_and_complete(&mut self)
        ensures
            final(self)@ == old(self)@.completed(),
    {
        self.flush_reasoning();
        self.flush_assistant();
        let response_id = String::new();
        assert(response_id@ =~= Seq::empty());
        self.end_with(
            Ok(ResponseEvent::Completed { response_id, token_usage: self.usage, end_turn: None }),
        );
    }

    /// Takes in a choice. The items that it starts get the given ids, or newly
    /// drawn ones where none are given.
    pub fn on_choice(
        &mut self,
        choice: &Json,
        reasoning_id: Option<String>,
        assistant_id: Option<String>,
    )
        ensures
            exists|ids: ItemIds|
                {
                    &&& given_or_drawn(crate::protocol::opt_text(reasoning_id), ids.reasoning)
                    &&& given_or_drawn(crate::protocol::opt_text(assistant_id), ids.assistant)
                    &&& final(self)@ == #[trigger] old(self)@.after_choice(choice@, ids)
                },
    {
        let ghost before = self@;
        let ghost given_reasoning = crate::protocol::opt_text(reasoning_id);
        let ghost given_assistant = crate::protocol::opt_text(assistant_id);
        let ghost mut rid = some_id(given_reasoning);
        let ghost mut aid = some_id(given_assistant);
        proof {
            lemma_some_id(given_reasoning);
            lemma_some_id(given_assistant);
        }
        if let Some(delta) = choice.get("delta") {
            self.take_reasoning(delta, &reasoning_id);
            let ghost reasoned = self@;
            proof {
                rid = choose|id: Seq<char>|
                    given_or_drawn(given_reasoning, id) && self@
                        == #[trigger] before.with_reasoning_in(delta@, id);
            }
            self.take_content(delta, &assistant_id);
            proof {
                aid = choose|id: Seq<char>|
                    given_or_drawn(given_assistant, id) && self@
                        == #[trigger] reasoned.with_content_in(delta@, id);
            }
            self.take_calls(delta);
            assert(self@ == before.after_delta(
                delta@,
                (ItemIds { reasoning: rid, assistant: aid }),
            ));
        }
        if let Some(message) = choice.get("message") {
            let ghost changed = self@;
            self.take_reasoning(message, &reasoning_id);
            proof {
                let used = choose|id: Seq<char>|
                    given_or_drawn(given_reasoning, id) && self@
                        == #[trigger] changed.with_reasoning_in(message@, id);
                lemma_reasoning_id(before, choice@, rid, aid, used);
                if changed.reasoning is None {
                    rid = used;
                }
            }
        }
        let ghost ids = ItemIds { reasoning: rid, assistant: aid };
        assert(self@ == before.with_choice(choice@, ids));
        match choice.get_str("finish_reason") {
            Some(reason) => {
                proof {
                    lemma_finish_reasons();
                }
                if same_text(reason, "stop") {
                    self.flush_reasoning();
                    self.flush_assistant();
                } else if same_text(reason, "length") {
                    self.end_with(Err(ApiError::ContextWindowExceeded));
                } else if same_text(reason, "tool_calls") {
                    self.flush_reasoning();
                    self.flush_calls();
                }
            },
            None => {},
        }
        assert(self@ == before.after_choice(choice@, ids));
    }

    /// Takes in the choices of a frame, up to the end of the stream.
    fn take_choices(&mut self, choices: &Vec<Json>)
        ensures
            exists|ids: Seq<ItemIds>|
                {
                    &&& all_drawn(ids)
                    &&& ids.len() == choices.len()
                    &&& final(self)@ == #[trigger] old(self)@.after_choices(
                        items_view(choices@),
                        ids,
                        choices@.len(),
                    )
                },
    {
        let ghost before = self@;
        let ghost views = items_view(choices@);
        let ghost mut ids = Seq::<ItemIds>::empty();
        let mut i: usize = 0;
        while i < choices.len()
            invariant
                i <= choices.len(),
                views == items_view(choices@),
                all_drawn(ids),
                ids.len() == i,
                self@ == before.after_choices(views, ids, i as nat),
            decreases choices.len() - i,
        {
            let ghost so_far = self@;
            let ghost mut new_ids = ItemIds { reasoning: sample_id(), assistant: sample_id() };
            if !self.ended {
                self.on_choice(&choices[i], None, None);
                proof {
                    new_ids = choose|ids: ItemIds|
                        {
                            &&& given_or_drawn(None, ids.reasoning)
                            &&& given_or_drawn(None, ids.assistant)
                            &&& self@ == #[trigger] so_far.after_choice(choices[i as int]@, ids)
                        };
                }
            }
            proof {
                lemma_items_view(choices@);
                let longer = ids.push(new_ids);
                lemma_choices_use_their_own_ids(before, views, ids, longer, i as nat);
                assert(longer[i as int] == new_ids);
                assert(self@ == before.after_choices(views, longer, (i + 1) as nat));
                assert(all_drawn(longer));
                ids = longer;
            }
            i = i + 1;
        }
    }

    /// Takes in a frame: an event's data, read as JSON.
    pub fn on_frame(&mut self, frame: &Json)
        ensures
            exists|ids: Seq<ItemIds>|
                {
                    &&& all_drawn(ids)
                    &&& ids.len() == choices_of(frame@).len()
                    &&& final(self)@ == #[trigger] old(self)@.after_frame(frame@, ids)
                },
    {
        let ghost before = self@;
        let usage = parse_chat_usage(frame.get("usage"));
        if usage.is_some() {
            self.usage = usage;
        }
        assert(self@ == before.with_usage_in(frame@));
        let ghost counted = self@;
        match frame.get_array("choices") {
            Some(choices) => {
                self.take_choices(choices);
                proof {
                    lemma_items_view(choices@);
                    let ids = choose|ids: Seq<ItemIds>|
                        {
                            &&& all_drawn(ids)
                            &&& ids.len() == choices.len()
                            &&& self@ == #[trigger] counted.after_choices(
                                items_view(choices@),
                                ids,
                                choices@.len(),
                            )
                        };
                    assert(self@ == before.after_frame(frame@, ids));
                }
            },
            None => {
                proof {
                    let ids = Seq::<ItemIds>::empty();
                    assert(self@ == before.after_frame(frame@, ids));
                }
            },
        }
    }

    /// Takes in what a poll of the server's event stream came back with.
    pub fn on_poll(&mut self, poll: &SsePoll)
        ensures
            exists|ids: Seq<ItemIds>|
                drawn_for(poll@, ids) && final(self)@ == #[trigger] old(self)@.after_poll(poll@, ids),
    {
        let ghost before = self@;
        let ghost mut ids = Seq::<ItemIds>::empty();
        proof {
            lemma_some_ids(poll@);
            ids = choose|ids: Seq<ItemIds>| drawn_for(poll@, ids);
        }
        if !self.ended {
            match poll {
                SsePoll::Event(data) => {
                    let text = trim_text(data.as_str());
                    if same_text(text, "[DONE]") || same_text(text, "DONE") {
                        self.flush_and_complete();
                    } else if text.unicode_len() > 0 {
                        if let Some(frame) = parse_json(text) {
                            self.on_frame(&frame);
                            proof {
                                ids = choose|ids: Seq<ItemIds>|
                                    {
                                        &&& all_drawn(ids)
                                        &&& ids.len() == choices_of(frame@).len()
                                        &&& self@ == #[trigger] before.after_frame(frame@, ids)
                                    };
                            }
                        }
                    }
                },
                SsePoll::Failed(message) => {
                    self.end_with(Err(ApiError::Stream(message.clone())));
                },
                SsePoll::Ended => {
                    self.flush_and_complete();
                },
                SsePoll::TimedOut => {
                    self.end_with(
                        Err(ApiError::Stream("idle timeout waiting for SSE".to_owned())),
                    );
                },
            }
        }
        assert(drawn_for(poll@, ids));
        assert(self@ == before.after_poll(poll@, ids));
    }
}

proof fn lemma_finish_reasons()
    ensures
        "stop"@ != "length"@,
        "stop"@ != "tool_calls"@,
        "length"@ != "tool_calls"@,
{
    reveal_strlit("stop");
    reveal_strlit("length");
    reveal_strlit("tool_calls");
    assert("stop"@.len() == 4);
    assert("length"@.len() == 6);
    assert("tool_calls"@.len() == 10);
}

/// Text and tool calls leave the reasoning alone.
proof fn lemma_texts_leave_reasoning(stream: StreamView, texts: Seq<Seq<char>>, id: Seq<char>)
    ensures
        stream.with_assistant_texts(texts, id).reasoning == stream.reasoning,
        stream.with_assistant_texts(texts, id).dialect == stream.dialect,
    decreases texts.len(),
{
    if texts.len() > 0 {
        lemma_texts_leave_reasoning(stream, texts.drop_last(), id);
    }
}

/// A choice gives one id to the reasoning that it starts.
proof fn lemma_reasoning_id(
    stream: StreamView,
    choice: JsonView,
    rid: Seq<char>,
    aid: Seq<char>,
    used: Seq<char>,
)
    requires
        choice.field("message"@) is Some,
    ensures
        ({
            let message = choice.field("message"@)->0;
            let changed = match choice.field("delta"@) {
                Some(delta) => stream.after_delta(
                    delta,
                    (ItemIds { reasoning: rid, assistant: aid }),
                ),
                None => stream,
            };
            let id = if changed.reasoning is None {
                used
            } else {
                rid
            };
            stream.with_choice(choice, (ItemIds { reasoning: id, assistant: aid }))
                == changed.with_reasoning_in(message, used)
        }),
{
    if let Some(delta) = choice.field("delta"@) {
        let reasoned = stream.with_reasoning_in(delta, rid);
        if let Some(content) = delta.field("content"@) {
            lemma_texts_leave_reasoning(reasoned, content_texts(content), aid);
        }
    }
}

/// What the first choices do depends on their own ids alone.
proof fn lemma_choices_use_their_own_ids(
    stream: StreamView,
    choices: Seq<JsonView>,
    ids: Seq<ItemIds>,
    longer: Seq<ItemIds>,
    n: nat,
)
    requires
        n <= ids.len(),
        ids.len() <= longer.len(),
        forall|i: int| 0 <= i < ids.len() ==> ids[i] == longer[i],
    ensures
        stream.after_choices(choices, ids, n) == stream.after_choices(choices, longer, n),
    decreases n,
{
    if n > 0 {
        lemma_choices_use_their_own_ids(stream, choices, ids, longer, (n - 1) as nat);
    }
}

/// There are ids for every poll.
proof fn lemma_some_ids(poll: PollView)
    ensures
        exists|ids: Seq<ItemIds>| drawn_for(poll, ids),
{
    let n = match frame_of(poll) {
        Some(frame) => choices_of(frame).len(),
        None => 0,
    };
    let ids = Seq::new(n, |i: int| ItemIds { reasoning: sample_id(), assistant: sample_id() });
    assert(drawn_for(poll, ids));
}

/// Decodes a chat stream: the events of the response, from what the polls of
/// the server's event stream came back with.
pub fn process_chat_sse(polls: &Vec<SsePoll>, dialect: ChatDialect) -> (result: Vec<
    Result<ResponseEvent, ApiError>,
>)
    ensures
        exists|ids: Seq<Seq<ItemIds>>|
            drawn_for_polls(polls_view(polls@), ids) && events_view(result@)
                == #[trigger] new_stream(dialect).after_polls(polls_view(polls@), ids).out,
{
    let mut stream = ChatStream::new(dialect);
    let ghost views = polls_view(polls@);
    let ghost mut ids = Seq::<Seq<ItemIds>>::empty();
    let mut i: usize = 0;
    assert(views.take(0) =~= Seq::empty());
    while i < polls.len()
        invariant
            i <= polls.len(),
            views == polls_view(polls@),
            drawn_for_polls(views.take(i as int), ids),
            stream@ == new_stream(dialect).after_polls(views.take(i as int), ids),
        decreases polls.len() - i,
    {
        let ghost before = stream@;
        stream.on_poll(&polls[i]);
        proof {
            let poll = polls[i as int]@;
            let new_ids = choose|new_ids: Seq<ItemIds>|
                drawn_for(poll, new_ids) && stream@ == #[trigger] before.after_poll(poll, new_ids);
            let longer = ids.push(new_ids);
            assert(longer.drop_last() =~= ids);
            assert(views.take(i + 1).drop_last() =~= views.take(i as int));
            assert(views.take(i + 1).last() == poll);
            assert(drawn_for_polls(views.take(i + 1), longer)) by {
                assert forall|k: int| 0 <= k < i + 1 implies drawn_for(
                    views.take(i + 1)[k],
                    #[trigger] longer[k],
                ) by {
                    if k < i {
                        assert(drawn_for(views.take(i as int)[k], ids[k]));
                    }
                }
            }
            ids = longer;
        }
        i = i + 1;
    }
    assert(views.take(i as int) =~= views);
    stream.take_events()
}

} // verus!
