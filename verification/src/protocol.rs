//! The conversation items and stream events that the chat wire carries.

use vstd::prelude::*;

use crate::json::{Json, JsonView};

verus! {

/// How a provider speaks the Chat Completions protocol.
#[derive(Clone, Copy, PartialEq, Eq, Structural, Debug)]
pub enum ChatDialect {
    /// The protocol as published: it has no reasoning field.
    Strict,
    /// Reasoning travels in `reasoning_content` and has to be passed back.
    ThinkingReasoningContent,
}

/// What a chat request or a chat stream can fail with.
#[derive(Debug)]
pub enum ApiError {
    Stream(String),
    ContextWindowExceeded,
}

/// A part of a message.
#[derive(Debug)]
pub enum ContentItem {
    InputText { text: String },
    OutputText { text: String },
    InputImage { image_url: String },
}

/// A part of a reasoning item.
#[derive(Debug)]
pub enum ReasoningItemContent {
    ReasoningText { text: String },
    Text { text: String },
}

/// A part of a tool's output.
#[derive(Debug)]
pub enum FunctionCallOutputContentItem {
    InputText { text: String },
    InputImage { image_url: String },
    EncryptedContent { encrypted_content: String },
}

/// A tool's output: a text, or a list of parts.
#[derive(Debug)]
pub enum FunctionCallOutputBody {
    Text(String),
    ContentItems(Vec<FunctionCallOutputContentItem>),
}

/// A tool's output, with whether the tool succeeded.
#[derive(Debug)]
pub struct FunctionCallOutputPayload {
    pub body: FunctionCallOutputBody,
    pub success: Option<bool>,
}

/// An item of a conversation.
#[allow(inconsistent_fields)]
#[derive(Debug)]
pub enum ResponseItem {
    Message { id: Option<String>, role: String, content: Vec<ContentItem> },
    AgentMessage,
    Reasoning {
        id: String,
        summary: Vec<String>,
        content: Option<Vec<ReasoningItemContent>>,
        encrypted_content: Option<String>,
    },
    /// `status` and `action` are held in their JSON form.
    LocalShellCall { id: Option<String>, call_id: Option<String>, status: Json, action: Json },
    FunctionCall {
        id: Option<String>,
        name: String,
        namespace: Option<String>,
        arguments: String,
        call_id: String,
    },
    FunctionCallOutput { call_id: String, output: FunctionCallOutputPayload },
    CustomToolCall {
        id: Option<String>,
        call_id: String,
        name: String,
        input: String,
        status: Option<String>,
    },
    /// `output` is held in its JSON form.
    CustomToolCallOutput { call_id: String, output: Json },
    WebSearchCall,
    ToolSearchCall,
    ToolSearchOutput,
    ImageGenerationCall,
    Compaction,
    CompactionTrigger,
    ContextCompaction,
    Other,
}

/// The tokens that a response took.
#[derive(Clone, Copy, PartialEq, Eq, Structural, Debug)]
pub struct TokenUsage {
    pub input_tokens: i64,
    pub cached_input_tokens: i64,
    pub output_tokens: i64,
    pub reasoning_output_tokens: i64,
    pub total_tokens: i64,
}

/// An event of a response stream.
#[derive(Debug)]
pub enum ResponseEvent {
    OutputItemAdded(ResponseItem),
    OutputItemDone(ResponseItem),
    OutputTextDelta(String),
    ReasoningContentDelta { delta: String, content_index: i64 },
    Completed { response_id: String, token_usage: Option<TokenUsage>, end_turn: Option<bool> },
}

/// Where a session comes from.
#[derive(Debug)]
pub enum SessionSource {
    Exec,
    SubAgent(SubAgentSource),
}

/// What a subagent was started for.
#[derive(Debug)]
pub enum SubAgentSource {
    Review,
    Other(String),
}

/// The text of an optional owned text.
pub open spec fn opt_text(text: Option<String>) -> Option<Seq<char>> {
    match text {
        Some(s) => Some(s@),
        None => None,
    }
}

/// What a message part is.
pub enum ContentView {
    InputText(Seq<char>),
    OutputText(Seq<char>),
    InputImage(Seq<char>),
}

impl ContentItem {
    pub open spec fn view(&self) -> ContentView {
        match self {
            ContentItem::InputText { text } => ContentView::InputText(text@),
            ContentItem::OutputText { text } => ContentView::OutputText(text@),
            ContentItem::InputImage { image_url } => ContentView::InputImage(image_url@),
        }
    }
}

/// What a reasoning part is.
pub enum ReasoningView {
    ReasoningText(Seq<char>),
    Text(Seq<char>),
}

impl ReasoningItemContent {
    pub open spec fn view(&self) -> ReasoningView {
        match self {
            ReasoningItemContent::ReasoningText { text } => ReasoningView::ReasoningText(text@),
            ReasoningItemContent::Text { text } => ReasoningView::Text(text@),
        }
    }
}

/// What a part of a tool's output is.
pub enum OutputPartView {
    InputText(Seq<char>),
    InputImage(Seq<char>),
    EncryptedContent(Seq<char>),
}

impl FunctionCallOutputContentItem {
    pub open spec fn view(&self) -> OutputPartView {
        match self {
            FunctionCallOutputContentItem::InputText { text } => OutputPartView::InputText(text@),
            FunctionCallOutputContentItem::InputImage { image_url } => OutputPartView::InputImage(
                image_url@,
            ),
            FunctionCallOutputContentItem::EncryptedContent {
                encrypted_content,
            } => OutputPartView::EncryptedContent(encrypted_content@),
        }
    }
}

/// What a tool's output is.
pub enum OutputBodyView {
    Text(Seq<char>),
    ContentItems(Seq<OutputPartView>),
}

impl FunctionCallOutputBody {
    pub open spec fn view(&self) -> OutputBodyView {
        match self {
            FunctionCallOutputBody::Text(text) => OutputBodyView::Text(text@),
            FunctionCallOutputBody::ContentItems(items) => OutputBodyView::ContentItems(
                items@.map_values(|item: FunctionCallOutputContentItem| item@),
            ),
        }
    }
}

/// What a conversation item is.
#[allow(inconsistent_fields)]
#[verifier::ext_equal]
pub enum ItemView {
    Message { id: Option<Seq<char>>, role: Seq<char>, content: Seq<ContentView> },
    AgentMessage,
    Reasoning {
        id: Seq<char>,
        summary: Seq<Seq<char>>,
        content: Option<Seq<ReasoningView>>,
        encrypted_content: Option<Seq<char>>,
    },
    LocalShellCall {
        id: Option<Seq<char>>,
        call_id: Option<Seq<char>>,
        status: JsonView,
        action: JsonView,
    },
    FunctionCall {
        id: Option<Seq<char>>,
        name: Seq<char>,
        namespace: Option<Seq<char>>,
        arguments: Seq<char>,
        call_id: Seq<char>,
    },
    FunctionCallOutput { call_id: Seq<char>, body: OutputBodyView, success: Option<bool> },
    CustomToolCall {
        id: Option<Seq<char>>,
        call_id: Seq<char>,
        name: Seq<char>,
        input: Seq<char>,
        status: Option<Seq<char>>,
    },
    CustomToolCallOutput { call_id: Seq<char>, output: JsonView },
    WebSearchCall,
    ToolSearchCall,
    ToolSearchOutput,
    ImageGenerationCall,
    Compaction,
    CompactionTrigger,
    ContextCompaction,
    Other,
}

impl ResponseItem {
    pub open spec fn view(&self) -> ItemView {
        match self {
            ResponseItem::Message { id, role, content } => ItemView::Message {
                id: opt_text(*id),
                role: role@,
                content: content@.map_values(|part: ContentItem| part@),
            },
            ResponseItem::AgentMessage => ItemView::AgentMessage,
            ResponseItem::Reasoning { id, summary, content, encrypted_content } => ItemView::Reasoning {
                id: id@,
                summary: summary@.map_values(|text: String| text@),
                content: match *content {
                    Some(parts) => Some(parts@.map_values(|part: ReasoningItemContent| part@)),
                    None => None,
                },
                encrypted_content: opt_text(*encrypted_content),
            },
            ResponseItem::LocalShellCall { id, call_id, status, action } => ItemView::LocalShellCall {
                id: opt_text(*id),
                call_id: opt_text(*call_id),
                status: status@,
                action: action@,
            },
            ResponseItem::FunctionCall { id, name, namespace, arguments, call_id } => ItemView::FunctionCall {
                id: opt_text(*id),
                name: name@,
                namespace: opt_text(*namespace),
                arguments: arguments@,
                call_id: call_id@,
            },
            ResponseItem::FunctionCallOutput { call_id, output } => ItemView::FunctionCallOutput {
                call_id: call_id@,
                body: output.body@,
                success: output.success,
            },
            ResponseItem::CustomToolCall { id, call_id, name, input, status } => ItemView::CustomToolCall {
                id: opt_text(*id),
                call_id: call_id@,
                name: name@,
                input: input@,
                status: opt_text(*status),
            },
            ResponseItem::CustomToolCallOutput { call_id, output } => ItemView::CustomToolCallOutput {
                call_id: call_id@,
                output: output@,
            },
            ResponseItem::WebSearchCall => ItemView::WebSearchCall,
            ResponseItem::ToolSearchCall => ItemView::ToolSearchCall,
            ResponseItem::ToolSearchOutput => ItemView::ToolSearchOutput,
            ResponseItem::ImageGenerationCall => ItemView::ImageGenerationCall,
            ResponseItem::Compaction => ItemView::Compaction,
            ResponseItem::CompactionTrigger => ItemView::CompactionTrigger,
            ResponseItem::ContextCompaction => ItemView::ContextCompaction,
            ResponseItem::Other => ItemView::Other,
        }
    }
}

/// The items of a conversation, in order.
pub open spec fn conversation(input: Seq<ResponseItem>) -> Seq<ItemView> {
    input.map_values(|item: ResponseItem| item@)
}

/// What a stream event is, or what the stream failed with.
#[verifier::ext_equal]
pub enum EventView {
    Added(ItemView),
    Done(ItemView),
    TextDelta(Seq<char>),
    ReasoningDelta { delta: Seq<char>, content_index: i64 },
    Completed { response_id: Seq<char>, token_usage: Option<TokenUsage>, end_turn: Option<bool> },
    StreamError(Seq<char>),
    ContextWindowExceeded,
}

/// What an entry of a stream is.
pub open spec fn event_view(event: Result<ResponseEvent, ApiError>) -> EventView {
    match event {
        Ok(ResponseEvent::OutputItemAdded(item)) => EventView::Added(item@),
        Ok(ResponseEvent::OutputItemDone(item)) => EventView::Done(item@),
        Ok(ResponseEvent::OutputTextDelta(text)) => EventView::TextDelta(text@),
        Ok(ResponseEvent::ReasoningContentDelta { delta, content_index }) => EventView::ReasoningDelta {
            delta: delta@,
            content_index,
        },
        Ok(ResponseEvent::Completed { response_id, token_usage, end_turn }) => EventView::Completed {
            response_id: response_id@,
            token_usage,
            end_turn,
        },
        Err(ApiError::Stream(message)) => EventView::StreamError(message@),
        Err(ApiError::ContextWindowExceeded) => EventView::ContextWindowExceeded,
    }
}

/// What the entries of a stream are, in order.
pub open spec fn events_view(events: Seq<Result<ResponseEvent, ApiError>>) -> Seq<EventView> {
    events.map_values(|event: Result<ResponseEvent, ApiError>| event_view(event))
}

} // verus!
