//! Messages, content blocks and stream events of the model protocol.

use crate::json::{Json, JsonView};
use vstd::prelude::*;
use vstd::string::*;

verus! {

/// Who speaks in a message.
#[derive(Debug, Clone, Copy, PartialEq, Eq, Structural)]
pub enum Role {
    User,
    Assistant,
}

/// How an image is provided.
#[derive(Debug, Clone, Copy, PartialEq, Eq, Structural)]
pub enum ImageSourceType {
    Base64,
    Url,
}

/// Why the model stopped generating.
#[derive(Debug, Clone, Copy, PartialEq, Eq, Structural)]
pub enum StopReason {
    EndTurn,
    MaxTokens,
    StopSequence,
    ToolUse,
}

/// Where an image comes from.
#[derive(Debug)]
pub struct ImageSource {
    pub source_type: ImageSourceType,
    pub media_type: String,
    pub data: String,
}

pub struct ImageSourceView {
    pub source_type: ImageSourceType,
    pub media_type: Seq<char>,
    pub data: Seq<char>,
}

impl View for ImageSource {
    type V = ImageSourceView;

    open spec fn view(&self) -> ImageSourceView {
        ImageSourceView {
            source_type: self.source_type,
            media_type: self.media_type@,
            data: self.data@,
        }
    }
}

impl ImageSource {
    /// A copy of the source.
    pub fn duplicate(&self) -> (r: ImageSource)
        ensures
            r@ == self@,
    {
        ImageSource {
            source_type: self.source_type,
            media_type: self.media_type.clone(),
            data: self.data.clone(),
        }
    }
}

impl Clone for ImageSource {
    fn clone(&self) -> (r: Self)
        ensures
            r@ == self@,
    {
        self.duplicate()
    }
}

/// One item of a tool result.
#[derive(Debug)]
pub enum ToolResultContent {
    Text { text: String },
    Image { source: ImageSource },
}

pub enum ToolResultContentView {
    Text { text: Seq<char> },
    Image { source: ImageSourceView },
}

impl View for ToolResultContent {
    type V = ToolResultContentView;

    open spec fn view(&self) -> ToolResultContentView {
        match self {
            ToolResultContent::Text { text } => ToolResultContentView::Text { text: text@ },
            ToolResultContent::Image { source } => ToolResultContentView::Image {
                source: source@,
            },
        }
    }
}

impl ToolResultContent {
    /// A copy of the item.
    pub fn duplicate(&self) -> (r: ToolResultContent)
        ensures
            r@ == self@,
    {
        match self {
            ToolResultContent::Text { text } => ToolResultContent::Text { text: text.clone() },
            ToolResultContent::Image { source } => ToolResultContent::Image {
                source: source.duplicate(),
            },
        }
    }
}

impl Clone for ToolResultContent {
    fn clone(&self) -> (r: Self)
        ensures
            r@ == self@,
    {
        self.duplicate()
    }
}

/// The views of the items of a tool result.
pub open spec fn result_items(items: Seq<ToolResultContent>) -> Seq<ToolResultContentView> {
    items.map_values(|c: ToolResultContent| c@)
}

/// A typed unit of a message.
#[derive(Debug)]
pub enum ContentBlock {
    Text { text: String },
    ToolUse { id: String, name: String, input: Json },
    ToolResult { tool_use_id: String, content: Vec<ToolResultContent>, is_error: Option<bool> },
    Thinking { thinking: String, signature: Option<String> },
    Image { source: ImageSource },
    /// A block that is none of the above: of another type, or, where it
    /// was read from storage, of a known type with members that the
    /// blocks above do not hold. It is kept as the value that was read.
    Unknown { value: Json },
}

pub enum ContentBlockView {
    Text { text: Seq<char> },
    ToolUse { id: Seq<char>, name: Seq<char>, input: JsonView },
    ToolResult {
        tool_use_id: Seq<char>,
        content: Seq<ToolResultContentView>,
        is_error: Option<bool>,
    },
    Thinking { thinking: Seq<char>, signature: Option<Seq<char>> },
    Image { source: ImageSourceView },
    Unknown { value: JsonView },
}

/// The view of an optional text.
pub open spec fn opt_text(o: Option<String>) -> Option<Seq<char>> {
    match o {
        Some(s) => Some(s@),
        None => None,
    }
}

impl View for ContentBlock {
    type V = ContentBlockView;

    open spec fn view(&self) -> ContentBlockView {
        match self {
            ContentBlock::Text { text } => ContentBlockView::Text { text: text@ },
            ContentBlock::ToolUse { id, name, input } => ContentBlockView::ToolUse {
                id: id@,
                name: name@,
                input: input@,
            },
            ContentBlock::ToolResult { tool_use_id, content, is_error } => {
                ContentBlockView::ToolResult {
                    tool_use_id: tool_use_id@,
                    content: result_items(content@),
                    is_error: *is_error,
                }
            },
            ContentBlock::Thinking { thinking, signature } => ContentBlockView::Thinking {
                thinking: thinking@,
                signature: opt_text(*signature),
            },
            ContentBlock::Image { source } => ContentBlockView::Image { source: source@ },
            ContentBlock::Unknown { value } => ContentBlockView::Unknown { value: value@ },
        }
    }
}

/// A copy of an optional text.
pub fn duplicate_opt_text(o: &Option<String>) -> (r: Option<String>)
    ensures
        opt_text(r) == opt_text(*o),
{
    match o {
        Some(s) => Some(s.clone()),
        None => None,
    }
}

/// A copy of the items of a tool result.
pub fn duplicate_result_items(items: &Vec<ToolResultContent>) -> (r: Vec<ToolResultContent>)
    ensures
        result_items(r@) == result_items(items@),
{
    let mut out: Vec<ToolResultContent> = Vec::new();
    let mut i: usize = 0;
    while i < items.len()
        invariant
            i <= items.len(),
            out@.len() == i,
            forall|k: int| 0 <= k < i ==> out@[k]@ == items@[k]@,
        decreases items.len() - i,
    {
        out.push(items[i].duplicate());
        i += 1;
    }
    assert(result_items(out@) =~= result_items(items@));
    out
}

impl ContentBlock {
    /// A copy of the block.
    pub fn duplicate(&self) -> (r: ContentBlock)
        ensures
            r@ == self@,
    {
        match self {
            ContentBlock::Text { text } => ContentBlock::Text { text: text.clone() },
            ContentBlock::ToolUse { id, name, input } => ContentBlock::ToolUse {
                id: id.clone(),
                name: name.clone(),
                input: input.duplicate(),
            },
            ContentBlock::ToolResult { tool_use_id, content, is_error } => {
                ContentBlock::ToolResult {
                    tool_use_id: tool_use_id.clone(),
                    content: duplicate_result_items(content),
                    is_error: *is_error,
                }
            },
            ContentBlock::Thinking { thinking, signature } => ContentBlock::Thinking {
                thinking: thinking.clone(),
                signature: duplicate_opt_text(signature),
            },
            ContentBlock::Image { source } => ContentBlock::Image { source: source.duplicate() },
            ContentBlock::Unknown { value } => ContentBlock::Unknown { value: value.duplicate() },
        }
    }
}

impl Clone for ContentBlock {
    fn clone(&self) -> (r: Self)
        ensures
            r@ == self@,
    {
        self.duplicate()
    }
}

/// The views of a run of content blocks.
pub open spec fn blocks(items: Seq<ContentBlock>) -> Seq<ContentBlockView> {
    items.map_values(|b: ContentBlock| b@)
}

/// A copy of a run of content blocks.
pub fn duplicate_blocks(items: &Vec<ContentBlock>) -> (r: Vec<ContentBlock>)
    ensures
        blocks(r@) == blocks(items@),
{
    let mut out: Vec<ContentBlock> = Vec::new();
    let mut i: usize = 0;
    while i < items.len()
        invariant
            i <= items.len(),
            out@.len() == i,
            forall|k: int| 0 <= k < i ==> out@[k]@ == items@[k]@,
        decreases items.len() - i,
    {
        out.push(items[i].duplicate());
        i += 1;
    }
    assert(blocks(out@) =~= blocks(items@));
    out
}

/// One message of a conversation: a role and its content blocks, in order.
#[derive(Debug)]
pub struct Message {
    pub role: Role,
    pub content: Vec<ContentBlock>,
}

pub struct MessageView {
    pub role: Role,
    pub content: Seq<ContentBlockView>,
}

impl View for Message {
    type V = MessageView;

    open spec fn view(&self) -> MessageView {
        MessageView { role: self.role, content: blocks(self.content@) }
    }
}

impl Message {
    /// A copy of the message.
    pub fn duplicate(&self) -> (r: Message)
        ensures
            r@ == self@,
    {
        Message { role: self.role, content: duplicate_blocks(&self.content) }
    }
}

impl Clone for Message {
    fn clone(&self) -> (r: Self)
        ensures
            r@ == self@,
    {
        self.duplicate()
    }
}

/// The views of a conversation.
pub open spec fn transcript(messages: Seq<Message>) -> Seq<MessageView> {
    messages.map_values(|m: Message| m@)
}

/// Marker for prompt caching.
#[derive(Debug, Clone)]
pub struct CacheControl {
    pub cache_type: String,
}

impl CacheControl {
    /// The marker of a cache entry that expires by itself.
    pub fn ephemeral() -> (c: Self)
        ensures
            c.cache_type@ == "ephemeral"@,
    {
        CacheControl { cache_type: "ephemeral".to_owned() }
    }
}

/// One block of the system prompt.
#[derive(Debug, Clone)]
pub struct SystemContent {
    pub content_type: String,
    pub text: String,
    pub cache_control: Option<CacheControl>,
}

/// Settings of extended thinking.
#[derive(Debug, Clone)]
pub struct ThinkingConfig {
    pub thinking_type: String,
    pub budget_tokens: Option<u32>,
}

/// Token counts of one response, or their running total.
#[derive(Debug, Clone, Copy, PartialEq, Eq, Structural)]
pub struct Usage {
    pub input_tokens: u64,
    pub output_tokens: u64,
    pub cache_creation_input_tokens: u64,
    pub cache_read_input_tokens: u64,
}

/// The sum of two counts, capped at the largest value a count can hold.
pub open spec fn capped_sum(a: u64, b: u64) -> u64 {
    if a + b > u64::MAX {
        u64::MAX
    } else {
        (a + b) as u64
    }
}

impl Usage {
    /// The total of `self` and `other`, count by count.
    pub open spec fn plus(self, other: Usage) -> Usage {
        Usage {
            input_tokens: capped_sum(self.input_tokens, other.input_tokens),
            output_tokens: capped_sum(self.output_tokens, other.output_tokens),
            cache_creation_input_tokens: capped_sum(
                self.cache_creation_input_tokens,
                other.cache_creation_input_tokens,
            ),
            cache_read_input_tokens: capped_sum(
                self.cache_read_input_tokens,
                other.cache_read_input_tokens,
            ),
        }
    }

    /// The usage in which every count is zero.
    pub open spec fn zero() -> Usage {
        Usage {
            input_tokens: 0,
            output_tokens: 0,
            cache_creation_input_tokens: 0,
            cache_read_input_tokens: 0,
        }
    }

    /// Adds the counts of `other` to those of `self`. A count that would
    /// pass the largest value of its type stays at that value.
    pub fn add(&mut self, other: &Usage)
        ensures
            *final(self) == old(self).plus(*other),
    {
        self.input_tokens = self.input_tokens.saturating_add(other.input_tokens);
        self.output_tokens = self.output_tokens.saturating_add(other.output_tokens);
        self.cache_creation_input_tokens = self.cache_creation_input_tokens.saturating_add(
            other.cache_creation_input_tokens,
        );
        self.cache_read_input_tokens = self.cache_read_input_tokens.saturating_add(
            other.cache_read_input_tokens,
        );
    }
}

impl Default for Usage {
    fn default() -> (u: Self)
        ensures
            u == Usage::zero(),
    {
        Usage {
            input_tokens: 0,
            output_tokens: 0,
            cache_creation_input_tokens: 0,
            cache_read_input_tokens: 0,
        }
    }
}

/// The view of an optional cache marker: the kind of cache it names.
pub open spec fn opt_cache(o: Option<CacheControl>) -> Option<Seq<char>> {
    match o {
        Some(c) => Some(c.cache_type@),
        None => None,
    }
}

/// A tool as it is announced to the model.
#[derive(Debug)]
pub struct ToolDefinition {
    pub name: String,
    pub description: String,
    pub input_schema: Json,
    pub cache_control: Option<CacheControl>,
}

pub struct ToolDefinitionView {
    pub name: Seq<char>,
    pub description: Seq<char>,
    pub input_schema: JsonView,
    pub cache_control: Option<Seq<char>>,
}

impl View for ToolDefinition {
    type V = ToolDefinitionView;

    open spec fn view(&self) -> ToolDefinitionView {
        ToolDefinitionView {
            name: self.name@,
            description: self.description@,
            input_schema: self.input_schema@,
            cache_control: opt_cache(self.cache_control),
        }
    }
}

impl ToolDefinition {
    /// A copy of the definition.
    pub fn duplicate(&self) -> (r: ToolDefinition)
        ensures
            r@ == self@,
    {
        ToolDefinition {
            name: self.name.clone(),
            description: self.description.clone(),
            input_schema: self.input_schema.duplicate(),
            cache_control: match &self.cache_control {
                Some(c) => Some(CacheControl { cache_type: c.cache_type.clone() }),
                None => None,
            },
        }
    }
}

impl Clone for ToolDefinition {
    fn clone(&self) -> (r: Self)
        ensures
            r@ == self@,
    {
        self.duplicate()
    }
}

/// The views of a list of tool definitions.
pub open spec fn definition_views(defs: Seq<ToolDefinition>) -> Seq<ToolDefinitionView> {
    defs.map_values(|d: ToolDefinition| d@)
}

/// A request for one streamed model response. The sampling temperature is
/// held in tenths, so that `10` stands for 1.0.
#[derive(Debug, Clone)]
pub struct CreateMessageRequest {
    pub model: String,
    pub max_tokens: u32,
    pub messages: Vec<Message>,
    pub system: Option<Vec<SystemContent>>,
    pub tools: Option<Vec<ToolDefinition>>,
    pub stop_sequences: Option<Vec<String>>,
    pub temperature_tenths: Option<u32>,
    pub thinking: Option<ThinkingConfig>,
    pub stream: bool,
}

/// The head of a model response, as `message_start` carries it.
#[derive(Debug, Clone)]
pub struct CreateMessageResponse {
    pub id: String,
    pub response_type: String,
    pub role: Role,
    pub content: Vec<ContentBlock>,
    pub model: String,
    pub stop_reason: Option<StopReason>,
    pub usage: Usage,
}

pub struct CreateMessageResponseView {
    pub id: Seq<char>,
    pub response_type: Seq<char>,
    pub role: Role,
    pub content: Seq<ContentBlockView>,
    pub model: Seq<char>,
    pub stop_reason: Option<StopReason>,
    pub usage: Usage,
}

impl View for CreateMessageResponse {
    type V = CreateMessageResponseView;

    open spec fn view(&self) -> CreateMessageResponseView {
        CreateMessageResponseView {
            id: self.id@,
            response_type: self.response_type@,
            role: self.role,
            content: blocks(self.content@),
            model: self.model@,
            stop_reason: self.stop_reason,
            usage: self.usage,
        }
    }
}

/// A piece of a content block under construction.
#[derive(Debug, Clone)]
pub enum ContentDelta {
    TextDelta { text: String },
    InputJsonDelta { partial_json: String },
    ThinkingDelta { thinking: String },
    SignatureDelta { signature: String },
}

pub enum ContentDeltaView {
    TextDelta { text: Seq<char> },
    InputJsonDelta { partial_json: Seq<char> },
    ThinkingDelta { thinking: Seq<char> },
    SignatureDelta { signature: Seq<char> },
}

impl View for ContentDelta {
    type V = ContentDeltaView;

    open spec fn view(&self) -> ContentDeltaView {
        match self {
            ContentDelta::TextDelta { text } => ContentDeltaView::TextDelta { text: text@ },
            ContentDelta::InputJsonDelta { partial_json } => ContentDeltaView::InputJsonDelta {
                partial_json: partial_json@,
            },
            ContentDelta::ThinkingDelta { thinking } => ContentDeltaView::ThinkingDelta {
                thinking: thinking@,
            },
            ContentDelta::SignatureDelta { signature } => ContentDeltaView::SignatureDelta {
                signature: signature@,
            },
        }
    }
}

/// A change at the level of the message.
#[derive(Debug, Clone, Copy, PartialEq, Eq, Structural)]
pub struct MessageDelta {
    pub stop_reason: Option<StopReason>,
}

/// The body of an error that the server reports in the stream.
#[derive(Debug, Clone)]
pub struct ApiErrorResponse {
    pub error_type: String,
    pub message: String,
}

pub struct ApiErrorResponseView {
    pub error_type: Seq<char>,
    pub message: Seq<char>,
}

impl View for ApiErrorResponse {
    type V = ApiErrorResponseView;

    open spec fn view(&self) -> ApiErrorResponseView {
        ApiErrorResponseView { error_type: self.error_type@, message: self.message@ }
    }
}

/// An event of the response stream.
#[derive(Debug, Clone)]
pub enum StreamEvent {
    MessageStart { message: CreateMessageResponse },
    ContentBlockStart { index: usize, content_block: ContentBlock },
    ContentBlockDelta { index: usize, delta: ContentDelta },
    ContentBlockStop { index: usize },
    MessageDelta { delta: MessageDelta, usage: Option<Usage> },
    MessageStop,
    Ping,
    Error { error: ApiErrorResponse },
}

pub enum StreamEventView {
    MessageStart { message: CreateMessageResponseView },
    ContentBlockStart { index: usize, content_block: ContentBlockView },
    ContentBlockDelta { index: usize, delta: ContentDeltaView },
    ContentBlockStop { index: usize },
    MessageDelta { delta: MessageDelta, usage: Option<Usage> },
    MessageStop,
    Ping,
    Error { error: ApiErrorResponseView },
}

impl View for StreamEvent {
    type V = StreamEventView;

    open spec fn view(&self) -> StreamEventView {
        match self {
            StreamEvent::MessageStart { message } => StreamEventView::MessageStart {
                message: message@,
            },
            StreamEvent::ContentBlockStart { index, content_block } => {
                StreamEventView::ContentBlockStart {
                    index: *index,
                    content_block: content_block@,
                }
            },
            StreamEvent::ContentBlockDelta { index, delta } => {
                StreamEventView::ContentBlockDelta { index: *index, delta: delta@ }
            },
            StreamEvent::ContentBlockStop { index } => StreamEventView::ContentBlockStop {
                index: *index,
            },
            StreamEvent::MessageDelta { delta, usage } => StreamEventView::MessageDelta {
                delta: *delta,
                usage: *usage,
            },
            StreamEvent::MessageStop => StreamEventView::MessageStop,
            StreamEvent::Ping => StreamEventView::Ping,
            StreamEvent::Error { error } => StreamEventView::Error { error: error@ },
        }
    }
}

} // verus!
