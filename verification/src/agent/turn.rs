//! Reassembly of one streamed response into content blocks.
//!
//! The server sends blocks one after the other and closes each before it
//! opens the next, so one set of scratch buffers serves the whole turn.

use crate::agent::events::{event_views, AgentEvent, AgentEventView};
use crate::error::ApiError;
use crate::json::{json_parse, Json, JsonView};
use crate::message::{
    blocks, ContentBlock, ContentBlockView, ContentDelta, ContentDeltaView, StopReason,
    StreamEvent, StreamEventView, Usage,
};
use crate::text::{join3};
use vstd::prelude::*;
use vstd::string::*;

verus! {

/// The state of a turn while its response streams in.
#[derive(Debug)]
pub struct TurnState {
    content_blocks: Vec<ContentBlock>,
    text: String,
    tool_id: String,
    tool_name: String,
    tool_json: String,
    thinking: String,
    signature: String,
    in_thinking_block: bool,
    stop_reason: Option<StopReason>,
}

/// The mathematical content of a `TurnState`: the blocks completed so far,
/// the scratch buffers of the block under way, whether that block is a
/// thinking block, and the stop reason last reported.
pub struct TurnView {
    pub blocks: Seq<ContentBlockView>,
    pub text: Seq<char>,
    pub tool_id: Seq<char>,
    pub tool_name: Seq<char>,
    pub tool_json: Seq<char>,
    pub thinking: Seq<char>,
    pub signature: Seq<char>,
    pub in_thinking_block: bool,
    pub stop_reason: Option<StopReason>,
}

impl View for TurnState {
    type V = TurnView;

    closed spec fn view(&self) -> TurnView {
        TurnView {
            blocks: blocks(self.content_blocks@),
            text: self.text@,
            tool_id: self.tool_id@,
            tool_name: self.tool_name@,
            tool_json: self.tool_json@,
            thinking: self.thinking@,
            signature: self.signature@,
            in_thinking_block: self.in_thinking_block,
            stop_reason: self.stop_reason,
        }
    }
}

/// The state at the start of a turn.
pub open spec fn fresh_turn() -> TurnView {
    TurnView {
        blocks: Seq::empty(),
        text: Seq::empty(),
        tool_id: Seq::empty(),
        tool_name: Seq::empty(),
        tool_json: Seq::empty(),
        thinking: Seq::empty(),
        signature: Seq::empty(),
        in_thinking_block: false,
        stop_reason: None,
    }
}

/// The input of a tool call whose accumulated JSON text parsed to
/// `parsed`: the parsed value, or `null` where the text did not parse.
pub open spec fn tool_input(parsed: Option<JsonView>) -> JsonView {
    match parsed {
        Some(j) => j,
        None => JsonView::Null,
    }
}

/// The signature of a thinking block: none when nothing was accumulated.
pub open spec fn optional_signature(signature: Seq<char>) -> Option<Seq<char>> {
    if signature.len() == 0 {
        None
    } else {
        Some(signature)
    }
}

/// The state after the block under way has been closed, `parsed` being
/// what the accumulated tool JSON parsed to.
///
/// A thinking block is committed with its text and optional signature,
/// unless its text is empty. Otherwise accumulated text is committed as a
/// text block. Otherwise a tool call whose id is known is committed with
/// its parsed input. The buffers of the closed block are cleared.
pub open spec fn close_block(t: TurnView, parsed: Option<JsonView>) -> TurnView {
    if t.in_thinking_block {
        TurnView {
            blocks: if t.thinking.len() > 0 {
                t.blocks.push(
                    ContentBlockView::Thinking {
                        thinking: t.thinking,
                        signature: optional_signature(t.signature),
                    },
                )
            } else {
                t.blocks
            },
            thinking: Seq::empty(),
            signature: Seq::empty(),
            in_thinking_block: false,
            ..t
        }
    } else if t.text.len() > 0 {
        TurnView {
            blocks: t.blocks.push(ContentBlockView::Text { text: t.text }),
            text: Seq::empty(),
            ..t
        }
    } else if t.tool_id.len() > 0 {
        TurnView {
            blocks: t.blocks.push(
                ContentBlockView::ToolUse {
                    id: t.tool_id,
                    name: t.tool_name,
                    input: tool_input(parsed),
                },
            ),
            tool_id: Seq::empty(),
            tool_name: Seq::empty(),
            tool_json: Seq::empty(),
            ..t
        }
    } else {
        t
    }
}

/// The state of the turn after the event `e`. A block of a type that the
/// protocol does not know is complete when the stream opens it, and is
/// kept as it is.
pub open spec fn after_event(t: TurnView, e: StreamEventView) -> TurnView {
    match e {
        StreamEventView::ContentBlockStart { content_block, .. } => match content_block {
            ContentBlockView::Text { .. } => TurnView { text: Seq::empty(), ..t },
            ContentBlockView::Thinking { .. } => TurnView {
                thinking: Seq::empty(),
                signature: Seq::empty(),
                in_thinking_block: true,
                ..t
            },
            ContentBlockView::ToolUse { id, name, .. } => TurnView {
                tool_id: id,
                tool_name: name,
                tool_json: Seq::empty(),
                ..t
            },
            ContentBlockView::Unknown { .. } => TurnView {
                blocks: t.blocks.push(content_block),
                ..t
            },
            _ => t,
        },
        StreamEventView::ContentBlockDelta { delta, .. } => match delta {
            ContentDeltaView::TextDelta { text } => TurnView { text: t.text + text, ..t },
            ContentDeltaView::InputJsonDelta { partial_json } => TurnView {
                tool_json: t.tool_json + partial_json,
                ..t
            },
            ContentDeltaView::ThinkingDelta { thinking } => TurnView {
                thinking: t.thinking + thinking,
                ..t
            },
            ContentDeltaView::SignatureDelta { signature } => TurnView {
                signature: t.signature + signature,
                ..t
            },
        },
        StreamEventView::ContentBlockStop { .. } => close_block(t, json_parse(t.tool_json)),
        StreamEventView::MessageDelta { delta, .. } => TurnView {
            stop_reason: delta.stop_reason,
            ..t
        },
        _ => t,
    }
}

/// The usage that the event `e` reports, if it reports one.
pub open spec fn reported_usage(e: StreamEventView) -> Option<Usage> {
    match e {
        StreamEventView::MessageStart { message } => Some(message.usage),
        StreamEventView::MessageDelta { usage, .. } => usage,
        _ => None,
    }
}

/// What the observer is told on the event `e`.
pub open spec fn told_on(e: StreamEventView) -> Seq<AgentEventView> {
    match e {
        StreamEventView::ContentBlockStart { content_block, .. } => match content_block {
            ContentBlockView::ToolUse { name, .. } => seq![
                AgentEventView::ToolStart { name, input: Seq::empty() },
            ],
            _ => Seq::empty(),
        },
        StreamEventView::ContentBlockDelta { delta, .. } => match delta {
            ContentDeltaView::TextDelta { text } => seq![AgentEventView::TextDelta(text)],
            ContentDeltaView::ThinkingDelta { thinking } => seq![
                AgentEventView::ThinkingDelta(thinking),
            ],
            _ => Seq::empty(),
        },
        StreamEventView::Error { error } => seq![
            AgentEventView::Error(error.error_type + ": "@ + error.message),
        ],
        _ => Seq::empty(),
    }
}

/// The message of the failure that the event `e` reports: an `error` event
/// ends the turn.
pub open spec fn failure_of(e: StreamEventView) -> Option<Seq<char>> {
    match e {
        StreamEventView::Error { error } => Some(error.message),
        _ => None,
    }
}

/// What handling an event yields: what the observer is told, the usage to
/// add to the run's total, and the error that ends the turn, if any.
#[derive(Debug)]
pub struct Handled {
    pub events: Vec<AgentEvent>,
    pub usage: Option<Usage>,
    pub error: Option<ApiError>,
}

/// The ids of the tool calls among `blocks`, in order.
pub open spec fn tool_use_ids(blocks: Seq<ContentBlockView>) -> Seq<Seq<char>>
    decreases blocks.len(),
{
    if blocks.len() == 0 {
        Seq::empty()
    } else {
        match blocks.last() {
            ContentBlockView::ToolUse { id, .. } => tool_use_ids(blocks.drop_last()).push(id),
            _ => tool_use_ids(blocks.drop_last()),
        }
    }
}

/// The ids that the tool results among `blocks` answer, in order.
pub open spec fn tool_result_ids(blocks: Seq<ContentBlockView>) -> Seq<Seq<char>>
    decreases blocks.len(),
{
    if blocks.len() == 0 {
        Seq::empty()
    } else {
        match blocks.last() {
            ContentBlockView::ToolResult { tool_use_id, .. } => tool_result_ids(
                blocks.drop_last(),
            ).push(tool_use_id),
            _ => tool_result_ids(blocks.drop_last()),
        }
    }
}

impl TurnState {
    /// The state at the start of a turn.
    pub fn new() -> (t: Self)
        ensures
            t@ == fresh_turn(),
    {
        let t = TurnState {
            content_blocks: Vec::new(),
            text: String::new(),
            tool_id: String::new(),
            tool_name: String::new(),
            tool_json: String::new(),
            thinking: String::new(),
            signature: String::new(),
            in_thinking_block: false,
            stop_reason: None,
        };
        assert(t@.blocks =~= Seq::<ContentBlockView>::empty());
        t
    }

    /// Closes the block under way. `parsed` is what the accumulated JSON
    /// of a tool call parsed to; it counts only where a tool call closes.
    pub fn close(&mut self, parsed: Option<Json>)
        ensures
            final(self)@ == close_block(
                old(self)@,
                match parsed {
                    Some(j) => Some(j@),
                    None => None,
                },
            ),
    {
        let ghost before = blocks(self.content_blocks@);
        if self.in_thinking_block {
            if !self.thinking.as_str().is_empty() {
                let signature = if self.signature.as_str().is_empty() {
                    None
                } else {
                    Some(self.signature.clone())
                };
                let block = ContentBlock::Thinking { thinking: self.thinking.clone(), signature };
                self.content_blocks.push(block);
                assert(blocks(self.content_blocks@) =~= before.push(block@));
            }
            self.thinking = String::new();
            self.signature = String::new();
            self.in_thinking_block = false;
        } else if !self.text.as_str().is_empty() {
            let block = ContentBlock::Text { text: self.text.clone() };
            self.content_blocks.push(block);
            assert(blocks(self.content_blocks@) =~= before.push(block@));
            self.text = String::new();
        } else if !self.tool_id.as_str().is_empty() {
            let input = match parsed {
                Some(j) => j,
                None => Json::Null,
            };
            let block = ContentBlock::ToolUse {
                id: self.tool_id.clone(),
                name: self.tool_name.clone(),
                input,
            };
            self.content_blocks.push(block);
            assert(blocks(self.content_blocks@) =~= before.push(block@));
            self.tool_id = String::new();
            self.tool_name = String::new();
            self.tool_json = String::new();
        }
    }

    /// Takes in the next event of the stream.
    pub fn handle(&mut self, event: StreamEvent) -> (h: Handled)
        ensures
            final(self)@ == after_event(old(self)@, event@),
            event_views(h.events@) == told_on(event@),
            h.usage == reported_usage(event@),
            match h.error {
                Some(e) => e matches ApiError::Server { status, message } && status == 0
                    && failure_of(event@) == Some(message@),
                None => failure_of(event@) is None,
            },
    {
        let mut events: Vec<AgentEvent> = Vec::new();
        let mut usage: Option<Usage> = None;
        let mut error: Option<ApiError> = None;
        assert(event_views(events@) =~= Seq::<AgentEventView>::empty());
        match event {
            StreamEvent::MessageStart { message } => {
                usage = Some(message.usage);
            },
            StreamEvent::ContentBlockStart { content_block, .. } => match content_block {
                ContentBlock::Text { .. } => {
                    self.text = String::new();
                },
                ContentBlock::Thinking { .. } => {
                    self.thinking = String::new();
                    self.signature = String::new();
                    self.in_thinking_block = true;
                },
                ContentBlock::ToolUse { id, name, .. } => {
                    let told = AgentEvent::ToolStart { name: name.clone(), input: String::new() };
                    self.tool_id = id;
                    self.tool_name = name;
                    self.tool_json = String::new();
                    events.push(told);
                    assert(event_views(events@) =~= seq![told@]);
                },
                ContentBlock::Unknown { value } => {
                    let ghost before = blocks(self.content_blocks@);
                    let kept = ContentBlock::Unknown { value };
                    self.content_blocks.push(kept);
                    assert(blocks(self.content_blocks@) =~= before.push(kept@));
                },
                _ => {},
            },
            StreamEvent::ContentBlockDelta { delta, .. } => match delta {
                ContentDelta::TextDelta { text } => {
                    self.text.append(text.as_str());
                    let told = AgentEvent::TextDelta(text);
                    events.push(told);
                    assert(event_views(events@) =~= seq![told@]);
                },
                ContentDelta::InputJsonDelta { partial_json } => {
                    self.tool_json.append(partial_json.as_str());
                },
                ContentDelta::ThinkingDelta { thinking } => {
                    self.thinking.append(thinking.as_str());
                    let told = AgentEvent::ThinkingDelta(thinking);
                    events.push(told);
                    assert(event_views(events@) =~= seq![told@]);
                },
                ContentDelta::SignatureDelta { signature } => {
                    self.signature.append(signature.as_str());
                },
            },
            StreamEvent::ContentBlockStop { .. } => {
                let parsed = Json::parse(self.tool_json.as_str());
                self.close(parsed);
            },
            StreamEvent::MessageDelta { delta, usage: reported } => {
                self.stop_reason = delta.stop_reason;
                usage = reported;
            },
            StreamEvent::Error { error: body } => {
                let told = AgentEvent::Error(
                    join3(body.error_type.as_str(), ": ", body.message.as_str()),
                );
                events.push(told);
                assert(event_views(events@) =~= seq![told@]);
                error = Some(ApiError::Server { status: 0, message: body.message });
            },
            StreamEvent::MessageStop => {},
            StreamEvent::Ping => {},
        }
        Handled { events, usage, error }
    }

    /// The stop reason last reported.
    pub fn stop_reason(&self) -> (r: Option<StopReason>)
        ensures
            r == self@.stop_reason,
    {
        self.stop_reason
    }

    /// Ends the turn: hands out the blocks completed in it and leaves the
    /// state of a fresh turn behind.
    pub fn take_blocks(&mut self) -> (r: Vec<ContentBlock>)
        ensures
            blocks(r@) == old(self)@.blocks,
            final(self)@ == fresh_turn(),
    {
        let mut taken: Vec<ContentBlock> = Vec::new();
        std::mem::swap(&mut self.content_blocks, &mut taken);
        self.text = String::new();
        self.tool_id = String::new();
        self.tool_name = String::new();
        self.tool_json = String::new();
        self.thinking = String::new();
        self.signature = String::new();
        self.in_thinking_block = false;
        self.stop_reason = None;
        assert(blocks(self.content_blocks@) =~= Seq::<ContentBlockView>::empty());
        taken
    }
}

} // verus!
