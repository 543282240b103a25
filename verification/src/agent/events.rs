//! What the agent tells its observer while it runs.

use crate::message::Usage;
use vstd::prelude::*;
use vstd::string::*;

verus! {

/// A notification for the user interface. Observer events are told in the
/// order in which the agent did the work, and they change nothing.
#[derive(Debug, Clone)]
pub enum AgentEvent {
    /// A piece of the assistant's text.
    TextDelta(String),
    /// A piece of the assistant's thinking.
    ThinkingDelta(String),
    /// The model asks for a tool.
    ToolStart { name: String, input: String },
    /// A tool has run; the output is clipped for display.
    ToolEnd { name: String, output: String, is_error: bool },
    /// The token counts of the run.
    Usage(Usage),
    /// The run is over; no tool call is open.
    Done,
    /// A tool call was not admitted.
    ToolBlocked { name: String, reason: String },
    /// The run was cancelled.
    Cancelled,
    /// Something failed.
    Error(String),
}

pub enum AgentEventView {
    TextDelta(Seq<char>),
    ThinkingDelta(Seq<char>),
    ToolStart { name: Seq<char>, input: Seq<char> },
    ToolEnd { name: Seq<char>, output: Seq<char>, is_error: bool },
    Usage(Usage),
    Done,
    ToolBlocked { name: Seq<char>, reason: Seq<char> },
    Cancelled,
    Error(Seq<char>),
}

impl View for AgentEvent {
    type V = AgentEventView;

    open spec fn view(&self) -> AgentEventView {
        match self {
            AgentEvent::TextDelta(t) => AgentEventView::TextDelta(t@),
            AgentEvent::ThinkingDelta(t) => AgentEventView::ThinkingDelta(t@),
            AgentEvent::ToolStart { name, input } => AgentEventView::ToolStart {
                name: name@,
                input: input@,
            },
            AgentEvent::ToolEnd { name, output, is_error } => AgentEventView::ToolEnd {
                name: name@,
                output: output@,
                is_error: *is_error,
            },
            AgentEvent::Usage(u) => AgentEventView::Usage(*u),
            AgentEvent::Done => AgentEventView::Done,
            AgentEvent::ToolBlocked { name, reason } => AgentEventView::ToolBlocked {
                name: name@,
                reason: reason@,
            },
            AgentEvent::Cancelled => AgentEventView::Cancelled,
            AgentEvent::Error(m) => AgentEventView::Error(m@),
        }
    }
}

/// The views of a run of observer events.
pub open spec fn event_views(events: Seq<AgentEvent>) -> Seq<AgentEventView> {
    events.map_values(|e: AgentEvent| e@)
}

} // verus!
