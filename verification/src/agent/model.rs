//! The mathematical model of a run of the agent: its state, the steps it
//! takes, and what holds of every run.
//!
//! A run alternates between the agent's decisions and work done outside:
//! sending a request, reading the stream, asking the user, running hooks,
//! running a tool. Each step takes the state and what happened outside and
//! yields the next state, what the observer is told, and the next piece of
//! outside work.

use crate::agent::events::AgentEventView;
use crate::agent::turn::{
    after_event, failure_of, fresh_turn, reported_usage, told_on, tool_result_ids, tool_use_ids,
    TurnView,
};
use crate::error::{api_error_text, tool_error_text, ApiError, ToolError};
use crate::json::JsonView;
use crate::message::{
    ContentBlockView, MessageView, Role, StopReason, StreamEventView, ToolResultContentView, Usage,
};
use crate::permissions::engine::{decision, DecisionView};
use crate::permissions::types::{HookEvent, PermissionRule, PromptResponse};
use crate::registry::{reads_only, ToolEntryView};
use crate::tool::{ToolOutputContentView, ToolOutputView};
use crate::util::display_text;
use vstd::prelude::*;

verus! {

/// The number of tool rounds after which a run gives up.
pub const MAX_TOOL_LOOPS: usize = 50;

/// The longest tool output, in bytes, that the observer is shown.
pub const DISPLAY_LIMIT: usize = 200;

/// The longest tool output, in bytes, that an after-tool hook is given.
pub const HOOK_LIMIT: usize = 1000;

/// Where a run stands.
#[derive(Debug, Clone, Copy, PartialEq, Eq, Structural)]
pub enum Phase {
    /// The next turn can begin.
    Ready,
    /// The request of the turn is out; the conversation travels with it.
    Sending,
    /// The response streams in.
    Streaming,
    /// The user is asked about the current tool call.
    AwaitingAnswer,
    /// The before-tool hooks of the current tool call run.
    AwaitingBeforeHooks,
    /// The current tool runs.
    AwaitingTool,
    /// The after-tool hooks of the current tool call run.
    AwaitingAfterHooks,
    /// The run is over.
    Finished,
}

/// A tool call that the model asked for.
pub struct ToolCallView {
    pub id: Seq<char>,
    pub name: Seq<char>,
    pub input: JsonView,
}

/// What a hook is told.
pub struct HookInputView {
    pub event: HookEvent,
    pub tool_name: Option<Seq<char>>,
    pub tool_input: Option<JsonView>,
    pub tool_output: Option<Seq<char>>,
    pub is_error: Option<bool>,
    pub worktree_path: Option<Seq<char>>,
    pub worktree_source: Option<Seq<char>>,
}

/// How a run ends.
pub enum OutcomeView {
    /// The run completed with this total usage.
    Completed(Usage),
    /// The run was cancelled.
    Cancelled,
    /// The API failed; the text is that of the error.
    Failed(Seq<char>),
}

/// The outside work that a step asks for.
pub enum ActionView {
    /// Send the request that carries this conversation.
    Send(Seq<MessageView>),
    /// Read the next event of the stream, unless cancellation comes first.
    ReadStream,
    /// Ask the user whether the tool may run.
    AskUser { tool: Seq<char>, input: JsonView, description: Seq<char> },
    /// Run the hooks of the event with this input.
    RunHooks(HookInputView),
    /// Run the tool, unless cancellation comes first.
    ExecuteTool { name: Seq<char>, input: JsonView },
    /// Begin the next turn.
    NextTurn,
    /// Return to the caller.
    Finish(OutcomeView),
}

/// The state of a run.
pub struct RunView {
    pub phase: Phase,
    /// The number of tool rounds completed.
    pub loops: int,
    /// The usage accumulated over the run.
    pub usage: Usage,
    /// The conversation; empty while it travels with a request.
    pub messages: Seq<MessageView>,
    /// The number of messages that the conversation held when the run began.
    pub base: int,
    /// The conversation as it stood when the current turn began.
    pub turn_start: Seq<MessageView>,
    /// The reassembly state of the current turn.
    pub turn: TurnView,
    /// The tool calls of the current turn, in the order of the response.
    pub calls: Seq<ToolCallView>,
    /// The index of the tool call at work.
    pub current: int,
    /// The results of the tool calls before `current`.
    pub results: Seq<ContentBlockView>,
    /// The output of the tool that has run and awaits its after-tool hooks.
    pub output: Option<ToolOutputView>,
}

/// What a step yields.
pub struct Transition {
    pub next: RunView,
    pub told: Seq<AgentEventView>,
    pub action: ActionView,
}

/// What decides on tool calls: plan mode, the registry, and the engine.
pub struct Policy {
    pub read_only_mode: bool,
    pub tools: Seq<ToolEntryView>,
    pub rules: Seq<PermissionRule>,
    pub session: Seq<PermissionRule>,
    pub ludicrous: bool,
    pub interactive: bool,
}

/// What the policy says of a tool call before any outside work.
pub enum Admission {
    /// Plan mode forbids a tool that does not only read.
    PlanBlocked,
    /// A rule blocks the call.
    Blocked { reason: Seq<char> },
    /// The call needs the user's consent and nobody can be asked.
    Denied,
    /// The user is to be asked.
    Ask { description: Seq<char> },
    /// The call may proceed to its hooks.
    Admitted,
}

/// The tool calls among `blocks`, in order.
pub open spec fn calls_of(blocks: Seq<ContentBlockView>) -> Seq<ToolCallView>
    decreases blocks.len(),
{
    if blocks.len() == 0 {
        Seq::empty()
    } else {
        match blocks.last() {
            ContentBlockView::ToolUse { id, name, input } => calls_of(blocks.drop_last()).push(
                ToolCallView { id, name, input },
            ),
            _ => calls_of(blocks.drop_last()),
        }
    }
}

/// The ids of a run of tool calls.
pub open spec fn call_ids(calls: Seq<ToolCallView>) -> Seq<Seq<char>> {
    calls.map_values(|c: ToolCallView| c.id)
}

/// True when `m` is an assistant message that asks for tools.
pub open spec fn asks_for_tools(m: MessageView) -> bool {
    m.role == Role::Assistant && tool_use_ids(m.content).len() > 0
}

/// True when the user message `user` answers the assistant message
/// `assistant`: it holds one tool result for each tool call, in the order
/// of the calls and under their ids, and nothing else.
pub open spec fn answers(assistant: MessageView, user: MessageView) -> bool {
    &&& user.role == Role::User
    &&& tool_result_ids(user.content) == tool_use_ids(assistant.content)
    &&& user.content.len() == tool_use_ids(assistant.content).len()
}

/// True when every assistant message at or after `base` that asks for
/// tools and is followed by a message is answered by that message.
pub open spec fn answered_from(messages: Seq<MessageView>, base: int) -> bool {
    forall|i: int|
        base <= i && i + 1 < messages.len() && asks_for_tools(#[trigger] messages[i]) ==> answers(
            messages[i],
            messages[i + 1],
        )
}

/// True when the last message at or after `base`, if there is one, does
/// not ask for tools.
pub open spec fn settled_tail(messages: Seq<MessageView>, base: int) -> bool {
    messages.len() > base ==> !asks_for_tools(messages.last())
}

/// The verdict of the policy on `call`.
pub open spec fn admission(g: Policy, call: ToolCallView) -> Admission {
    let read_only = match reads_only(g.tools, call.name) {
        Some(b) => b,
        None => false,
    };
    if g.read_only_mode && !read_only {
        Admission::PlanBlocked
    } else {
        match decision(g.rules, g.session, g.ludicrous, call.name, call.input, read_only) {
            DecisionView::Permit => Admission::Admitted,
            DecisionView::Block { reason } => Admission::Blocked { reason },
            DecisionView::Prompt { description, .. } => if g.interactive {
                Admission::Ask { description }
            } else {
                Admission::Denied
            },
        }
    }
}

/// The reason that the observer is told and the text that the model is
/// given when the policy refuses a call; none when it does not refuse.
pub open spec fn refusal(verdict: Admission) -> Option<(Seq<char>, Seq<char>)> {
    match verdict {
        Admission::PlanBlocked => Some(
            ("plan mode (read-only)"@, "Blocked: plan mode only allows read-only tools"@),
        ),
        Admission::Blocked { reason } => Some((reason, "Permission denied: "@ + reason)),
        Admission::Denied => Some(("Denied by user"@, "Permission denied by user"@)),
        _ => None,
    }
}

/// The tool result that tells the model of a refused or failed call.
pub open spec fn error_result(id: Seq<char>, text: Seq<char>) -> ContentBlockView {
    ContentBlockView::ToolResult {
        tool_use_id: id,
        content: seq![ToolResultContentView::Text { text }],
        is_error: Some(true),
    }
}

/// The texts among the items of a tool's output, in order.
pub open spec fn texts_of(items: Seq<ToolOutputContentView>) -> Seq<Seq<char>>
    decreases items.len(),
{
    if items.len() == 0 {
        Seq::empty()
    } else {
        match items.last() {
            ToolOutputContentView::Text { text } => texts_of(items.drop_last()).push(text),
            _ => texts_of(items.drop_last()),
        }
    }
}

/// The texts joined by single line feeds.
pub open spec fn join_texts(texts: Seq<Seq<char>>) -> Seq<char>
    decreases texts.len(),
{
    if texts.len() == 0 {
        Seq::empty()
    } else if texts.len() == 1 {
        texts[0]
    } else {
        join_texts(texts.drop_last()) + seq!['\n'] + texts.last()
    }
}

/// The texts of a tool's output, joined by line feeds.
pub open spec fn output_text(items: Seq<ToolOutputContentView>) -> Seq<char> {
    join_texts(texts_of(items))
}

/// The content of the tool result made of a tool's output, item by item.
pub open spec fn result_content(items: Seq<ToolOutputContentView>) -> Seq<ToolResultContentView> {
    items.map_values(
        |c: ToolOutputContentView|
            match c {
                ToolOutputContentView::Text { text } => ToolResultContentView::Text { text },
                ToolOutputContentView::Image { source } => ToolResultContentView::Image { source },
            },
    )
}

/// The tool result that carries the output of the call `id`.
pub open spec fn output_result(id: Seq<char>, output: ToolOutputView) -> ContentBlockView {
    ContentBlockView::ToolResult {
        tool_use_id: id,
        content: result_content(output.content),
        is_error: if output.is_error {
            Some(true)
        } else {
            None
        },
    }
}

/// The output of a tool run that ended in `result`: the tool's own output,
/// or the text of the error as an error output.
pub open spec fn settled_output(result: Result<ToolOutputView, ToolError>) -> ToolOutputView {
    match result {
        Ok(output) => output,
        Err(e) => ToolOutputView {
            content: seq![ToolOutputContentView::Text { text: tool_error_text(e) }],
            is_error: true,
        },
    }
}

/// What the hooks are told before the call `call` runs.
pub open spec fn before_input(call: ToolCallView) -> HookInputView {
    HookInputView {
        event: HookEvent::BeforeTool,
        tool_name: Some(call.name),
        tool_input: Some(call.input),
        tool_output: None,
        is_error: None,
        worktree_path: None,
        worktree_source: None,
    }
}

/// What the hooks are told after the call `call` has run with `output`.
pub open spec fn after_input(call: ToolCallView, output: ToolOutputView) -> HookInputView {
    HookInputView {
        event: HookEvent::AfterTool,
        tool_name: Some(call.name),
        tool_input: Some(call.input),
        tool_output: Some(display_text(output_text(output.content), HOOK_LIMIT as int)),
        is_error: Some(output.is_error),
        worktree_path: None,
        worktree_source: None,
    }
}

/// The state after the policy has refused every call from `current` on that
/// it refuses without outside work: the first call that needs outside work,
/// the results so far, and what the observer was told.
pub struct Settled {
    pub current: int,
    pub results: Seq<ContentBlockView>,
    pub told: Seq<AgentEventView>,
}

pub open spec fn settle(
    g: Policy,
    calls: Seq<ToolCallView>,
    current: int,
    results: Seq<ContentBlockView>,
    told: Seq<AgentEventView>,
) -> Settled
    decreases calls.len() - current,
{
    if current < 0 || current >= calls.len() {
        Settled { current, results, told }
    } else {
        match refusal(admission(g, calls[current])) {
            Some((reason, text)) => settle(
                g,
                calls,
                current + 1,
                results.push(error_result(calls[current].id, text)),
                told.push(AgentEventView::ToolBlocked { name: calls[current].name, reason }),
            ),
            None => Settled { current, results, told },
        }
    }
}

/// The step that admits the current call: its before-tool hooks run, or,
/// in ludicrous mode, which runs no hook, the tool itself.
pub open spec fn let_through(v: RunView, g: Policy, told: Seq<AgentEventView>) -> Transition {
    let call = v.calls[v.current];
    if g.ludicrous {
        Transition {
            next: RunView { phase: Phase::AwaitingTool, ..v },
            told,
            action: ActionView::ExecuteTool { name: call.name, input: call.input },
        }
    } else {
        Transition {
            next: RunView { phase: Phase::AwaitingBeforeHooks, ..v },
            told,
            action: ActionView::RunHooks(before_input(call)),
        }
    }
}

/// The step that goes through the calls from `v.current` on: calls that
/// the policy refuses get their error result at once; the first other call
/// is put to the user or admitted; after the last call the results go
/// into the conversation as one user message and the round is counted.
pub open spec fn dispatch(v: RunView, g: Policy, told: Seq<AgentEventView>) -> Transition {
    let s = settle(g, v.calls, v.current, v.results, told);
    if s.current >= v.calls.len() {
        Transition {
            next: RunView {
                phase: Phase::Ready,
                loops: v.loops + 1,
                messages: v.messages.push(MessageView { role: Role::User, content: s.results }),
                calls: Seq::empty(),
                current: 0,
                results: Seq::empty(),
                output: None,
                ..v
            },
            told: s.told,
            action: ActionView::NextTurn,
        }
    } else {
        let call = v.calls[s.current];
        let at = RunView { current: s.current, results: s.results, output: None, ..v };
        match admission(g, call) {
            Admission::Ask { description } => Transition {
                next: RunView { phase: Phase::AwaitingAnswer, ..at },
                told: s.told,
                action: ActionView::AskUser { tool: call.name, input: call.input, description },
            },
            _ => let_through(at, g, s.told),
        }
    }
}

/// The state at the start of a run over the conversation `messages`.
pub open spec fn initial(messages: Seq<MessageView>) -> RunView {
    RunView {
        phase: Phase::Ready,
        loops: 0,
        usage: Usage::zero(),
        messages,
        base: messages.len() as int,
        turn_start: messages,
        turn: fresh_turn(),
        calls: Seq::empty(),
        current: 0,
        results: Seq::empty(),
        output: None,
    }
}

/// The step that begins a turn: the conversation leaves with the request;
/// after `MAX_TOOL_LOOPS` rounds the run gives up instead, tells the
/// observer, and completes with the usage so far.
pub open spec fn begin_turn(v: RunView) -> Transition {
    if v.loops >= MAX_TOOL_LOOPS {
        Transition {
            next: RunView { phase: Phase::Finished, ..v },
            told: seq![AgentEventView::Error("Maximum tool-use loops reached"@)],
            action: ActionView::Finish(OutcomeView::Completed(v.usage)),
        }
    } else {
        Transition {
            next: RunView {
                phase: Phase::Sending,
                messages: Seq::empty(),
                turn_start: v.messages,
                ..v
            },
            told: Seq::empty(),
            action: ActionView::Send(v.messages),
        }
    }
}

/// The step on the answer to the request: the conversation is back; the
/// stream is read, or the run fails with the error of the request.
pub open spec fn on_opened(v: RunView, failure: Option<ApiError>) -> Transition {
    let back = RunView { messages: v.turn_start, turn: fresh_turn(), ..v };
    match failure {
        None => Transition {
            next: RunView { phase: Phase::Streaming, ..back },
            told: Seq::empty(),
            action: ActionView::ReadStream,
        },
        Some(e) => Transition {
            next: RunView { phase: Phase::Finished, ..back },
            told: Seq::empty(),
            action: ActionView::Finish(OutcomeView::Failed(api_error_text(e))),
        },
    }
}

/// The usage after `extra` has been added, where there is any.
pub open spec fn with_usage(usage: Usage, extra: Option<Usage>) -> Usage {
    match extra {
        Some(u) => usage.plus(u),
        None => usage,
    }
}

/// The text of the error that an `error` event of the stream stands for.
pub open spec fn stream_error_text(message: Seq<char>) -> Seq<char> {
    "Server error: 0 "@ + message
}

/// The step on an event of the stream.
pub open spec fn on_event(v: RunView, e: StreamEventView) -> Transition {
    let next = RunView {
        turn: after_event(v.turn, e),
        usage: with_usage(v.usage, reported_usage(e)),
        ..v
    };
    match failure_of(e) {
        Some(message) => Transition {
            next: RunView { phase: Phase::Finished, ..next },
            told: told_on(e),
            action: ActionView::Finish(OutcomeView::Failed(stream_error_text(message))),
        },
        None => Transition { next, told: told_on(e), action: ActionView::ReadStream },
    }
}

/// The step on a failure of the stream.
pub open spec fn on_stream_failure(v: RunView, e: ApiError) -> Transition {
    Transition {
        next: RunView { phase: Phase::Finished, ..v },
        told: seq![AgentEventView::Error(api_error_text(e))],
        action: ActionView::Finish(OutcomeView::Failed(api_error_text(e))),
    }
}

/// The step on the end of the stream. The blocks of the turn, if any, are
/// committed as one assistant message. Without a tool call, or with the
/// stop reason `end_turn`, the run completes; otherwise the tool calls
/// are gone through.
pub open spec fn on_stream_end(v: RunView, g: Policy) -> Transition {
    let committed = if v.turn.blocks.len() > 0 {
        v.messages.push(MessageView { role: Role::Assistant, content: v.turn.blocks })
    } else {
        v.messages
    };
    let calls = calls_of(v.turn.blocks);
    if calls.len() == 0 || v.turn.stop_reason == Some(StopReason::EndTurn) {
        Transition {
            next: RunView {
                phase: Phase::Finished,
                messages: committed,
                turn: fresh_turn(),
                ..v
            },
            told: seq![AgentEventView::Done, AgentEventView::Usage(v.usage)],
            action: ActionView::Finish(OutcomeView::Completed(v.usage)),
        }
    } else {
        dispatch(
            RunView {
                messages: committed,
                turn: fresh_turn(),
                calls,
                current: 0,
                results: Seq::empty(),
                output: None,
                ..v
            },
            g,
            Seq::empty(),
        )
    }
}

/// The step on cancellation, which comes while the stream is read or while
/// a tool runs: the conversation is as it was when the turn began.
pub open spec fn on_cancel(v: RunView) -> Transition {
    Transition {
        next: RunView { phase: Phase::Finished, messages: v.turn_start, ..v },
        told: seq![AgentEventView::Cancelled],
        action: ActionView::Finish(OutcomeView::Cancelled),
    }
}

/// The step that gives the current call an error result and goes on with
/// the next call.
pub open spec fn refuse_current(
    v: RunView,
    g: Policy,
    reason: Seq<char>,
    text: Seq<char>,
) -> Transition {
    let call = v.calls[v.current];
    dispatch(
        RunView {
            current: v.current + 1,
            results: v.results.push(error_result(call.id, text)),
            ..v
        },
        g,
        seq![AgentEventView::ToolBlocked { name: call.name, reason }],
    )
}

/// The step on the user's answer. `g` is the policykeeping after the answer
/// has been taken in: "always allow" has added its session rule.
pub open spec fn on_answer(v: RunView, g: Policy, response: PromptResponse) -> Transition {
    match response {
        PromptResponse::Deny => refuse_current(
            v,
            g,
            "Denied by user"@,
            "Permission denied by user"@,
        ),
        _ => let_through(v, g, Seq::empty()),
    }
}

/// The step on the verdict of the before-tool hooks: a denial refuses the
/// call, otherwise the tool runs.
pub open spec fn on_before_hooks(v: RunView, g: Policy, denial: Option<Seq<char>>) -> Transition {
    match denial {
        Some(reason) => refuse_current(v, g, reason, "Blocked by hook: "@ + reason),
        None => {
            let call = v.calls[v.current];
            Transition {
                next: RunView { phase: Phase::AwaitingTool, ..v },
                told: Seq::empty(),
                action: ActionView::ExecuteTool { name: call.name, input: call.input },
            }
        },
    }
}

/// The step that records the output of the current call as its result and
/// goes on with the next call.
pub open spec fn record_output(
    v: RunView,
    g: Policy,
    output: ToolOutputView,
    told: Seq<AgentEventView>,
) -> Transition {
    let call = v.calls[v.current];
    dispatch(
        RunView {
            current: v.current + 1,
            results: v.results.push(output_result(call.id, output)),
            output: None,
            ..v
        },
        g,
        told,
    )
}

/// The step on the end of the tool. The observer is shown the output,
/// clipped; then the after-tool hooks run, or, in ludicrous mode, the
/// result is recorded at once.
pub open spec fn on_tool_end(
    v: RunView,
    g: Policy,
    result: Result<ToolOutputView, ToolError>,
) -> Transition {
    let call = v.calls[v.current];
    let output = settled_output(result);
    let told = seq![
        AgentEventView::ToolEnd {
            name: call.name,
            output: display_text(output_text(output.content), DISPLAY_LIMIT as int),
            is_error: output.is_error,
        },
    ];
    if g.ludicrous {
        record_output(v, g, output, told)
    } else {
        Transition {
            next: RunView { phase: Phase::AwaitingAfterHooks, output: Some(output), ..v },
            told,
            action: ActionView::RunHooks(after_input(call, output)),
        }
    }
}

/// The step on the end of the after-tool hooks, whose verdict changes
/// nothing: the result is recorded.
pub open spec fn on_after_hooks(v: RunView, g: Policy) -> Transition {
    record_output(v, g, v.output->0, Seq::empty())
}

/// What holds of the state of every run. Until the run is finished, each
/// completed tool round has added two messages to those that the run
/// began with: the assistant message with the tool calls and the user
/// message with their results.
pub open spec fn run_wf(v: RunView) -> bool {
    &&& 0 <= v.base
    &&& 0 <= v.loops <= MAX_TOOL_LOOPS
    &&& match v.phase {
        Phase::Ready => {
            &&& v.messages.len() == v.base + 2 * v.loops
            &&& answered_from(v.messages, v.base)
            &&& settled_tail(v.messages, v.base)
        },
        Phase::Sending => {
            &&& v.messages.len() == 0
            &&& v.turn_start.len() == v.base + 2 * v.loops
            &&& answered_from(v.turn_start, v.base)
            &&& settled_tail(v.turn_start, v.base)
            &&& v.loops < MAX_TOOL_LOOPS
        },
        Phase::Streaming => {
            &&& v.messages == v.turn_start
            &&& v.messages.len() == v.base + 2 * v.loops
            &&& answered_from(v.messages, v.base)
            &&& settled_tail(v.messages, v.base)
            &&& v.loops < MAX_TOOL_LOOPS
        },
        Phase::Finished => {
            &&& v.base <= v.messages.len()
            &&& answered_from(v.messages, v.base)
        },
        _ => {
            &&& v.turn_start.len() == v.base + 2 * v.loops
            &&& answered_from(v.turn_start, v.base)
            &&& settled_tail(v.turn_start, v.base)
            &&& v.loops < MAX_TOOL_LOOPS
            &&& v.messages.len() == v.turn_start.len() + 1
            &&& v.messages.drop_last() == v.turn_start
            &&& v.messages.last().role == Role::Assistant
            &&& tool_use_ids(v.messages.last().content) == call_ids(v.calls)
            &&& 0 <= v.current < v.calls.len()
            &&& v.results.len() == v.current
            &&& tool_result_ids(v.results) == call_ids(v.calls).subrange(0, v.current)
            &&& (v.phase == Phase::AwaitingAfterHooks ==> v.output is Some)
        },
    }
}

} // verus!
