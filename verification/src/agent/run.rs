//! The state machine of a run: the agent's decisions between the pieces
//! of work that are done outside.
//!
//! The caller drives the run. It performs each action that a step asks
//! for and reports how it ended; the step answers with what the observer
//! is to be told and with the next action. The run owns the conversation
//! from its start to its end.

use crate::agent::events::{event_views, AgentEvent, AgentEventView};
use crate::agent::laws::{
    dispatching, lemma_call_ids, lemma_dispatch_keeps_wf, lemma_result_ids_push,
    lemma_stream_end_keeps_wf,
};
use crate::agent::model::{
    begin_turn, call_ids, calls_of, dispatch, error_result, admission, initial, join_texts,
    let_through, on_after_hooks, on_answer, on_before_hooks, on_cancel, on_event, on_opened,
    on_stream_end, on_stream_failure, on_tool_end, output_result, output_text, record_output,
    refuse_current, result_content, run_wf, settle, texts_of, ActionView, Admission, Policy,
    HookInputView, OutcomeView, Phase, RunView, ToolCallView, Transition, DISPLAY_LIMIT,
    HOOK_LIMIT, MAX_TOOL_LOOPS,
};
use crate::agent::request::Agent;
use crate::agent::turn::{tool_result_ids, tool_use_ids, TurnState};
use crate::error::{api_error_text, chet_error_text, ApiError, ChetError, ToolError};
use crate::json::{Json, JsonView};
use crate::message::{
    blocks, opt_text, result_items, transcript, ContentBlock, ContentBlockView,
    CreateMessageRequest, Message, MessageView, Role, StopReason, StreamEvent,
    ToolResultContent, ToolResultContentView, Usage,
};
use crate::permissions::types::{
    HookEvent, HookInput, PermissionDecision, PermissionLevel, PermissionRule, PromptResponse,
};
use crate::tool::{output_items, ToolOutput, ToolOutputContent, ToolOutputContentView, ToolOutputView};
use crate::util::truncate_for_display;
use crate::text::{join2};
use vstd::prelude::*;
use vstd::string::*;

verus! {

/// A tool call that the model asked for.
#[derive(Debug)]
pub struct ToolCall {
    pub id: String,
    pub name: String,
    pub input: Json,
}

impl View for ToolCall {
    type V = ToolCallView;

    open spec fn view(&self) -> ToolCallView {
        ToolCallView { id: self.id@, name: self.name@, input: self.input@ }
    }
}

/// The views of a run of tool calls.
pub open spec fn call_views(calls: Seq<ToolCall>) -> Seq<ToolCallView> {
    calls.map_values(|c: ToolCall| c@)
}

/// The view of an optional JSON value.
pub open spec fn opt_json(o: Option<Json>) -> Option<JsonView> {
    match o {
        Some(j) => Some(j@),
        None => None,
    }
}

impl View for HookInput {
    type V = HookInputView;

    open spec fn view(&self) -> HookInputView {
        HookInputView {
            event: self.event,
            tool_name: opt_text(self.tool_name),
            tool_input: opt_json(self.tool_input),
            tool_output: opt_text(self.tool_output),
            is_error: self.is_error,
            worktree_path: opt_text(self.worktree_path),
            worktree_source: opt_text(self.worktree_source),
        }
    }
}

/// The outside work that a step asks for.
#[derive(Debug)]
pub enum Action {
    /// Send this request and report whether the stream opened.
    Send(CreateMessageRequest),
    /// Read the next event of the stream, racing cancellation.
    ReadStream,
    /// Ask the user whether the tool may run.
    AskUser { tool_name: String, tool_input: Json, description: String },
    /// Run the hooks of the input's event and report their verdict.
    RunHooks(HookInput),
    /// Run the tool, racing cancellation.
    ExecuteTool { name: String, input: Json },
    /// Begin the next turn.
    NextTurn,
    /// Return this result to the caller.
    Finish(Result<Usage, ChetError>),
}

/// The view of the result of a run.
pub open spec fn outcome_view(r: Result<Usage, ChetError>) -> OutcomeView {
    match r {
        Ok(u) => OutcomeView::Completed(u),
        Err(ChetError::Cancelled) => OutcomeView::Cancelled,
        Err(ChetError::Api(e)) => OutcomeView::Failed(api_error_text(e)),
        Err(other) => OutcomeView::Failed(chet_error_text(other)),
    }
}

impl View for Action {
    type V = ActionView;

    open spec fn view(&self) -> ActionView {
        match self {
            Action::Send(request) => ActionView::Send(transcript(request.messages@)),
            Action::ReadStream => ActionView::ReadStream,
            Action::AskUser { tool_name, tool_input, description } => ActionView::AskUser {
                tool: tool_name@,
                input: tool_input@,
                description: description@,
            },
            Action::RunHooks(input) => ActionView::RunHooks(input@),
            Action::ExecuteTool { name, input } => ActionView::ExecuteTool {
                name: name@,
                input: input@,
            },
            Action::NextTurn => ActionView::NextTurn,
            Action::Finish(r) => ActionView::Finish(outcome_view(*r)),
        }
    }
}

/// What a step hands to the caller: what the observer is to be told, in
/// order, and the next piece of outside work.
#[derive(Debug)]
pub struct Step {
    pub events: Vec<AgentEvent>,
    pub action: Action,
}

impl Step {
    /// True when the step is the one that the transition `t` describes.
    pub open spec fn is(self, t: Transition) -> bool {
        event_views(self.events@) == t.told && self.action@ == t.action
    }
}

/// What the policy says of a tool call.
#[derive(Debug)]
pub enum Verdict {
    PlanBlocked,
    Blocked { reason: String },
    Denied,
    Ask { description: String },
    Admitted,
}

impl View for Verdict {
    type V = Admission;

    open spec fn view(&self) -> Admission {
        match self {
            Verdict::PlanBlocked => Admission::PlanBlocked,
            Verdict::Blocked { reason } => Admission::Blocked { reason: reason@ },
            Verdict::Denied => Admission::Denied,
            Verdict::Ask { description } => Admission::Ask { description: description@ },
            Verdict::Admitted => Admission::Admitted,
        }
    }
}

/// What decides on the tool calls of `agent`.
pub open spec fn keeping(agent: Agent) -> Policy {
    Policy {
        read_only_mode: agent.read_only_mode,
        tools: agent.registry@,
        rules: agent.permissions.rules(),
        session: agent.permissions.session_rules(),
        ludicrous: agent.permissions.is_ludicrous(),
        interactive: agent.permissions.interactive(),
    }
}

/// Asks the policy about a tool call.
pub fn ask_policy(agent: &Agent, call: &ToolCall) -> (g: Verdict)
    ensures
        g@ == admission(keeping(*agent), call@),
{
    let read_only = match agent.registry.is_read_only(call.name.as_str()) {
        Some(b) => b,
        None => false,
    };
    if agent.read_only_mode && !read_only {
        return Verdict::PlanBlocked;
    }
    match agent.permissions.check(call.name.as_str(), &call.input, read_only) {
        PermissionDecision::Permit => Verdict::Admitted,
        PermissionDecision::Block { reason } => Verdict::Blocked { reason },
        PermissionDecision::Prompt { description, .. } => {
            match agent.permissions.unattended_answer() {
                Some(_) => Verdict::Denied,
                None => Verdict::Ask { description },
            }
        },
    }
}

/// The tool result that tells the model of a refused or failed call.
pub fn make_error_result(id: &str, text: String) -> (r: ContentBlock)
    ensures
        r@ == error_result(id@, text@),
{
    let mut content: Vec<ToolResultContent> = Vec::new();
    content.push(ToolResultContent::Text { text });
    let r = ContentBlock::ToolResult {
        tool_use_id: id.to_owned(),
        content,
        is_error: Some(true),
    };
    assert(r@->ToolResult_content =~= seq![ToolResultContentView::Text { text: text@ }]);
    r
}

/// The tool calls among `items`, in order.
pub fn extract_calls(items: &Vec<ContentBlock>) -> (calls: Vec<ToolCall>)
    ensures
        call_views(calls@) == calls_of(blocks(items@)),
{
    let mut calls: Vec<ToolCall> = Vec::new();
    let mut i: usize = 0;
    let ghost all = blocks(items@);
    assert(all.subrange(0, 0) =~= Seq::<ContentBlockView>::empty());
    assert(call_views(calls@) =~= calls_of(all.subrange(0, 0)));
    while i < items.len()
        invariant
            i <= items@.len(),
            all == blocks(items@),
            call_views(calls@) == calls_of(all.subrange(0, i as int)),
        decreases items.len() - i,
    {
        let ghost before = call_views(calls@);
        assert(all.subrange(0, i + 1).drop_last() =~= all.subrange(0, i as int));
        assert(all.subrange(0, i + 1).last() == items@[i as int]@);
        match &items[i] {
            ContentBlock::ToolUse { id, name, input } => {
                let call = ToolCall { id: id.clone(), name: name.clone(), input: input.duplicate() };
                calls.push(call);
                assert(call_views(calls@) =~= before.push(call@));
            },
            _ => {},
        }
        i += 1;
    }
    assert(all.subrange(0, items@.len() as int) =~= all);
    calls
}

/// The texts of a tool's output, joined by line feeds.
pub fn collect_output_text(output: &ToolOutput) -> (text: String)
    ensures
        text@ == output_text(output@.content),
{
    let mut text = String::new();
    let mut seen = false;
    let mut i: usize = 0;
    let ghost all = output@.content;
    assert(all.subrange(0, 0) =~= Seq::<ToolOutputContentView>::empty());
    while i < output.content.len()
        invariant
            i <= output.content@.len(),
            all == output_items(output.content@),
            seen == (texts_of(all.subrange(0, i as int)).len() > 0),
            text@ == join_texts(texts_of(all.subrange(0, i as int))),
        decreases output.content.len() - i,
    {
        let ghost head = texts_of(all.subrange(0, i as int));
        assert(all.subrange(0, i + 1).drop_last() =~= all.subrange(0, i as int));
        assert(all.subrange(0, i + 1).last() == output.content@[i as int]@);
        match &output.content[i] {
            ToolOutputContent::Text { text: piece } => {
                assert(head.push(piece@).drop_last() =~= head);
                if seen {
                    text.append("\n");
                    proof {
                        reveal_strlit("\n");
                        assert("\n"@ =~= seq!['\n']);
                    }
                }
                text.append(piece.as_str());
                seen = true;
            },
            _ => {},
        }
        i += 1;
    }
    assert(all.subrange(0, output.content@.len() as int) =~= all);
    text
}

/// The content of the tool result made of a tool's output.
pub fn convert_output(items: Vec<ToolOutputContent>) -> (r: Vec<ToolResultContent>)
    ensures
        result_items(r@) == result_content(output_items(items@)),
{
    let mut out: Vec<ToolResultContent> = Vec::new();
    let mut i: usize = 0;
    while i < items.len()
        invariant
            i <= items@.len(),
            out@.len() == i,
            forall|k: int|
                0 <= k < i ==> out@[k]@ == result_content(output_items(items@))[k],
        decreases items.len() - i,
    {
        let converted = match &items[i] {
            ToolOutputContent::Text { text } => ToolResultContent::Text { text: text.clone() },
            ToolOutputContent::Image { source } => ToolResultContent::Image {
                source: source.duplicate(),
            },
        };
        out.push(converted);
        i += 1;
    }
    assert(result_items(out@) =~= result_content(output_items(items@)));
    out
}

/// A run of the agent over a conversation.
pub struct AgentRun {
    phase: Phase,
    loops: usize,
    total_usage: Usage,
    messages: Vec<Message>,
    turn: TurnState,
    calls: Vec<ToolCall>,
    current: usize,
    results: Vec<ContentBlock>,
    output: Option<ToolOutput>,
    base: Ghost<int>,
    turn_start: Ghost<Seq<MessageView>>,
}

impl View for AgentRun {
    type V = RunView;

    closed spec fn view(&self) -> RunView {
        RunView {
            phase: self.phase,
            loops: self.loops as int,
            usage: self.total_usage,
            messages: transcript(self.messages@),
            base: self.base@,
            turn_start: self.turn_start@,
            turn: self.turn@,
            calls: call_views(self.calls@),
            current: self.current as int,
            results: blocks(self.results@),
            output: match self.output {
                Some(o) => Some(o@),
                None => None,
            },
        }
    }
}

impl AgentRun {
    /// What holds of every run, whatever has happened.
    pub open spec fn wf(&self) -> bool {
        run_wf(self@)
    }

    /// Begins a run over the conversation `messages`.
    pub fn start(messages: Vec<Message>) -> (run: Self)
        ensures
            run@ == initial(transcript(messages@)),
            run.wf(),
    {
        let run = AgentRun {
            phase: Phase::Ready,
            loops: 0,
            total_usage: Usage::default(),
            turn: TurnState::new(),
            calls: Vec::new(),
            current: 0,
            results: Vec::new(),
            output: None,
            base: Ghost(messages@.len() as int),
            turn_start: Ghost(transcript(messages@)),
            messages,
        };
        assert(run@.calls =~= Seq::<ToolCallView>::empty());
        assert(run@.results =~= Seq::<ContentBlockView>::empty());
        run
    }

    /// Where the run stands.
    pub fn phase(&self) -> (p: Phase)
        ensures
            p == self@.phase,
    {
        self.phase
    }

    /// The usage accumulated so far.
    pub fn usage(&self) -> (u: Usage)
        ensures
            u == self@.usage,
    {
        self.total_usage
    }

    /// The conversation as the run holds it.
    pub fn messages(&self) -> (m: &Vec<Message>)
        ensures
            transcript(m@) == self@.messages,
    {
        &self.messages
    }

    /// Ends the run and hands the conversation back.
    pub fn into_messages(self) -> (m: Vec<Message>)
        ensures
            transcript(m@) == self@.messages,
    {
        self.messages
    }

    /// Begins the next turn: the request to send, or the end of the run
    /// when the limit of tool rounds is reached.
    pub fn next_turn(&mut self, agent: &Agent) -> (step: Step)
        requires
            old(self).wf(),
            old(self)@.phase == Phase::Ready,
        ensures
            final(self)@ == begin_turn(old(self)@).next,
            step.is(begin_turn(old(self)@)),
            final(self).wf(),
            step.action matches Action::Send(request) ==> agent.shapes(request),
    {
        let mut events: Vec<AgentEvent> = Vec::new();
        if self.loops >= MAX_TOOL_LOOPS {
            let told = AgentEvent::Error("Maximum tool-use loops reached".to_owned());
            events.push(told);
            assert(event_views(events@) =~= seq![told@]);
            self.phase = Phase::Finished;
            return Step { events, action: Action::Finish(Ok(self.total_usage)) };
        }
        let mut taken: Vec<Message> = Vec::new();
        std::mem::swap(&mut self.messages, &mut taken);
        proof {
            self.turn_start = Ghost(transcript(taken@));
        }
        self.phase = Phase::Sending;
        let request = agent.build_request(taken);
        assert(event_views(events@) =~= Seq::<AgentEventView>::empty());
        assert(transcript(self.messages@) =~= Seq::<MessageView>::empty());
        Step { events, action: Action::Send(request) }
    }

    /// Takes the conversation back from the request and reads the stream,
    /// or ends the run with the error of the request.
    pub fn stream_opened(&mut self, request: CreateMessageRequest, failure: Option<ApiError>) -> (step:
        Step)
        requires
            old(self).wf(),
            old(self)@.phase == Phase::Sending,
            transcript(request.messages@) == old(self)@.turn_start,
        ensures
            final(self)@ == on_opened(old(self)@, failure).next,
            step.is(on_opened(old(self)@, failure)),
            failure matches Some(f) ==> step.action matches Action::Finish(
                Err(ChetError::Api(e)),
            ) && e == f,
            final(self).wf(),
    {
        let events: Vec<AgentEvent> = Vec::new();
        assert(event_views(events@) =~= Seq::<AgentEventView>::empty());
        self.messages = request.messages;
        self.turn = TurnState::new();
        match failure {
            None => {
                self.phase = Phase::Streaming;
                Step { events, action: Action::ReadStream }
            },
            Some(e) => {
                self.phase = Phase::Finished;
                Step { events, action: Action::Finish(Err(ChetError::Api(e))) }
            },
        }
    }

    /// Takes in the next event of the stream.
    pub fn stream_event(&mut self, event: StreamEvent) -> (step: Step)
        requires
            old(self).wf(),
            old(self)@.phase == Phase::Streaming,
        ensures
            final(self)@ == on_event(old(self)@, event@).next,
            step.is(on_event(old(self)@, event@)),
            event matches StreamEvent::Error { error } ==> step.action matches Action::Finish(
                Err(ChetError::Api(ApiError::Server { status, message })),
            ) && status == 0 && message@ == error.message@,
            !(event is Error) ==> step.action is ReadStream,
            final(self).wf(),
    {
        let handled = self.turn.handle(event);
        match handled.usage {
            Some(u) => {
                self.total_usage.add(&u);
            },
            None => {},
        }
        match handled.error {
            Some(e) => {
                self.phase = Phase::Finished;
                proof {
                    reveal_strlit("Server error: ");
                    reveal_strlit("Server error: 0 ");
                    reveal_strlit(" ");
                    reveal_with_fuel(crate::text::decimal, 2);
                    assert("Server error: "@ + crate::text::decimal(0) + " "@
                        =~= "Server error: 0 "@);
                }
                Step { events: handled.events, action: Action::Finish(Err(ChetError::Api(e))) }
            },
            None => Step { events: handled.events, action: Action::ReadStream },
        }
    }

    /// Ends the run on a failure of the stream.
    pub fn stream_failed(&mut self, error: ApiError) -> (step: Step)
        requires
            old(self).wf(),
            old(self)@.phase == Phase::Streaming,
        ensures
            final(self)@ == on_stream_failure(old(self)@, error).next,
            step.is(on_stream_failure(old(self)@, error)),
            step.action matches Action::Finish(Err(ChetError::Api(e))) && e == error,
            final(self).wf(),
    {
        let mut events: Vec<AgentEvent> = Vec::new();
        let told = AgentEvent::Error(error.to_string());
        events.push(told);
        assert(event_views(events@) =~= seq![told@]);
        self.phase = Phase::Finished;
        Step { events, action: Action::Finish(Err(ChetError::Api(error))) }
    }

    /// Ends the run on cancellation, which may come while the stream is
    /// read or while a tool runs. The assistant message of a turn that was
    /// cancelled while its tool ran is taken out of the conversation again.
    pub fn cancelled(&mut self) -> (step: Step)
        requires
            old(self).wf(),
            old(self)@.phase == Phase::Streaming || old(self)@.phase == Phase::AwaitingTool,
        ensures
            final(self)@ == on_cancel(old(self)@).next,
            step.is(on_cancel(old(self)@)),
            final(self).wf(),
    {
        let mut events: Vec<AgentEvent> = Vec::new();
        events.push(AgentEvent::Cancelled);
        assert(event_views(events@) =~= seq![AgentEventView::Cancelled]);
        if self.phase == Phase::AwaitingTool {
            let ghost before = transcript(self.messages@);
            let n: usize = self.messages.len();
            if n > 0 && self.messages[n - 1].role == Role::Assistant {
                self.messages.pop();
            }
            assert(transcript(self.messages@) =~= before.drop_last());
        }
        self.phase = Phase::Finished;
        Step { events, action: Action::Finish(Err(ChetError::Cancelled)) }
    }

    /// Lets the current call through to its hooks or, in ludicrous mode,
    /// to the tool.
    fn proceed(&mut self, agent: &Agent, events: Vec<AgentEvent>) -> (step: Step)
        requires
            old(self)@.current < old(self)@.calls.len(),
        ensures
            final(self)@ == let_through(old(self)@, keeping(*agent), event_views(events@)).next,
            step.is(let_through(old(self)@, keeping(*agent), event_views(events@))),
    {
        assert(self@.calls[self.current as int] == self.calls@[self.current as int]@);
        let call = &self.calls[self.current];
        if agent.permissions.in_ludicrous_mode() {
            let action = Action::ExecuteTool {
                name: call.name.clone(),
                input: call.input.duplicate(),
            };
            self.phase = Phase::AwaitingTool;
            Step { events, action }
        } else {
            let input = HookInput {
                event: HookEvent::BeforeTool,
                tool_name: Some(call.name.clone()),
                tool_input: Some(call.input.duplicate()),
                tool_output: None,
                is_error: None,
                worktree_path: None,
                worktree_source: None,
            };
            self.phase = Phase::AwaitingBeforeHooks;
            Step { events, action: Action::RunHooks(input) }
        }
    }

    /// Goes through the calls from the current one on.
    fn dispatch_calls(&mut self, agent: &Agent, events: Vec<AgentEvent>) -> (step: Step)
        requires
            dispatching(old(self)@),
        ensures
            final(self)@ == dispatch(old(self)@, keeping(*agent), event_views(events@)).next,
            step.is(dispatch(old(self)@, keeping(*agent), event_views(events@))),
            final(self).wf(),
    {
        self.output = None;
        let ghost g = keeping(*agent);
        let ghost start = self@;
        let ghost told = event_views(events@);
        let mut events = events;
        let mut asked: Option<String> = None;
        proof {
            lemma_dispatch_keeps_wf(start, g, told);
            assert(dispatch(start, g, told) == dispatch(old(self)@, g, told));
        }
        while self.current < self.calls.len()
            invariant_except_break
                asked is None,
            invariant
                g == keeping(*agent),
                self@ == (RunView { current: self@.current, results: self@.results, ..start }),
                0 <= self@.current <= self@.calls.len(),
                settle(g, start.calls, self@.current, self@.results, event_views(events@)) == settle(
                    g,
                    start.calls,
                    start.current,
                    start.results,
                    told,
                ),
            ensures
                g == keeping(*agent),
                self@ == (RunView { current: self@.current, results: self@.results, ..start }),
                0 <= self@.current <= self@.calls.len(),
                settled_at(g, start, self@, event_views(events@), told),
                self@.current < self@.calls.len() ==> match admission(g, start.calls[self@.current]) {
                    Admission::Ask { description } => asked matches Some(d) && d@ == description,
                    _ => asked is None,
                },
            decreases self.calls.len() - self.current,
        {
            assert(self@.calls[self.current as int] == self.calls@[self.current as int]@);
            let ghost results = self@.results;
            let ghost seen = event_views(events@);
            let call = &self.calls[self.current];
            let refused = match ask_policy(agent, call) {
                Verdict::PlanBlocked => Some(
                    (
                        "plan mode (read-only)".to_owned(),
                        "Blocked: plan mode only allows read-only tools".to_owned(),
                    ),
                ),
                Verdict::Blocked { reason } => {
                    let text = join2("Permission denied: ", reason.as_str());
                    Some((reason, text))
                },
                Verdict::Denied => Some(
                    ("Denied by user".to_owned(), "Permission denied by user".to_owned()),
                ),
                Verdict::Ask { description } => {
                    asked = Some(description);
                    None
                },
                Verdict::Admitted => None,
            };
            match refused {
                Some((reason, text)) => {
                    let block = make_error_result(call.id.as_str(), text);
                    let event = AgentEvent::ToolBlocked { name: call.name.clone(), reason };
                    self.results.push(block);
                    events.push(event);
                    self.current = self.current + 1;
                    assert(blocks(self.results@) =~= results.push(block@));
                    assert(event_views(events@) =~= seen.push(event@));
                },
                None => {
                    break ;
                },
            }
        }
        if self.current >= self.calls.len() {
            let mut content: Vec<ContentBlock> = Vec::new();
            std::mem::swap(&mut self.results, &mut content);
            let ghost before = transcript(self.messages@);
            let user = Message { role: Role::User, content };
            self.messages.push(user);
            self.loops = self.loops + 1;
            self.phase = Phase::Ready;
            self.calls = Vec::new();
            self.current = 0;
            self.output = None;
            assert(transcript(self.messages@) =~= before.push(user@));
            assert(call_views(self.calls@) =~= Seq::<ToolCallView>::empty());
            assert(blocks(self.results@) =~= Seq::<ContentBlockView>::empty());
            Step { events, action: Action::NextTurn }
        } else {
            assert(self@.calls[self.current as int] == self.calls@[self.current as int]@);
            match asked {
                Some(description) => {
                    let call = &self.calls[self.current];
                    let action = Action::AskUser {
                        tool_name: call.name.clone(),
                        tool_input: call.input.duplicate(),
                        description,
                    };
                    self.phase = Phase::AwaitingAnswer;
                    Step { events, action }
                },
                None => self.proceed(agent, events),
            }
        }
    }
}

/// True when the calls have been gone through from the state `start` up to
/// the state `now`, where the policy stops.
pub open spec fn settled_at(
    g: Policy,
    start: RunView,
    now: RunView,
    seen: Seq<AgentEventView>,
    told: Seq<AgentEventView>,
) -> bool {
    let s = settle(g, start.calls, start.current, start.results, told);
    s.current == now.current && s.results == now.results && s.told == seen
}

impl AgentRun {
    /// Closes the turn at the end of the stream. The blocks of the turn
    /// are committed as one assistant message; then the run completes, or
    /// the tool calls of the message are gone through.
    pub fn stream_ended(&mut self, agent: &Agent) -> (step: Step)
        requires
            old(self).wf(),
            old(self)@.phase == Phase::Streaming,
        ensures
            final(self)@ == on_stream_end(old(self)@, keeping(*agent)).next,
            step.is(on_stream_end(old(self)@, keeping(*agent))),
            final(self).wf(),
    {
        proof {
            lemma_stream_end_keeps_wf(self@, keeping(*agent));
            lemma_call_ids(self@.turn.blocks);
        }
        let stop_reason = self.turn.stop_reason();
        let content = self.turn.take_blocks();
        let calls = extract_calls(&content);
        let ghost before = transcript(self.messages@);
        if content.len() > 0 {
            let assistant = Message { role: Role::Assistant, content };
            self.messages.push(assistant);
            assert(transcript(self.messages@) =~= before.push(assistant@));
        }
        let ends = match stop_reason {
            Some(StopReason::EndTurn) => true,
            _ => false,
        };
        let mut events: Vec<AgentEvent> = Vec::new();
        if calls.len() == 0 || ends {
            events.push(AgentEvent::Done);
            events.push(AgentEvent::Usage(self.total_usage));
            assert(event_views(events@) =~= seq![
                AgentEventView::Done,
                AgentEventView::Usage(self.total_usage),
            ]);
            self.phase = Phase::Finished;
            return Step { events, action: Action::Finish(Ok(self.total_usage)) };
        }
        self.calls = calls;
        self.current = 0;
        self.results = Vec::new();
        self.output = None;
        assert(blocks(self.results@) =~= Seq::<ContentBlockView>::empty());
        assert(event_views(events@) =~= Seq::<AgentEventView>::empty());
        proof {
            assert(tool_use_ids(old(self)@.turn.blocks).len() > 0);
            assert(transcript(self.messages@).drop_last() =~= before);
            assert(call_ids(self@.calls).subrange(0, 0) =~= tool_result_ids(
                Seq::<ContentBlockView>::empty(),
            ));
        }
        self.dispatch_calls(agent, events)
    }

    /// Gives the current call an error result and goes on.
    fn refuse(&mut self, agent: &Agent, reason: String, text: String) -> (step: Step)
        requires
            dispatching(old(self)@),
            old(self)@.current < old(self)@.calls.len(),
        ensures
            final(self)@ == refuse_current(old(self)@, keeping(*agent), reason@, text@).next,
            step.is(refuse_current(old(self)@, keeping(*agent), reason@, text@)),
            final(self).wf(),
    {
        assert(self@.calls[self.current as int] == self.calls@[self.current as int]@);
        let ghost results = self@.results;
        let call = &self.calls[self.current];
        let block = make_error_result(call.id.as_str(), text);
        let event = AgentEvent::ToolBlocked { name: call.name.clone(), reason };
        let mut events: Vec<AgentEvent> = Vec::new();
        events.push(event);
        assert(event_views(events@) =~= seq![event@]);
        proof {
            lemma_result_ids_push(results, block@);
            assert(call_ids(self@.calls).subrange(0, self.current + 1) =~= call_ids(
                self@.calls,
            ).subrange(0, self.current as int).push(call@.id));
        }
        let count: usize = self.calls.len();
        assert(self.current < count);
        self.results.push(block);
        self.current = self.current + 1;
        assert(blocks(self.results@) =~= results.push(block@));
        self.dispatch_calls(agent, events)
    }

    /// Takes in the user's answer to the question about the current call.
    /// "Always allow" adds a session rule that permits the tool, before
    /// the call goes on.
    pub fn answered(&mut self, agent: &mut Agent, response: PromptResponse) -> (step: Step)
        requires
            old(self).wf(),
            old(self)@.phase == Phase::AwaitingAnswer,
        ensures
            final(self)@ == on_answer(old(self)@, keeping(*final(agent)), response).next,
            step.is(on_answer(old(self)@, keeping(*final(agent)), response)),
            final(self).wf(),
            final(agent).registry == old(agent).registry,
            final(agent).read_only_mode == old(agent).read_only_mode,
            final(agent).permissions.rules() == old(agent).permissions.rules(),
            final(agent).permissions.is_ludicrous() == old(agent).permissions.is_ludicrous(),
            final(agent).permissions.interactive() == old(agent).permissions.interactive(),
            response == PromptResponse::AlwaysAllow ==> exists|rule: PermissionRule|
                #![auto]
                final(agent).permissions.session_rules() == old(
                    agent,
                ).permissions.session_rules().push(rule) && rule.tool@ == old(
                    self,
                )@.calls[old(self)@.current].name && rule.args is None && rule.level
                    == PermissionLevel::Permit,
            response != PromptResponse::AlwaysAllow ==> final(agent).permissions.session_rules()
                == old(agent).permissions.session_rules(),
    {
        assert(self@.calls[self.current as int] == self.calls@[self.current as int]@);
        match response {
            PromptResponse::Deny => self.refuse(
                agent,
                "Denied by user".to_owned(),
                "Permission denied by user".to_owned(),
            ),
            PromptResponse::AllowOnce => {
                let events: Vec<AgentEvent> = Vec::new();
                assert(event_views(events@) =~= Seq::<AgentEventView>::empty());
                self.proceed(agent, events)
            },
            PromptResponse::AlwaysAllow => {
                let rule = PermissionRule {
                    tool: self.calls[self.current].name.clone(),
                    args: None,
                    level: PermissionLevel::Permit,
                };
                agent.permissions.add_session_rule(rule);
                let events: Vec<AgentEvent> = Vec::new();
                assert(event_views(events@) =~= Seq::<AgentEventView>::empty());
                self.proceed(agent, events)
            },
        }
    }

    /// Takes in the verdict of the before-tool hooks: a denial refuses the
    /// call, otherwise the tool is to run.
    pub fn before_hooks_done(&mut self, agent: &Agent, verdict: Result<(), String>) -> (step: Step)
        requires
            old(self).wf(),
            old(self)@.phase == Phase::AwaitingBeforeHooks,
        ensures
            final(self)@ == on_before_hooks(
                old(self)@,
                keeping(*agent),
                match verdict {
                    Ok(_) => None,
                    Err(reason) => Some(reason@),
                },
            ).next,
            step.is(
                on_before_hooks(
                    old(self)@,
                    keeping(*agent),
                    match verdict {
                        Ok(_) => None,
                        Err(reason) => Some(reason@),
                    },
                ),
            ),
            final(self).wf(),
    {
        assert(self@.calls[self.current as int] == self.calls@[self.current as int]@);
        match verdict {
            Err(reason) => {
                let text = join2("Blocked by hook: ", reason.as_str());
                self.refuse(agent, reason, text)
            },
            Ok(_) => {
                let call = &self.calls[self.current];
                let action = Action::ExecuteTool {
                    name: call.name.clone(),
                    input: call.input.duplicate(),
                };
                self.phase = Phase::AwaitingTool;
                let events: Vec<AgentEvent> = Vec::new();
                assert(event_views(events@) =~= Seq::<AgentEventView>::empty());
                Step { events, action }
            },
        }
    }

    /// Records the output of the current call as its result and goes on.
    fn record(&mut self, agent: &Agent, output: ToolOutput, events: Vec<AgentEvent>) -> (step: Step)
        requires
            dispatching(old(self)@),
            old(self)@.current < old(self)@.calls.len(),
        ensures
            final(self)@ == record_output(
                old(self)@,
                keeping(*agent),
                output@,
                event_views(events@),
            ).next,
            step.is(record_output(old(self)@, keeping(*agent), output@, event_views(events@))),
            final(self).wf(),
    {
        assert(self@.calls[self.current as int] == self.calls@[self.current as int]@);
        let ghost results = self@.results;
        let call = &self.calls[self.current];
        let is_error = if output.is_error {
            Some(true)
        } else {
            None
        };
        let block = ContentBlock::ToolResult {
            tool_use_id: call.id.clone(),
            content: convert_output(output.content),
            is_error,
        };
        assert(block@ == output_result(call@.id, output@));
        proof {
            lemma_result_ids_push(results, block@);
            assert(call_ids(self@.calls).subrange(0, self.current + 1) =~= call_ids(
                self@.calls,
            ).subrange(0, self.current as int).push(call@.id));
        }
        let count: usize = self.calls.len();
        assert(self.current < count);
        self.results.push(block);
        self.current = self.current + 1;
        assert(blocks(self.results@) =~= results.push(block@));
        self.dispatch_calls(agent, events)
    }

    /// Takes in how the tool ended. An error of the tool becomes an error
    /// output with the text of the error. The observer is shown the output,
    /// clipped; the after-tool hooks are given a longer clipping.
    pub fn tool_done(&mut self, agent: &Agent, result: Result<ToolOutput, ToolError>) -> (step: Step)
        requires
            old(self).wf(),
            old(self)@.phase == Phase::AwaitingTool,
        ensures
            final(self)@ == on_tool_end(old(self)@, keeping(*agent), result_view(result)).next,
            step.is(on_tool_end(old(self)@, keeping(*agent), result_view(result))),
            final(self).wf(),
    {
        assert(self@.calls[self.current as int] == self.calls@[self.current as int]@);
        let output = match result {
            Ok(output) => output,
            Err(e) => ToolOutput::error(e.to_string().as_str()),
        };
        let text = collect_output_text(&output);
        let call = &self.calls[self.current];
        let shown = AgentEvent::ToolEnd {
            name: call.name.clone(),
            output: truncate_for_display(text.as_str(), DISPLAY_LIMIT),
            is_error: output.is_error,
        };
        let mut events: Vec<AgentEvent> = Vec::new();
        events.push(shown);
        assert(event_views(events@) =~= seq![shown@]);
        if agent.permissions.in_ludicrous_mode() {
            self.record(agent, output, events)
        } else {
            let input = HookInput {
                event: HookEvent::AfterTool,
                tool_name: Some(call.name.clone()),
                tool_input: Some(call.input.duplicate()),
                tool_output: Some(truncate_for_display(text.as_str(), HOOK_LIMIT)),
                is_error: Some(output.is_error),
                worktree_path: None,
                worktree_source: None,
            };
            self.output = Some(output);
            self.phase = Phase::AwaitingAfterHooks;
            Step { events, action: Action::RunHooks(input) }
        }
    }

    /// Takes in the end of the after-tool hooks. Their verdict changes
    /// nothing: the tool has run, and its result is recorded.
    pub fn after_hooks_done(&mut self, agent: &Agent) -> (step: Step)
        requires
            old(self).wf(),
            old(self)@.phase == Phase::AwaitingAfterHooks,
        ensures
            final(self)@ == on_after_hooks(old(self)@, keeping(*agent)).next,
            step.is(on_after_hooks(old(self)@, keeping(*agent))),
            final(self).wf(),
    {
        let mut taken: Option<ToolOutput> = None;
        std::mem::swap(&mut self.output, &mut taken);
        let output = taken.unwrap();
        let events: Vec<AgentEvent> = Vec::new();
        assert(event_views(events@) =~= Seq::<AgentEventView>::empty());
        proof {
            assert(record_output(self@, keeping(*agent), output@, Seq::empty()) == record_output(
                old(self)@,
                keeping(*agent),
                output@,
                Seq::empty(),
            ));
        }
        self.record(agent, output, events)
    }
}

/// The view of how a tool ended.
pub open spec fn result_view(r: Result<ToolOutput, ToolError>) -> Result<ToolOutputView, ToolError> {
    match r {
        Ok(o) => Ok(o@),
        Err(e) => Err(e),
    }
}

} // verus!
