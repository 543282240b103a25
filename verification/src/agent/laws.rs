//! What holds of every run of the agent, proved of the model of a run.

use crate::agent::events::AgentEventView;
use crate::agent::model::{
    answered_from, answers, asks_for_tools, begin_turn, call_ids, calls_of, dispatch,
    error_result, admission, initial, on_after_hooks, on_answer, on_before_hooks, on_cancel,
    on_event, on_opened, on_stream_end, on_stream_failure, on_tool_end, output_result,
    output_text, record_output, refusal, refuse_current, run_wf, settle, settled_output,
    settled_tail, ActionView, Admission, Policy, OutcomeView, Phase, RunView, ToolCallView,
    DISPLAY_LIMIT, MAX_TOOL_LOOPS,
};
use crate::util::display_text;
use crate::agent::turn::{fresh_turn, tool_result_ids, tool_use_ids};
use crate::error::{ApiError, ToolError};
use crate::message::{ContentBlockView, MessageView, Role, StreamEventView};
use crate::permissions::types::PromptResponse;
use crate::tool::ToolOutputView;
use vstd::prelude::*;

verus! {

/// The ids of the tool calls of a message are the ids of its tool-use
/// blocks, in the same order.
pub proof fn lemma_call_ids(blocks: Seq<ContentBlockView>)
    ensures
        call_ids(calls_of(blocks)) == tool_use_ids(blocks),
    decreases blocks.len(),
{
    if blocks.len() > 0 {
        lemma_call_ids(blocks.drop_last());
        assert(call_ids(calls_of(blocks)) =~= tool_use_ids(blocks));
    } else {
        assert(call_ids(calls_of(blocks)) =~= tool_use_ids(blocks));
    }
}

/// A tool result added behind others answers the next id.
pub proof fn lemma_result_ids_push(
    results: Seq<ContentBlockView>,
    block: ContentBlockView,
)
    requires
        block is ToolResult,
    ensures
        tool_result_ids(results.push(block)) == tool_result_ids(results).push(
            block->ToolResult_tool_use_id,
        ),
{
    assert(results.push(block).drop_last() =~= results);
}

/// True when the state `v` is one in which the tool calls of the turn are
/// gone through: the assistant message of the turn ends the conversation,
/// and the results so far answer the calls before `v.current`, in order.
pub open spec fn dispatching(v: RunView) -> bool {
    &&& 0 <= v.base
    &&& 0 <= v.loops < MAX_TOOL_LOOPS
    &&& v.turn_start.len() == v.base + 2 * v.loops
    &&& answered_from(v.turn_start, v.base)
    &&& settled_tail(v.turn_start, v.base)
    &&& v.messages.len() == v.turn_start.len() + 1
    &&& v.messages.drop_last() == v.turn_start
    &&& v.messages.last().role == Role::Assistant
    &&& tool_use_ids(v.messages.last().content) == call_ids(v.calls)
    &&& 0 <= v.current <= v.calls.len()
    &&& v.calls.len() > 0
    &&& v.results.len() == v.current
    &&& tool_result_ids(v.results) == call_ids(v.calls).subrange(0, v.current)
}

/// Going through the calls keeps one result per call, in the order of the
/// calls and under their ids, and stops only at a call that the policy does
/// not refuse.
pub proof fn lemma_settle(
    g: Policy,
    calls: Seq<ToolCallView>,
    current: int,
    results: Seq<ContentBlockView>,
    told: Seq<AgentEventView>,
)
    requires
        0 <= current <= calls.len(),
        results.len() == current,
        tool_result_ids(results) == call_ids(calls).subrange(0, current),
    ensures
        current <= settle(g, calls, current, results, told).current <= calls.len(),
        settle(g, calls, current, results, told).results.len() == settle(
            g,
            calls,
            current,
            results,
            told,
        ).current,
        tool_result_ids(settle(g, calls, current, results, told).results) == call_ids(
            calls,
        ).subrange(0, settle(g, calls, current, results, told).current),
        settle(g, calls, current, results, told).current < calls.len() ==> refusal(
            admission(g, calls[settle(g, calls, current, results, told).current]),
        ) is None,
    decreases calls.len() - current,
{
    if current < calls.len() {
        match refusal(admission(g, calls[current])) {
            Some((reason, text)) => {
                let block = error_result(calls[current].id, text);
                lemma_result_ids_push(results, block);
                assert(call_ids(calls).subrange(0, current + 1) =~= call_ids(calls).subrange(
                    0,
                    current,
                ).push(calls[current].id));
                lemma_settle(
                    g,
                    calls,
                    current + 1,
                    results.push(block),
                    told.push(
                        AgentEventView::ToolBlocked { name: calls[current].name, reason },
                    ),
                );
            },
            None => {},
        }
    }
}

/// A message added behind a conversation whose last message asks for
/// nothing leaves every earlier tool call answered.
pub proof fn lemma_answered_push(messages: Seq<MessageView>, base: int, m: MessageView)
    requires
        0 <= base <= messages.len(),
        answered_from(messages, base),
        settled_tail(messages, base) || (messages.len() > 0 && answers(messages.last(), m)),
    ensures
        answered_from(messages.push(m), base),
{
    let longer = messages.push(m);
    assert forall|i: int|
        base <= i && i + 1 < longer.len() && asks_for_tools(#[trigger] longer[i]) implies answers(
        longer[i],
        longer[i + 1],
    ) by {
        assert(longer[i] == messages[i]);
        if i + 1 < messages.len() {
            assert(longer[i + 1] == messages[i + 1]);
        } else {
            assert(longer[i + 1] == m);
            assert(messages[i] == messages.last());
        }
    }
}

/// Going through the tool calls keeps the state of the run well-formed.
pub proof fn lemma_dispatch_keeps_wf(v: RunView, g: Policy, told: Seq<AgentEventView>)
    requires
        dispatching(v),
    ensures
        run_wf(dispatch(v, g, told).next),
        dispatch(v, g, told).next.base == v.base,
        dispatch(v, g, told).next.turn_start == v.turn_start,
{
    lemma_settle(g, v.calls, v.current, v.results, told);
    let s = settle(g, v.calls, v.current, v.results, told);
    let t = dispatch(v, g, told);
    if s.current >= v.calls.len() {
        let user = MessageView { role: Role::User, content: s.results };
        assert(call_ids(v.calls).subrange(0, v.calls.len() as int) =~= call_ids(v.calls));
        assert(v.messages =~= v.turn_start.push(v.messages.last()));
        lemma_answered_push(v.turn_start, v.base, v.messages.last());
        assert(answers(v.messages.last(), user));
        lemma_answered_push(v.messages, v.base, user);
        assert(t.next.messages.last() == user);
    } else {
    }
}

/// Every step keeps the state of the run well-formed.
pub proof fn lemma_steps_keep_wf(v: RunView, g: Policy)
    requires
        run_wf(v),
    ensures
        v.phase == Phase::Ready ==> run_wf(begin_turn(v).next),
        v.phase == Phase::Sending ==> forall|failure: Option<ApiError>|
            run_wf(#[trigger] on_opened(v, failure).next),
        v.phase == Phase::Streaming ==> forall|e: StreamEventView|
            run_wf(#[trigger] on_event(v, e).next),
        v.phase == Phase::Streaming ==> forall|e: ApiError|
            run_wf(#[trigger] on_stream_failure(v, e).next),
        v.phase == Phase::Streaming ==> run_wf(on_stream_end(v, g).next),
        v.phase == Phase::Streaming || v.phase == Phase::AwaitingTool ==> run_wf(
            on_cancel(v).next,
        ),
        v.phase == Phase::AwaitingAnswer ==> forall|r: PromptResponse|
            run_wf(#[trigger] on_answer(v, g, r).next),
        v.phase == Phase::AwaitingBeforeHooks ==> forall|d: Option<Seq<char>>|
            run_wf(#[trigger] on_before_hooks(v, g, d).next),
        v.phase == Phase::AwaitingTool ==> forall|r: Result<ToolOutputView, ToolError>|
            run_wf(#[trigger] on_tool_end(v, g, r).next),
        v.phase == Phase::AwaitingAfterHooks ==> run_wf(on_after_hooks(v, g).next),
{
    if v.phase == Phase::Streaming {
        lemma_stream_end_keeps_wf(v, g);
    }
    if v.phase == Phase::AwaitingAnswer {
        assert forall|r: PromptResponse| run_wf(#[trigger] on_answer(v, g, r).next) by {
            if r == PromptResponse::Deny {
                lemma_refuse_keeps_wf(v, g, "Denied by user"@, "Permission denied by user"@);
            }
        }
    }
    if v.phase == Phase::AwaitingBeforeHooks {
        assert forall|d: Option<Seq<char>>| run_wf(#[trigger] on_before_hooks(v, g, d).next) by {
            match d {
                Some(reason) => {
                    lemma_refuse_keeps_wf(v, g, reason, "Blocked by hook: "@ + reason);
                },
                None => {},
            }
        }
    }
    if v.phase == Phase::AwaitingTool {
        assert forall|r: Result<ToolOutputView, ToolError>|
            run_wf(#[trigger] on_tool_end(v, g, r).next) by {
            let output = settled_output(r);
            let told = seq![
                AgentEventView::ToolEnd {
                    name: v.calls[v.current].name,
                    output: display_text(output_text(output.content), DISPLAY_LIMIT as int),
                    is_error: output.is_error,
                },
            ];
            lemma_record_keeps_wf(v, g, output, told);
        }
    }
    if v.phase == Phase::AwaitingAfterHooks {
        lemma_record_keeps_wf(v, g, v.output->0, Seq::empty());
    }
    if v.phase == Phase::AwaitingTool {
        assert(v.messages.drop_last() == v.turn_start);
    }
}

/// Refusing the current call keeps the state of the run well-formed.
pub proof fn lemma_refuse_keeps_wf(v: RunView, g: Policy, reason: Seq<char>, text: Seq<char>)
    requires
        run_wf(v),
        v.phase == Phase::AwaitingAnswer || v.phase == Phase::AwaitingBeforeHooks,
    ensures
        run_wf(refuse_current(v, g, reason, text).next),
        refuse_current(v, g, reason, text).next.base == v.base,
{
    let call = v.calls[v.current];
    let block = error_result(call.id, text);
    lemma_result_ids_push(v.results, block);
    assert(call_ids(v.calls).subrange(0, v.current + 1) =~= call_ids(v.calls).subrange(
        0,
        v.current,
    ).push(call.id));
    let at = RunView { current: v.current + 1, results: v.results.push(block), ..v };
    lemma_dispatch_keeps_wf(
        at,
        g,
        seq![AgentEventView::ToolBlocked { name: call.name, reason }],
    );
}

/// Recording the output of the current call keeps the state of the run
/// well-formed.
pub proof fn lemma_record_keeps_wf(
    v: RunView,
    g: Policy,
    output: ToolOutputView,
    told: Seq<AgentEventView>,
)
    requires
        run_wf(v),
        v.phase == Phase::AwaitingTool || v.phase == Phase::AwaitingAfterHooks,
    ensures
        run_wf(record_output(v, g, output, told).next),
        record_output(v, g, output, told).next.base == v.base,
{
    let call = v.calls[v.current];
    let block = output_result(call.id, output);
    lemma_result_ids_push(v.results, block);
    assert(call_ids(v.calls).subrange(0, v.current + 1) =~= call_ids(v.calls).subrange(
        0,
        v.current,
    ).push(call.id));
    let at = RunView {
        current: v.current + 1,
        results: v.results.push(block),
        output: None,
        ..v
    };
    lemma_dispatch_keeps_wf(at, g, told);
}

/// The end of the stream keeps the state of the run well-formed.
pub proof fn lemma_stream_end_keeps_wf(v: RunView, g: Policy)
    requires
        run_wf(v),
        v.phase == Phase::Streaming,
    ensures
        run_wf(on_stream_end(v, g).next),
        on_stream_end(v, g).next.base == v.base,
{
    let assistant = MessageView { role: Role::Assistant, content: v.turn.blocks };
    let calls = calls_of(v.turn.blocks);
    lemma_call_ids(v.turn.blocks);
    if v.turn.blocks.len() > 0 {
        lemma_answered_push(v.messages, v.base, assistant);
    }
    if !(calls.len() == 0 || v.turn.stop_reason == Some(crate::message::StopReason::EndTurn)) {
        assert(tool_use_ids(v.turn.blocks).len() > 0);
        assert(v.turn.blocks.len() > 0);
        let committed = v.messages.push(assistant);
        assert(committed.drop_last() =~= v.messages);
        let at = RunView {
            messages: committed,
            turn: fresh_turn(),
            calls,
            current: 0,
            results: Seq::empty(),
            output: None,
            ..v
        };
        assert(call_ids(calls).subrange(0, 0) =~= tool_result_ids(Seq::empty()));
        lemma_dispatch_keeps_wf(at, g, Seq::empty());
    }
}

/// In every state of a run, each assistant message that the run has
/// committed with tool calls and that a message follows is answered by
/// that message: a user message with exactly one tool result for each
/// tool call, under the call's id and in the order of the calls.
pub proof fn lemma_tool_calls_are_answered(v: RunView)
    requires
        run_wf(v),
        v.phase != Phase::Sending,
    ensures
        answered_from(v.messages, v.base),
{
    match v.phase {
        Phase::Ready => {},
        Phase::Streaming => {},
        Phase::Finished => {},
        Phase::Sending => {},
        _ => {
            assert(v.messages =~= v.turn_start.push(v.messages.last()));
            lemma_answered_push(v.turn_start, v.base, v.messages.last());
        },
    }
}

/// Whenever a step adds a user message to the conversation, that message
/// answers the assistant message before it.
pub proof fn lemma_results_answer_the_turn(v: RunView, g: Policy, told: Seq<AgentEventView>)
    requires
        dispatching(v),
        dispatch(v, g, told).action is NextTurn,
    ensures
        dispatch(v, g, told).next.messages.len() == v.messages.len() + 1,
        dispatch(v, g, told).next.messages.drop_last() == v.messages,
        answers(v.messages.last(), dispatch(v, g, told).next.messages.last()),
{
    lemma_settle(g, v.calls, v.current, v.results, told);
    let s = settle(g, v.calls, v.current, v.results, told);
    let user = MessageView { role: Role::User, content: s.results };
    if s.current >= v.calls.len() {
        assert(call_ids(v.calls).subrange(0, v.calls.len() as int) =~= call_ids(v.calls));
        assert(v.messages.push(user).drop_last() =~= v.messages);
    } else {
        match admission(g, v.calls[s.current]) {
            Admission::Ask { .. } => {},
            _ => {},
        }
    }
}

/// After cancellation the conversation holds no assistant message of the
/// cancelled turn: while the stream is read none was added, and while a
/// tool runs the one that was added is taken away again. Either way the
/// conversation is as it was when the turn began.
pub proof fn lemma_cancel_restores_the_turn(v: RunView)
    requires
        run_wf(v),
        v.phase == Phase::Streaming || v.phase == Phase::AwaitingTool,
    ensures
        on_cancel(v).action == ActionView::Finish(OutcomeView::Cancelled),
        on_cancel(v).told == seq![AgentEventView::Cancelled],
        on_cancel(v).next.messages == v.turn_start,
        v.phase == Phase::Streaming ==> on_cancel(v).next.messages == v.messages,
        v.phase == Phase::AwaitingTool ==> on_cancel(v).next.messages == v.messages.drop_last()
            && v.messages.last().role == Role::Assistant,
        run_wf(on_cancel(v).next),
{
}

/// A run never begins more than `MAX_TOOL_LOOPS` turns: when that many
/// tool rounds are done, the next step tells the observer of an error,
/// leaves the conversation as it is, with every tool call answered, and
/// completes with the usage accumulated so far. The conversation then
/// holds two messages more for each round than when the run began.
pub proof fn lemma_loop_limit(v: RunView)
    requires
        run_wf(v),
        v.phase == Phase::Ready,
        v.loops == MAX_TOOL_LOOPS,
    ensures
        begin_turn(v).action == ActionView::Finish(OutcomeView::Completed(v.usage)),
        begin_turn(v).told == seq![AgentEventView::Error("Maximum tool-use loops reached"@)],
        begin_turn(v).next.messages == v.messages,
        begin_turn(v).next.messages.len() == v.base + 2 * MAX_TOOL_LOOPS,
        answered_from(begin_turn(v).next.messages, v.base),
        run_wf(begin_turn(v).next),
{
}

/// The state in which a run begins is well-formed.
pub proof fn lemma_initial_wf(messages: Seq<MessageView>)
    ensures
        run_wf(initial(messages)),
{
}

/// The conversation of a run: while the request is sent it travels with
/// the request.
pub open spec fn log_of(v: RunView) -> Seq<MessageView> {
    if v.phase == Phase::Sending {
        v.turn_start
    } else {
        v.messages
    }
}

/// True when the state `w` holds the messages that the run began with as
/// the state `v` holds them.
pub open spec fn keeps_beginning(v: RunView, w: RunView) -> bool {
    &&& w.base == v.base
    &&& log_of(w).len() >= v.base
    &&& log_of(w).take(v.base) == log_of(v).take(v.base)
}

/// Going through the tool calls leaves the messages that the run began
/// with as they are.
proof fn lemma_dispatch_keeps_beginning(v: RunView, g: Policy, told: Seq<AgentEventView>)
    requires
        dispatching(v),
        v.phase != Phase::Sending,
    ensures
        keeps_beginning(v, dispatch(v, g, told).next),
{
    let w = dispatch(v, g, told).next;
    lemma_settle(g, v.calls, v.current, v.results, told);
    assert(log_of(w).take(v.base) =~= log_of(v).take(v.base));
}

/// No step of a run touches the messages that the run began with: after
/// every step the conversation begins with them, and what the run has
/// added stands behind them.
pub proof fn lemma_steps_keep_the_beginning(v: RunView, g: Policy)
    requires
        run_wf(v),
    ensures
        v.phase == Phase::Ready ==> keeps_beginning(v, begin_turn(v).next),
        v.phase == Phase::Sending ==> forall|failure: Option<ApiError>|
            keeps_beginning(v, #[trigger] on_opened(v, failure).next),
        v.phase == Phase::Streaming ==> forall|e: StreamEventView|
            keeps_beginning(v, #[trigger] on_event(v, e).next),
        v.phase == Phase::Streaming ==> forall|e: ApiError|
            keeps_beginning(v, #[trigger] on_stream_failure(v, e).next),
        v.phase == Phase::Streaming ==> keeps_beginning(v, on_stream_end(v, g).next),
        v.phase == Phase::Streaming || v.phase == Phase::AwaitingTool ==> keeps_beginning(
            v,
            on_cancel(v).next,
        ),
        v.phase == Phase::AwaitingAnswer ==> forall|r: PromptResponse|
            keeps_beginning(v, #[trigger] on_answer(v, g, r).next),
        v.phase == Phase::AwaitingBeforeHooks ==> forall|d: Option<Seq<char>>|
            keeps_beginning(v, #[trigger] on_before_hooks(v, g, d).next),
        v.phase == Phase::AwaitingTool ==> forall|r: Result<ToolOutputView, ToolError>|
            keeps_beginning(v, #[trigger] on_tool_end(v, g, r).next),
        v.phase == Phase::AwaitingAfterHooks ==> keeps_beginning(v, on_after_hooks(v, g).next),
{
    lemma_steps_keep_wf(v, g);
    if v.phase == Phase::Ready {
        assert(log_of(begin_turn(v).next).take(v.base) =~= log_of(v).take(v.base));
    }
    if v.phase == Phase::Sending {
        assert forall|failure: Option<ApiError>|
            keeps_beginning(v, #[trigger] on_opened(v, failure).next) by {
            assert(log_of(on_opened(v, failure).next).take(v.base) =~= log_of(v).take(v.base));
        }
    }
    if v.phase == Phase::Streaming {
        assert forall|e: StreamEventView| keeps_beginning(v, #[trigger] on_event(v, e).next) by {
            assert(log_of(on_event(v, e).next).take(v.base) =~= log_of(v).take(v.base));
        }
        assert forall|e: ApiError|
            keeps_beginning(v, #[trigger] on_stream_failure(v, e).next) by {
            assert(log_of(on_stream_failure(v, e).next).take(v.base) =~= log_of(v).take(
                v.base,
            ));
        }
        let assistant = MessageView { role: Role::Assistant, content: v.turn.blocks };
        let calls = calls_of(v.turn.blocks);
        if !(calls.len() == 0 || v.turn.stop_reason == Some(crate::message::StopReason::EndTurn)) {
            lemma_call_ids(v.turn.blocks);
            assert(tool_use_ids(v.turn.blocks).len() > 0);
            let committed = v.messages.push(assistant);
            assert(committed.drop_last() =~= v.messages);
            let at = RunView {
                messages: committed,
                turn: fresh_turn(),
                calls,
                current: 0,
                results: Seq::empty(),
                output: None,
                ..v
            };
            assert(call_ids(calls).subrange(0, 0) =~= tool_result_ids(Seq::empty()));
            lemma_dispatch_keeps_beginning(at, g, Seq::empty());
            assert(committed.take(v.base) =~= v.messages.take(v.base));
        }
        assert(log_of(on_stream_end(v, g).next).take(v.base) =~= log_of(v).take(v.base));
    }
    if v.phase == Phase::Streaming || v.phase == Phase::AwaitingTool {
        assert(log_of(on_cancel(v).next).take(v.base) =~= log_of(v).take(v.base));
    }
    if v.phase == Phase::AwaitingAnswer {
        assert forall|r: PromptResponse|
            keeps_beginning(v, #[trigger] on_answer(v, g, r).next) by {
            lemma_answer_keeps_beginning(v, g, r);
        }
    }
    if v.phase == Phase::AwaitingBeforeHooks {
        assert forall|d: Option<Seq<char>>|
            keeps_beginning(v, #[trigger] on_before_hooks(v, g, d).next) by {
            match d {
                Some(reason) => {
                    lemma_refuse_keeps_beginning(v, g, reason, "Blocked by hook: "@ + reason);
                },
                None => {
                    assert(log_of(on_before_hooks(v, g, d).next).take(v.base) =~= log_of(
                        v,
                    ).take(v.base));
                },
            }
        }
    }
    if v.phase == Phase::AwaitingTool {
        assert forall|r: Result<ToolOutputView, ToolError>|
            keeps_beginning(v, #[trigger] on_tool_end(v, g, r).next) by {
            let output = settled_output(r);
            let told = seq![
                AgentEventView::ToolEnd {
                    name: v.calls[v.current].name,
                    output: display_text(output_text(output.content), DISPLAY_LIMIT as int),
                    is_error: output.is_error,
                },
            ];
            if g.ludicrous {
                lemma_record_keeps_beginning(v, g, output, told);
            } else {
                assert(log_of(on_tool_end(v, g, r).next).take(v.base) =~= log_of(v).take(
                    v.base,
                ));
            }
        }
    }
    if v.phase == Phase::AwaitingAfterHooks {
        lemma_record_keeps_beginning(v, g, v.output->0, Seq::empty());
    }
}

/// Refusing the current call leaves the beginning of the conversation as
/// it is.
proof fn lemma_refuse_keeps_beginning(v: RunView, g: Policy, reason: Seq<char>, text: Seq<char>)
    requires
        run_wf(v),
        v.phase == Phase::AwaitingAnswer || v.phase == Phase::AwaitingBeforeHooks,
    ensures
        keeps_beginning(v, refuse_current(v, g, reason, text).next),
{
    let call = v.calls[v.current];
    let block = error_result(call.id, text);
    lemma_result_ids_push(v.results, block);
    assert(call_ids(v.calls).subrange(0, v.current + 1) =~= call_ids(v.calls).subrange(
        0,
        v.current,
    ).push(call.id));
    let at = RunView { current: v.current + 1, results: v.results.push(block), ..v };
    lemma_dispatch_keeps_beginning(
        at,
        g,
        seq![AgentEventView::ToolBlocked { name: call.name, reason }],
    );
}

/// Recording the output of the current call leaves the beginning of the
/// conversation as it is.
proof fn lemma_record_keeps_beginning(
    v: RunView,
    g: Policy,
    output: ToolOutputView,
    told: Seq<AgentEventView>,
)
    requires
        run_wf(v),
        v.phase == Phase::AwaitingTool || v.phase == Phase::AwaitingAfterHooks,
    ensures
        keeps_beginning(v, record_output(v, g, output, told).next),
{
    let call = v.calls[v.current];
    let block = output_result(call.id, output);
    lemma_result_ids_push(v.results, block);
    assert(call_ids(v.calls).subrange(0, v.current + 1) =~= call_ids(v.calls).subrange(
        0,
        v.current,
    ).push(call.id));
    let at = RunView {
        current: v.current + 1,
        results: v.results.push(block),
        output: None,
        ..v
    };
    lemma_dispatch_keeps_beginning(at, g, told);
}

/// The answer to a prompt leaves the beginning of the conversation as it
/// is.
proof fn lemma_answer_keeps_beginning(v: RunView, g: Policy, r: PromptResponse)
    requires
        run_wf(v),
        v.phase == Phase::AwaitingAnswer,
    ensures
        keeps_beginning(v, on_answer(v, g, r).next),
{
    if r == PromptResponse::Deny {
        lemma_refuse_keeps_beginning(v, g, "Denied by user"@, "Permission denied by user"@);
    } else {
        assert(log_of(on_answer(v, g, r).next).take(v.base) =~= log_of(v).take(v.base));
    }
}

} // verus!
