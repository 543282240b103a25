//! Helpers on conversations: the text of the assistant's last answer, the
//! removal of the last turn, and the system prompts.

use crate::agent::model::join_texts;
use crate::message::{
    blocks, transcript, ContentBlock, ContentBlockView, Message, MessageView, Role,
};
use crate::text::{join3};
use vstd::prelude::*;
use vstd::string::*;

verus! {

/// The texts of the text blocks among `items`, in order.
pub open spec fn block_texts(items: Seq<ContentBlockView>) -> Seq<Seq<char>>
    decreases items.len(),
{
    if items.len() == 0 {
        Seq::empty()
    } else {
        match items.last() {
            ContentBlockView::Text { text } => block_texts(items.drop_last()).push(text),
            _ => block_texts(items.drop_last()),
        }
    }
}

/// The text of a message: its text blocks joined by line feeds.
pub open spec fn message_text(m: MessageView) -> Seq<char> {
    join_texts(block_texts(m.content))
}

/// The text of the last assistant message among the first `n` messages
/// that has any text.
pub open spec fn last_assistant_text(messages: Seq<MessageView>, n: int) -> Option<Seq<char>>
    decreases n,
{
    if n <= 0 {
        None
    } else if messages[n - 1].role == Role::Assistant && message_text(messages[n - 1]).len() > 0 {
        Some(message_text(messages[n - 1]))
    } else {
        last_assistant_text(messages, n - 1)
    }
}

/// True when `m` holds tool results and nothing else.
pub open spec fn holds_only_results(m: MessageView) -> bool {
    m.content.len() > 0 && forall|i: int|
        0 <= i < m.content.len() ==> (#[trigger] m.content[i]) is ToolResult
}

/// True when `m` is a user message that carries tool results.
pub open spec fn is_result_message(m: MessageView) -> bool {
    m.role == Role::User && holds_only_results(m)
}

/// The length left of the first `n` messages after the assistant messages
/// at their end are dropped.
pub open spec fn without_assistants(messages: Seq<MessageView>, n: int) -> int
    decreases n,
{
    if n > 0 && n <= messages.len() && messages[n - 1].role == Role::Assistant {
        without_assistants(messages, n - 1)
    } else {
        n
    }
}

/// The length left of the first `n` messages after the tool-result
/// messages at their end are dropped.
pub open spec fn without_results(messages: Seq<MessageView>, n: int) -> int
    decreases n,
{
    if n > 0 && n <= messages.len() && is_result_message(messages[n - 1]) {
        without_results(messages, n - 1)
    } else {
        n
    }
}

/// The length left of the first `n` messages after the rounds at their
/// end are dropped, a round being an assistant message and the tool-result
/// messages before it.
pub open spec fn without_rounds(messages: Seq<MessageView>, n: int) -> int
    decreases n,
    via without_rounds_decreases
{
    if n > 0 && n <= messages.len() && messages[n - 1].role == Role::Assistant {
        without_rounds(messages, without_results(messages, n - 1))
    } else {
        n
    }
}

#[via_fn]
proof fn without_rounds_decreases(messages: Seq<MessageView>, n: int) {
    if n > 0 {
        lemma_without_results(messages, n - 1);
    }
}

pub proof fn lemma_without_results(messages: Seq<MessageView>, n: int)
    requires
        0 <= n,
    ensures
        0 <= without_results(messages, n) <= n,
    decreases n,
{
    if n > 0 && n <= messages.len() && is_result_message(messages[n - 1]) {
        lemma_without_results(messages, n - 1);
    }
}

pub proof fn lemma_without_assistants(messages: Seq<MessageView>, n: int)
    requires
        0 <= n,
    ensures
        0 <= without_assistants(messages, n) <= n,
    decreases n,
{
    if n > 0 && n <= messages.len() && messages[n - 1].role == Role::Assistant {
        lemma_without_assistants(messages, n - 1);
    }
}

/// The number of messages that stay when the last turn is taken away:
/// from the end, the assistant messages go, then the tool-result
/// messages, then every further round of assistant message and tool
/// results, and at last the user message that began the turn.
pub open spec fn before_last_turn(messages: Seq<MessageView>) -> int {
    let a = without_assistants(messages, messages.len() as int);
    let b = without_results(messages, a);
    let c = without_rounds(messages, b);
    if c > 0 && c <= messages.len() && messages[c - 1].role == Role::User && !holds_only_results(
        messages[c - 1],
    ) {
        c - 1
    } else {
        c
    }
}

/// A user message with the single text `text`.
pub fn user_message(text: &str) -> (m: Message)
    ensures
        m@.role == Role::User,
        m@.content == seq![ContentBlockView::Text { text: text@ }],
{
    let mut content: Vec<ContentBlock> = Vec::new();
    content.push(ContentBlock::Text { text: text.to_owned() });
    let m = Message { role: Role::User, content };
    assert(m@.content =~= seq![ContentBlockView::Text { text: text@ }]);
    m
}

/// Tells whether a message holds tool results and nothing else.
pub fn is_tool_result_message(msg: &Message) -> (r: bool)
    ensures
        r == holds_only_results(msg@),
{
    if msg.content.len() == 0 {
        return false;
    }
    let mut i: usize = 0;
    while i < msg.content.len()
        invariant
            i <= msg.content@.len(),
            forall|k: int| 0 <= k < i ==> (#[trigger] msg@.content[k]) is ToolResult,
        decreases msg.content.len() - i,
    {
        assert(msg@.content[i as int] == msg.content@[i as int]@);
        match &msg.content[i] {
            ContentBlock::ToolResult { .. } => {},
            _ => {
                return false;
            },
        }
        i += 1;
    }
    true
}

/// The text of a message: its text blocks joined by line feeds.
pub fn text_of_message(msg: &Message) -> (text: String)
    ensures
        text@ == message_text(msg@),
{
    let mut text = String::new();
    let mut seen = false;
    let mut i: usize = 0;
    let ghost all = msg@.content;
    assert(all.subrange(0, 0) =~= Seq::<ContentBlockView>::empty());
    while i < msg.content.len()
        invariant
            i <= msg.content@.len(),
            all == blocks(msg.content@),
            seen == (block_texts(all.subrange(0, i as int)).len() > 0),
            text@ == join_texts(block_texts(all.subrange(0, i as int))),
        decreases msg.content.len() - i,
    {
        let ghost head = block_texts(all.subrange(0, i as int));
        assert(all.subrange(0, i + 1).drop_last() =~= all.subrange(0, i as int));
        assert(all.subrange(0, i + 1).last() == msg.content@[i as int]@);
        match &msg.content[i] {
            ContentBlock::Text { text: piece } => {
                assert(head.push(piece@).drop_last() =~= head);
                if seen {
                    text.append("\n");
                    proof {
                        reveal_strlit("\n");
                        assert("\n"@ =~= seq!['\n']);
                    }
                }
                text.append(piece.as_str());
                seen = true;
            },
            _ => {},
        }
        i += 1;
    }
    assert(all.subrange(0, msg.content@.len() as int) =~= all);
    text
}

/// The text of the last assistant message that has any text.
pub fn extract_last_assistant_text(messages: &[Message]) -> (r: Option<String>)
    ensures
        match r {
            Some(text) => last_assistant_text(transcript(messages@), messages@.len() as int)
                == Some(text@),
            None => last_assistant_text(transcript(messages@), messages@.len() as int) is None,
        },
{
    let mut n: usize = messages.len();
    while n > 0
        invariant
            n <= messages@.len(),
            last_assistant_text(transcript(messages@), n as int) == last_assistant_text(
                transcript(messages@),
                messages@.len() as int,
            ),
        decreases n,
    {
        assert(transcript(messages@)[n - 1] == messages@[n - 1]@);
        if messages[n - 1].role == Role::Assistant {
            let text = text_of_message(&messages[n - 1]);
            if !text.as_str().is_empty() {
                return Some(text);
            }
        }
        n -= 1;
    }
    None
}

/// The text of the last assistant message that has any text, or the empty
/// text where there is none.
pub fn extract_assistant_text(messages: &[Message]) -> (text: String)
    ensures
        text@ == match last_assistant_text(transcript(messages@), messages@.len() as int) {
            Some(t) => t,
            None => Seq::empty(),
        },
{
    match extract_last_assistant_text(messages) {
        Some(text) => text,
        None => String::new(),
    }
}

/// Takes the last turn out of the conversation: the user message that
/// began it, the assistant's answers, and the tool results between them.
pub fn pop_last_turn(messages: &mut Vec<Message>)
    ensures
        transcript(final(messages)@) == transcript(old(messages)@).subrange(
            0,
            before_last_turn(transcript(old(messages)@)),
        ),
{
    let ghost all = transcript(messages@);
    let mut n: usize = messages.len();
    proof {
        lemma_without_assistants(all, n as int);
    }
    while n > 0 && messages[n - 1].role == Role::Assistant
        invariant
            n <= messages@.len(),
            all == transcript(messages@),
            without_assistants(all, n as int) == without_assistants(all, all.len() as int),
        decreases n,
    {
        assert(all[n - 1] == messages@[n - 1]@);
        n -= 1;
    }
    assert(n > 0 ==> all[n - 1] == messages@[n - 1]@);
    let ghost a = n as int;
    while n > 0 && messages[n - 1].role == Role::User && is_tool_result_message(&messages[n - 1])
        invariant
            n <= messages@.len(),
            all == transcript(messages@),
            without_results(all, n as int) == without_results(all, a),
        decreases n,
    {
        assert(all[n - 1] == messages@[n - 1]@);
        n -= 1;
    }
    assert(n > 0 ==> all[n - 1] == messages@[n - 1]@);
    let ghost b = n as int;
    while n > 0 && messages[n - 1].role == Role::Assistant
        invariant
            n <= messages@.len(),
            all == transcript(messages@),
            without_rounds(all, n as int) == without_rounds(all, b),
        decreases n,
    {
        assert(all[n - 1] == messages@[n - 1]@);
        let ghost round = n as int;
        n -= 1;
        while n > 0 && messages[n - 1].role == Role::User && is_tool_result_message(
            &messages[n - 1],
        )
            invariant
                n <= messages@.len(),
                n < round,
                all == transcript(messages@),
                without_results(all, n as int) == without_results(all, round - 1),
            decreases n,
        {
            assert(all[n - 1] == messages@[n - 1]@);
            n -= 1;
        }
        assert(n > 0 ==> all[n - 1] == messages@[n - 1]@);
    }
    assert(n > 0 ==> all[n - 1] == messages@[n - 1]@);
    if n > 0 && messages[n - 1].role == Role::User && !is_tool_result_message(&messages[n - 1]) {
        n -= 1;
    }
    messages.truncate(n);
    assert(transcript(messages@) =~= all.subrange(0, n as int));
}

/// The system prompt of the assistant at work in `cwd`.
pub fn system_prompt(cwd: &str) -> (prompt: String)
    ensures
        prompt@
            == "You are Chet, an AI coding assistant running in a terminal. You help users with software engineering tasks by reading, writing, and editing code files, running commands, and searching codebases.\n\nCurrent working directory: "@
            + cwd@ + "\n\nUse the available tools to assist the user. Be concise and helpful."@,
{
    join3(
        "You are Chet, an AI coding assistant running in a terminal. You help users with software engineering tasks by reading, writing, and editing code files, running commands, and searching codebases.\n\nCurrent working directory: ",
        cwd,
        "\n\nUse the available tools to assist the user. Be concise and helpful.",
    )
}

/// The system prompt of the assistant in plan mode, at work in `cwd`.
pub fn plan_system_prompt(cwd: &str) -> (prompt: String)
    ensures
        prompt@
            == "You are Chet, an AI coding assistant running in PLAN MODE.\n\nCurrent working directory: "@
            + cwd@
            + "\n\nIn plan mode, you can ONLY use read-only tools (Read, Glob, Grep) to explore the codebase.\nYou CANNOT modify files, run commands, or make any changes.\n\nYour task is to:\n1. Explore the codebase using the available read-only tools\n2. Understand the existing code structure and patterns\n3. Produce a clear, structured implementation plan in markdown\n\nYour plan should include:\n- Summary of proposed changes\n- Files to modify or create\n- Step-by-step implementation approach\n- Key considerations or risks\n\nBe thorough in exploration but concise in your plan."@,
{
    join3(
        "You are Chet, an AI coding assistant running in PLAN MODE.\n\nCurrent working directory: ",
        cwd,
        "\n\nIn plan mode, you can ONLY use read-only tools (Read, Glob, Grep) to explore the codebase.\nYou CANNOT modify files, run commands, or make any changes.\n\nYour task is to:\n1. Explore the codebase using the available read-only tools\n2. Understand the existing code structure and patterns\n3. Produce a clear, structured implementation plan in markdown\n\nYour plan should include:\n- Summary of proposed changes\n- Files to modify or create\n- Step-by-step implementation approach\n- Key considerations or risks\n\nBe thorough in exploration but concise in your plan.",
    )
}

/// The system prompt of a subagent at work in `cwd`.
pub fn subagent_system_prompt(cwd: &str) -> (prompt: String)
    ensures
        prompt@
            == "You are a subagent of Chet, an AI coding assistant. You have been spawned to handle a specific task. Complete the task using the available tools and provide a clear, concise response with your findings or results.\n\nCurrent working directory: "@
            + cwd@,
{
    crate::text::join2(
        "You are a subagent of Chet, an AI coding assistant. You have been spawned to handle a specific task. Complete the task using the available tools and provide a clear, concise response with your findings or results.\n\nCurrent working directory: ",
        cwd,
    )
}

} // verus!
