//! An estimate of how much of a model's context window a conversation
//! takes: four bytes of text to a token, four tokens for each message and
//! a thousand for each image. Counts that would pass what a `u64` holds
//! stay at its largest value.

use crate::command::{estimate_text_tokens, token_estimate};
use crate::json::json_text;
use crate::markdown::{find_closing, marker_index};
use crate::text::{chars_of, lowercased, to_lowercase};
use crate::message::{
    blocks, result_items, transcript, ContentBlock, ContentBlockView, Message, MessageView, Role,
    ToolResultContent, ToolResultContentView,
};
use vstd::prelude::*;
use vstd::string::*;
use vstd::utf8::*;

verus! {

/// The estimate for an image.
pub const IMAGE_TOKENS: u64 = 1000;

/// The estimate for what surrounds a message: its role and separators.
pub const MESSAGE_OVERHEAD: u64 = 4;

/// How much of the context window a conversation takes.
#[derive(Debug, Clone, Copy, PartialEq, Eq, Structural)]
pub struct ContextInfo {
    pub estimated_tokens: u64,
    pub context_window: u64,
    pub user_tokens: u64,
    pub assistant_tokens: u64,
    pub system_tokens: u64,
    pub last_turn_input_tokens: u64,
    pub last_turn_output_tokens: u64,
}

/// The context window of a model of the known family.
pub const KNOWN_WINDOW: u64 = 200_000;

/// The context window of any other model.
pub const DEFAULT_WINDOW: u64 = 128_000;

/// The context window of a model: the larger one where the name of the
/// model, in lower case, holds the name of the known family.
pub open spec fn window_of(model: Seq<char>, family: Seq<char>) -> u64 {
    if marker_index(lowercased(model), family, 0) is Some {
        KNOWN_WINDOW
    } else {
        DEFAULT_WINDOW
    }
}

/// Looks up the context window of a model.
pub fn window_for(model: &str, family: &str) -> (w: u64)
    ensures
        w == window_of(model@, family@),
{
    let name = chars_of(to_lowercase(model).as_str());
    let word = chars_of(family);
    match find_closing(name.as_slice(), 0, word.as_slice()) {
        Some(_) => KNOWN_WINDOW,
        None => DEFAULT_WINDOW,
    }
}

/// Estimates conversations against one context window.
pub struct ContextTracker {
    context_window: u64,
}

/// A count as a `u64` holds it.
pub open spec fn cap(n: nat) -> u64 {
    if n > u64::MAX {
        u64::MAX
    } else {
        n as u64
    }
}

/// The estimate for a text.
pub open spec fn text_tokens(text: Seq<char>) -> nat {
    token_estimate(encode_utf8(text).len())
}

/// The estimate for one item of a tool result.
pub open spec fn item_tokens(item: ToolResultContentView) -> nat {
    match item {
        ToolResultContentView::Text { text } => text_tokens(text),
        ToolResultContentView::Image { .. } => IMAGE_TOKENS as nat,
    }
}

/// The estimate for the items of a tool result.
pub open spec fn items_tokens(items: Seq<ToolResultContentView>) -> nat
    decreases items.len(),
{
    if items.len() == 0 {
        0
    } else {
        items_tokens(items.drop_last()) + item_tokens(items.last())
    }
}

/// The estimate for a content block. A tool call counts by its name and
/// the compact text of its input, an unknown block by its compact text.
pub open spec fn block_tokens(block: ContentBlockView) -> nat {
    match block {
        ContentBlockView::Text { text } => text_tokens(text),
        ContentBlockView::ToolUse { name, input, .. } => text_tokens(name) + text_tokens(
            json_text(input),
        ),
        ContentBlockView::ToolResult { content, .. } => items_tokens(content),
        ContentBlockView::Thinking { thinking, .. } => text_tokens(thinking),
        ContentBlockView::Image { .. } => IMAGE_TOKENS as nat,
        ContentBlockView::Unknown { value } => text_tokens(json_text(value)),
    }
}

/// The estimate for a run of content blocks.
pub open spec fn blocks_tokens(items: Seq<ContentBlockView>) -> nat
    decreases items.len(),
{
    if items.len() == 0 {
        0
    } else {
        blocks_tokens(items.drop_last()) + block_tokens(items.last())
    }
}

/// The estimate for a message.
pub open spec fn message_tokens(m: MessageView) -> nat {
    MESSAGE_OVERHEAD as nat + blocks_tokens(m.content)
}

/// The estimate for the messages of the role `role`.
pub open spec fn role_tokens(messages: Seq<MessageView>, role: Role) -> nat
    decreases messages.len(),
{
    if messages.len() == 0 {
        0
    } else if messages.last().role == role {
        role_tokens(messages.drop_last(), role) + message_tokens(messages.last())
    } else {
        role_tokens(messages.drop_last(), role)
    }
}

/// The number of messages up to and with the last assistant message; 0
/// if there is none.
pub open spec fn through_last_assistant(messages: Seq<MessageView>) -> int
    decreases messages.len(),
{
    if messages.len() == 0 {
        0
    } else if messages.last().role == Role::Assistant {
        messages.len() as int
    } else {
        through_last_assistant(messages.drop_last())
    }
}

/// The estimate for the user messages that stand directly before the
/// place `end`.
pub open spec fn users_before(messages: Seq<MessageView>, end: int) -> nat
    decreases end,
{
    if end <= 0 || end > messages.len() || messages[end - 1].role != Role::User {
        0
    } else {
        users_before(messages, end - 1) + message_tokens(messages[end - 1])
    }
}

/// The estimate for the input of the last turn: the user messages
/// directly before the last assistant message.
pub open spec fn last_turn_input(messages: Seq<MessageView>) -> nat {
    users_before(messages, through_last_assistant(messages) - 1)
}

/// The estimate for the output of the last turn: the last assistant
/// message.
pub open spec fn last_turn_output(messages: Seq<MessageView>) -> nat {
    let n = through_last_assistant(messages);
    if n == 0 {
        0
    } else {
        message_tokens(messages[n - 1])
    }
}

/// What [`ContextTracker::estimate`] says of a conversation.
pub open spec fn estimate_of(
    window: u64,
    messages: Seq<MessageView>,
    system_prompt: Option<Seq<char>>,
) -> ContextInfo {
    let system = match system_prompt {
        Some(text) => text_tokens(text),
        None => 0,
    };
    ContextInfo {
        estimated_tokens: cap(
            system + role_tokens(messages, Role::User) + role_tokens(messages, Role::Assistant),
        ),
        context_window: window,
        user_tokens: cap(role_tokens(messages, Role::User)),
        assistant_tokens: cap(role_tokens(messages, Role::Assistant)),
        system_tokens: cap(system),
        last_turn_input_tokens: cap(last_turn_input(messages)),
        last_turn_output_tokens: cap(last_turn_output(messages)),
    }
}

fn estimate_items_tokens(items: &Vec<ToolResultContent>) -> (n: u64)
    ensures
        n == cap(items_tokens(result_items(items@))),
{
    let mut tokens: u64 = 0;
    let mut i: usize = 0;
    while i < items.len()
        invariant
            i <= items@.len(),
            tokens == cap(items_tokens(result_items(items@).take(i as int))),
        decreases items.len() - i,
    {
        proof {
            let all = result_items(items@);
            assert(all.take(i + 1).drop_last() =~= all.take(i as int));
            assert(all.take(i + 1).last() == items@[i as int]@);
        }
        let more: u64 = match &items[i] {
            ToolResultContent::Text { text } => estimate_text_tokens(text.as_str()),
            ToolResultContent::Image { .. } => IMAGE_TOKENS,
        };
        tokens = tokens.saturating_add(more);
        i += 1;
    }
    assert(result_items(items@).take(i as int) =~= result_items(items@));
    tokens
}

/// Estimates the tokens of a content block.
pub fn estimate_block_tokens(block: &ContentBlock) -> (n: u64)
    ensures
        n == cap(block_tokens(block@)),
{
    match block {
        ContentBlock::Text { text } => estimate_text_tokens(text.as_str()),
        ContentBlock::ToolUse { name, input, .. } => {
            let printed = input.to_text();
            estimate_text_tokens(name.as_str()).saturating_add(
                estimate_text_tokens(printed.as_str()),
            )
        },
        ContentBlock::ToolResult { content, .. } => estimate_items_tokens(content),
        ContentBlock::Thinking { thinking, .. } => estimate_text_tokens(thinking.as_str()),
        ContentBlock::Image { .. } => IMAGE_TOKENS,
        ContentBlock::Unknown { value } => {
            let printed = value.to_text();
            estimate_text_tokens(printed.as_str())
        },
    }
}

/// Estimates the tokens of a message.
pub fn estimate_message_tokens(msg: &Message) -> (n: u64)
    ensures
        n == cap(message_tokens(msg@)),
{
    let mut tokens: u64 = MESSAGE_OVERHEAD;
    let mut i: usize = 0;
    while i < msg.content.len()
        invariant
            i <= msg.content@.len(),
            tokens == cap(
                MESSAGE_OVERHEAD as nat + blocks_tokens(blocks(msg.content@).take(i as int)),
            ),
        decreases msg.content.len() - i,
    {
        proof {
            let all = blocks(msg.content@);
            assert(all.take(i + 1).drop_last() =~= all.take(i as int));
            assert(all.take(i + 1).last() == msg.content@[i as int]@);
        }
        tokens = tokens.saturating_add(estimate_block_tokens(&msg.content[i]));
        i += 1;
    }
    assert(blocks(msg.content@).take(i as int) =~= blocks(msg.content@));
    tokens
}

/// The last assistant message is the last one at all, or the last one
/// before a message of another role.
proof fn lemma_through_last_assistant(messages: Seq<MessageView>, n: int)
    requires
        0 <= n <= messages.len(),
        forall|k: int| n <= k < messages.len() ==> messages[k].role != Role::Assistant,
        n > 0 ==> messages[n - 1].role == Role::Assistant,
    ensures
        through_last_assistant(messages) == n,
    decreases messages.len(),
{
    if messages.len() > 0 && n < messages.len() {
        let rest = messages.drop_last();
        assert forall|k: int| n <= k < rest.len() implies rest[k].role != Role::Assistant by {
            assert(rest[k] == messages[k]);
        }
        lemma_through_last_assistant(rest, n);
    }
}

impl ContextTracker {
    /// A tracker for the model `model`, `family` being the name of the
    /// family of models with the larger window.
    pub fn for_model(model: &str, family: &str) -> (t: Self)
        ensures
            t.window() == window_of(model@, family@),
    {
        ContextTracker { context_window: window_for(model, family) }
    }

    /// A tracker for a context window of `context_window` tokens.
    pub fn with_window(context_window: u64) -> (t: Self)
        ensures
            t.window() == context_window,
    {
        ContextTracker { context_window }
    }

    /// The context window that the tracker measures against.
    pub closed spec fn window(&self) -> u64 {
        self.context_window
    }

    /// The context window that the tracker measures against.
    pub fn context_window(&self) -> (w: u64)
        ensures
            w == self.window(),
    {
        self.context_window
    }

    /// Estimates how much of the window the conversation takes: the
    /// system prompt, the messages of each role, and the last turn (the
    /// last assistant message, and the user messages directly before it).
    pub fn estimate(&self, messages: &[Message], system_prompt: Option<&str>) -> (info: ContextInfo)
        ensures
            info == estimate_of(
                self.window(),
                transcript(messages@),
                match system_prompt {
                    Some(text) => Some(text@),
                    None => None,
                },
            ),
    {
        let ghost all = transcript(messages@);
        let system_tokens: u64 = match system_prompt {
            Some(text) => estimate_text_tokens(text),
            None => 0,
        };
        let mut user_tokens: u64 = 0;
        let mut assistant_tokens: u64 = 0;
        let mut last: usize = 0;
        let mut i: usize = 0;
        while i < messages.len()
            invariant
                i <= messages@.len(),
                all == transcript(messages@),
                user_tokens == cap(role_tokens(all.take(i as int), Role::User)),
                assistant_tokens == cap(role_tokens(all.take(i as int), Role::Assistant)),
                last <= i,
                last > 0 ==> all[last - 1].role == Role::Assistant,
                forall|k: int| last <= k < i ==> all[k].role != Role::Assistant,
            decreases messages.len() - i,
        {
            proof {
                assert(all.take(i + 1).drop_last() =~= all.take(i as int));
                assert(all.take(i + 1).last() == messages@[i as int]@);
                assert(all[i as int] == messages@[i as int]@);
            }
            let tokens = estimate_message_tokens(&messages[i]);
            match messages[i].role {
                Role::User => {
                    user_tokens = user_tokens.saturating_add(tokens);
                },
                Role::Assistant => {
                    assistant_tokens = assistant_tokens.saturating_add(tokens);
                    last = i + 1;
                },
            }
            i += 1;
        }
        proof {
            assert(all.take(i as int) =~= all);
            lemma_through_last_assistant(all, last as int);
        }
        let mut last_turn_input_tokens: u64 = 0;
        let mut last_turn_output_tokens: u64 = 0;
        if last > 0 {
            assert(all[last - 1] == messages@[last - 1]@);
            last_turn_output_tokens = estimate_message_tokens(&messages[last - 1]);
            let mut j: usize = last - 1;
            let mut done = false;
            while j > 0 && !done
                invariant
                    j <= last - 1,
                    last <= messages@.len(),
                    all == transcript(messages@),
                    cap(last_turn_input_tokens as nat + users_before(all, j as int)) == cap(
                        users_before(all, last - 1),
                    ),
                    done ==> users_before(all, j as int) == 0,
                decreases j, (if done { 0int } else { 1int }),
            {
                assert(all[j - 1] == messages@[j - 1]@);
                match messages[j - 1].role {
                    Role::User => {
                        last_turn_input_tokens = last_turn_input_tokens.saturating_add(
                            estimate_message_tokens(&messages[j - 1]),
                        );
                        j -= 1;
                    },
                    Role::Assistant => {
                        done = true;
                    },
                }
            }
        }
        ContextInfo {
            estimated_tokens: system_tokens.saturating_add(user_tokens).saturating_add(
                assistant_tokens,
            ),
            context_window: self.context_window,
            user_tokens,
            assistant_tokens,
            system_tokens,
            last_turn_input_tokens,
            last_turn_output_tokens,
        }
    }
}

} // verus!
