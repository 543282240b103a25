//! What the interactive loop decides from a line that the user typed:
//! which command it is, what an answer to a prompt means, and the lines
//! that the loop shows. Reading and printing are the caller's part.

use crate::compact::{shorten, shortened};
use crate::json::{lemma_object_view, Json, JsonView, json_text};
use crate::markdown::{char_index, find_char};
use crate::message::Usage;
use crate::permissions::types::PromptResponse;
use crate::text::{chars_of, decimal, join2, join3, lowercased, str_eq, string_from_chars, to_lowercase, trim, trimmed, u64_to_string};
use vstd::prelude::*;
use vstd::slice::*;
use vstd::string::*;

verus! {

/// What a line asks of the interactive loop.
#[derive(Debug, Clone)]
pub enum ReplCommand {
    /// Nothing but white space.
    Empty,
    /// `/plan`: enter or leave plan mode.
    TogglePlan,
    /// `/quit` or `/exit`.
    Quit,
    /// `/clear`: begin a new session.
    Clear,
    /// `/cost`: show the token counts.
    Cost,
    /// `/help`.
    Help,
    /// `/model`: show the model.
    Model,
    /// `/context`: show how much of the context window is taken.
    Context,
    /// `/compact`: compact the conversation.
    Compact,
    /// `/sessions`: list the saved sessions.
    Sessions,
    /// `/resume`, with the prefix of a session id if one was given.
    Resume { prefix: Option<String> },
    /// Another word that begins with a slash.
    Unknown { input: String },
    /// A message for the model.
    Message { text: String },
}

/// A [`ReplCommand`] with its texts as sequences.
pub enum ReplCommandView {
    Empty,
    TogglePlan,
    Quit,
    Clear,
    Cost,
    Help,
    Model,
    Context,
    Compact,
    Sessions,
    Resume { prefix: Option<Seq<char>> },
    Unknown { input: Seq<char> },
    Message { text: Seq<char> },
}

impl View for ReplCommand {
    type V = ReplCommandView;

    open spec fn view(&self) -> ReplCommandView {
        match self {
            ReplCommand::Empty => ReplCommandView::Empty,
            ReplCommand::TogglePlan => ReplCommandView::TogglePlan,
            ReplCommand::Quit => ReplCommandView::Quit,
            ReplCommand::Clear => ReplCommandView::Clear,
            ReplCommand::Cost => ReplCommandView::Cost,
            ReplCommand::Help => ReplCommandView::Help,
            ReplCommand::Model => ReplCommandView::Model,
            ReplCommand::Context => ReplCommandView::Context,
            ReplCommand::Compact => ReplCommandView::Compact,
            ReplCommand::Sessions => ReplCommandView::Sessions,
            ReplCommand::Resume { prefix } => ReplCommandView::Resume {
                prefix: crate::message::opt_text(*prefix),
            },
            ReplCommand::Unknown { input } => ReplCommandView::Unknown { input: input@ },
            ReplCommand::Message { text } => ReplCommandView::Message { text: text@ },
        }
    }
}

/// The command that the word `word` names, `rest` being what follows the
/// first space of the line, if there is one.
pub open spec fn named_command(
    input: Seq<char>,
    word: Seq<char>,
    rest: Option<Seq<char>>,
) -> ReplCommandView {
    if word == "/quit"@ || word == "/exit"@ {
        ReplCommandView::Quit
    } else if word == "/clear"@ {
        ReplCommandView::Clear
    } else if word == "/cost"@ {
        ReplCommandView::Cost
    } else if word == "/help"@ {
        ReplCommandView::Help
    } else if word == "/model"@ {
        ReplCommandView::Model
    } else if word == "/context"@ {
        ReplCommandView::Context
    } else if word == "/compact"@ {
        ReplCommandView::Compact
    } else if word == "/sessions"@ {
        ReplCommandView::Sessions
    } else if word == "/resume"@ {
        ReplCommandView::Resume { prefix: rest }
    } else {
        ReplCommandView::Unknown { input }
    }
}

/// What a line asks for. The line counts without the white space around
/// it. `/plan` alone toggles plan mode; any other line that begins with
/// a slash is a command, named by what stands before its first space;
/// every other line is a message.
pub open spec fn command_of(line: Seq<char>) -> ReplCommandView {
    let input = trimmed(line);
    if input.len() == 0 {
        ReplCommandView::Empty
    } else if input == "/plan"@ {
        ReplCommandView::TogglePlan
    } else if input[0] != '/' {
        ReplCommandView::Message { text: input }
    } else {
        let space = char_index(input, ' ', 0);
        if space < input.len() {
            named_command(
                input,
                input.subrange(0, space),
                Some(trimmed(input.subrange(space + 1, input.len() as int))),
            )
        } else {
            named_command(input, input, None)
        }
    }
}

fn name_command(input: String, word: &str, rest: Option<String>) -> (c: ReplCommand)
    ensures
        c@ == named_command(input@, word@, crate::message::opt_text(rest)),
{
    if str_eq(word, "/quit") || str_eq(word, "/exit") {
        ReplCommand::Quit
    } else if str_eq(word, "/clear") {
        ReplCommand::Clear
    } else if str_eq(word, "/cost") {
        ReplCommand::Cost
    } else if str_eq(word, "/help") {
        ReplCommand::Help
    } else if str_eq(word, "/model") {
        ReplCommand::Model
    } else if str_eq(word, "/context") {
        ReplCommand::Context
    } else if str_eq(word, "/compact") {
        ReplCommand::Compact
    } else if str_eq(word, "/sessions") {
        ReplCommand::Sessions
    } else if str_eq(word, "/resume") {
        ReplCommand::Resume { prefix: rest }
    } else {
        ReplCommand::Unknown { input }
    }
}

/// Reads a line that the user typed.
pub fn read_command(line: &str) -> (c: ReplCommand)
    ensures
        c@ == command_of(line@),
{
    let input = trim(line);
    let chars = chars_of(input.as_str());
    if chars.len() == 0 {
        return ReplCommand::Empty;
    }
    if str_eq(input.as_str(), "/plan") {
        return ReplCommand::TogglePlan;
    }
    if chars[0] != '/' {
        return ReplCommand::Message { text: input };
    }
    match find_char(chars.as_slice(), 0, ' ') {
        Some(space) => {
            let word = string_from_chars(slice_subrange(chars.as_slice(), 0, space));
            let tail = string_from_chars(slice_subrange(chars.as_slice(), space + 1, chars.len()));
            let rest = trim(tail.as_str());
            name_command(input, word.as_str(), Some(rest))
        },
        None => {
            let word = input.clone();
            name_command(input, word.as_str(), None)
        },
    }
}

/// What an answer to a permission prompt means, the answer being
/// trimmed and in lower case: `y`, `yes` or nothing allows once, `a` or
/// `always` allows from now on, anything else refuses.
pub open spec fn permission_answer(answer: Seq<char>) -> PromptResponse {
    if answer == "y"@ || answer == "yes"@ || answer.len() == 0 {
        PromptResponse::AllowOnce
    } else if answer == "a"@ || answer == "always"@ {
        PromptResponse::AlwaysAllow
    } else {
        PromptResponse::Deny
    }
}

/// Classifies an answer to a permission prompt that is trimmed and in
/// lower case.
pub fn classify_permission_answer(answer: &str) -> (r: PromptResponse)
    ensures
        r == permission_answer(answer@),
{
    proof {
        reveal_strlit("");
        if answer@.len() == 0 {
            assert(answer@ =~= ""@);
        }
    }
    if str_eq(answer, "y") || str_eq(answer, "yes") || str_eq(answer, "") {
        PromptResponse::AllowOnce
    } else if str_eq(answer, "a") || str_eq(answer, "always") {
        PromptResponse::AlwaysAllow
    } else {
        PromptResponse::Deny
    }
}

/// Reads the line that the user typed at a permission prompt.
pub fn read_permission_answer(line: &str) -> (r: PromptResponse)
    ensures
        r == permission_answer(lowercased(trimmed(line@))),
{
    let answer = to_lowercase(trim(line).as_str());
    classify_permission_answer(answer.as_str())
}

/// What the user wants done with a plan.
#[derive(Debug, Clone, Copy, PartialEq, Eq, Structural)]
pub enum PlanApproval {
    Approve,
    Refine,
    Discard,
}

/// What an answer to the question about a plan means, the answer being
/// trimmed and in lower case; `None` where it is none of the choices.
pub open spec fn plan_answer(answer: Seq<char>) -> Option<PlanApproval> {
    if answer == "a"@ || answer == "approve"@ {
        Some(PlanApproval::Approve)
    } else if answer == "r"@ || answer == "refine"@ {
        Some(PlanApproval::Refine)
    } else if answer == "d"@ || answer == "discard"@ {
        Some(PlanApproval::Discard)
    } else {
        None
    }
}

/// Classifies an answer to the question about a plan that is trimmed and
/// in lower case.
pub fn classify_plan_answer(answer: &str) -> (r: Option<PlanApproval>)
    ensures
        r == plan_answer(answer@),
{
    if str_eq(answer, "a") || str_eq(answer, "approve") {
        Some(PlanApproval::Approve)
    } else if str_eq(answer, "r") || str_eq(answer, "refine") {
        Some(PlanApproval::Refine)
    } else if str_eq(answer, "d") || str_eq(answer, "discard") {
        Some(PlanApproval::Discard)
    } else {
        None
    }
}

/// Reads the line that the user typed when asked about a plan. An
/// answer that is none of the choices gives `None`; the loop then goes
/// on refining.
pub fn read_plan_answer(line: &str) -> (r: Option<PlanApproval>)
    ensures
        r == plan_answer(lowercased(trimmed(line@))),
{
    let answer = to_lowercase(trim(line).as_str());
    classify_plan_answer(answer.as_str())
}

/// How a member of a tool's input is shown: a string by its text, any
/// other value by its compact JSON text, cut to 60 bytes and an ellipsis
/// where it has more.
pub open spec fn shown_value(v: JsonView) -> Seq<char> {
    match v {
        JsonView::String(s) => shortened(s, 60, 60),
        other => shortened(json_text(other), 60, 60),
    }
}

/// The first `n` members as `key: value`, with a comma and a space
/// between them.
pub open spec fn shown_members(members: Seq<(Seq<char>, JsonView)>, n: int) -> Seq<char>
    decreases n,
{
    if n <= 0 || n > members.len() {
        Seq::empty()
    } else if n == 1 {
        members[0].0 + ": "@ + shown_value(members[0].1)
    } else {
        shown_members(members, n - 1) + ", "@ + members[n - 1].0 + ": "@ + shown_value(
            members[n - 1].1,
        )
    }
}

/// A short account of a tool's input: the first three members of an
/// object; nothing for any other value.
pub open spec fn input_summary(input: JsonView) -> Seq<char> {
    match input {
        JsonView::Object(members) => shown_members(
            members,
            if members.len() < 3 {
                members.len() as int
            } else {
                3
            },
        ),
        _ => Seq::empty(),
    }
}

fn show_value(v: &Json) -> (r: String)
    ensures
        r@ == shown_value(v@),
{
    match v {
        Json::String(s) => shorten(s.as_str(), 60, 60),
        _ => {
            let printed = v.to_text();
            shorten(printed.as_str(), 60, 60)
        },
    }
}

/// Gives a short account of a tool's input for a prompt.
pub fn summarize_input(input: &Json) -> (r: String)
    ensures
        r@ == input_summary(input@),
{
    match input {
        Json::Object(members) => {
            proof {
                lemma_object_view(*input);
            }
            let ghost views = input@->Object_0;
            let count: usize = if members.len() < 3 {
                members.len()
            } else {
                3
            };
            let mut out = String::new();
            let mut i: usize = 0;
            while i < count
                invariant
                    i <= count <= members@.len(),
                    views.len() == members@.len(),
                    forall|k: int|
                        0 <= k < members@.len() ==> views[k] == (members@[k].0@, members@[k].1@),
                    out@ == shown_members(views, i as int),
                decreases count - i,
            {
                let value = show_value(&members[i].1);
                let part = join3(members[i].0.as_str(), ": ", value.as_str());
                if i == 0 {
                    out = part;
                } else {
                    out = join3(out.as_str(), ", ", part.as_str());
                }
                proof {
                    assert(views[i as int] == (members@[i as int].0@, members@[i as int].1@));
                    if i > 0 {
                        assert(out@ =~= shown_members(views, i as int) + ", "@ + views[i as int].0
                            + ": "@ + shown_value(views[i as int].1));
                    }
                }
                i += 1;
            }
            out
        },
        _ => String::new(),
    }
}

/// The line that shows the token counts.
pub open spec fn usage_text(usage: Usage) -> Seq<char> {
    "Tokens \u{2014} input: "@ + decimal(usage.input_tokens as nat) + ", output: "@ + decimal(
        usage.output_tokens as nat,
    ) + ", cache read: "@ + decimal(usage.cache_read_input_tokens as nat) + ", cache write: "@
        + decimal(usage.cache_creation_input_tokens as nat)
}

/// Writes the line that shows the token counts.
pub fn usage_line(usage: &Usage) -> (r: String)
    ensures
        r@ == usage_text(*usage),
{
    let input = u64_to_string(usage.input_tokens);
    let output = u64_to_string(usage.output_tokens);
    let read = u64_to_string(usage.cache_read_input_tokens);
    let written = u64_to_string(usage.cache_creation_input_tokens);
    let head = join3("Tokens \u{2014} input: ", input.as_str(), ", output: ");
    let middle = join3(output.as_str(), ", cache read: ", read.as_str());
    let tail = join2(", cache write: ", written.as_str());
    let line = join3(head.as_str(), middle.as_str(), tail.as_str());
    assert(line@ =~= usage_text(*usage));
    line
}

} // verus!
