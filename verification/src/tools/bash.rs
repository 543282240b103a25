//! The tool that runs a shell command.

use crate::command::{cd_target, extract_cd_target};
use crate::error::ToolError;
use crate::json::{Json, JsonView};
use crate::message::{ToolDefinition, ToolDefinitionView};
use crate::text::{i64_to_string, join2, signed_decimal};
use crate::tool::{ToolOutput, ToolOutputContent, ToolOutputContentView};
use crate::tools::input::{prop, property_views, PropertyView, 
    build_schema, count_member, define, input_schema, is_invalid_input, names, property,
    read_count_member, read_text_member, text_member, Property,
};
use crate::util::{byte_len, truncate_str, truncated};
use vstd::prelude::*;
use vstd::string::*;
use vstd::utf8::*;

verus! {

/// The longest output, in bytes, that is handed back in full.
pub const MAX_OUTPUT_BYTES: usize = 30_000;

/// The time that a command may take where the call names none, in
/// milliseconds.
pub const DEFAULT_TIMEOUT_MS: u64 = 120_000;

/// The longest time that a call may ask for, in milliseconds.
pub const MAX_TIMEOUT_MS: u64 = 600_000;

/// What the tool is asked to do: run `command`, for at most `timeout`
/// milliseconds.
#[derive(Debug, Clone, PartialEq, Eq)]
pub struct BashInput {
    pub command: String,
    pub timeout: Option<u64>,
}

/// The input that a JSON value stands for, or the message of the error.
pub open spec fn bash_input_of(j: JsonView) -> Result<(Seq<char>, Option<u64>), Seq<char>> {
    match text_member(j, "command"@) {
        Err(m) => Err(m),
        Ok(command) => match count_member(j, "timeout"@) {
            Err(m) => Err(m),
            Ok(timeout) => Ok((command, timeout)),
        },
    }
}

/// Reads the input of a call.
pub fn decode_bash_input(input: &Json) -> (r: Result<BashInput, ToolError>)
    ensures
        match r {
            Ok(b) => bash_input_of(input@) == Ok::<(Seq<char>, Option<u64>), Seq<char>>(
                (b.command@, b.timeout),
            ),
            Err(e) => bash_input_of(input@) is Err && is_invalid_input(
                e,
                "Bash"@,
                bash_input_of(input@)->Err_0,
            ),
        },
{
    let command = match read_text_member(input, "Bash", "command") {
        Ok(c) => c,
        Err(e) => {
            return Err(e);
        },
    };
    let timeout = match read_count_member(input, "Bash", "timeout") {
        Ok(t) => t,
        Err(e) => {
            return Err(e);
        },
    };
    Ok(BashInput { command, timeout })
}

/// The time that the command may take: what the call asks for, or the
/// default, and never more than the longest time.
pub fn effective_timeout(timeout: Option<u64>) -> (t: u64)
    ensures
        t == match timeout {
            Some(asked) => if asked <= MAX_TIMEOUT_MS {
                asked
            } else {
                MAX_TIMEOUT_MS
            },
            None => DEFAULT_TIMEOUT_MS,
        },
{
    match timeout {
        Some(asked) => if asked <= MAX_TIMEOUT_MS {
            asked
        } else {
            MAX_TIMEOUT_MS
        },
        None => DEFAULT_TIMEOUT_MS,
    }
}

/// What the command printed: its standard output, then its standard
/// error, with a line feed between the two where both are there.
pub open spec fn printed(stdout: Seq<char>, stderr: Seq<char>) -> Seq<char> {
    if stdout.len() > 0 && stderr.len() > 0 {
        stdout + seq!['\n'] + stderr
    } else {
        stdout + stderr
    }
}

/// The text that is handed back for what the command printed and its exit
/// code. Output of more than `MAX_OUTPUT_BYTES` bytes is clipped and
/// marked. A command that printed nothing is reported by its exit code
/// where that is not zero, and as without output otherwise.
pub open spec fn reported(text: Seq<char>, exit_code: int) -> Seq<char> {
    let shown = if encode_utf8(text).len() > MAX_OUTPUT_BYTES {
        truncated(text, MAX_OUTPUT_BYTES as int) + "\n\n(output truncated)"@
    } else {
        text
    };
    if shown.len() == 0 {
        if exit_code != 0 {
            "Command exited with code "@ + signed_decimal(exit_code)
        } else {
            "(no output)"@
        }
    } else {
        shown
    }
}

/// Shapes the output of a command that ended: one text, which is an error
/// where the exit code is not zero.
pub fn shape_output(stdout: &str, stderr: &str, exit_code: i32) -> (out: ToolOutput)
    ensures
        out@.content == seq![
            ToolOutputContentView::Text { text: reported(printed(stdout@, stderr@), exit_code as int) },
        ],
        out@.is_error == (exit_code != 0),
{
    let mut text = stdout.to_owned();
    if !stdout.is_empty() && !stderr.is_empty() {
        text.append("\n");
        proof {
            reveal_strlit("\n");
            assert("\n"@ =~= seq!['\n']);
        }
    }
    text.append(stderr);
    assert(text@ =~= printed(stdout@, stderr@));
    let shown = if byte_len(text.as_str()) > MAX_OUTPUT_BYTES {
        join2(truncate_str(text.as_str(), MAX_OUTPUT_BYTES), "\n\n(output truncated)")
    } else {
        text
    };
    let result = if shown.as_str().is_empty() {
        if exit_code != 0 {
            join2("Command exited with code ", i64_to_string(exit_code as i64).as_str())
        } else {
            "(no output)".to_owned()
        }
    } else {
        shown
    };
    let mut content: Vec<ToolOutputContent> = Vec::new();
    content.push(ToolOutputContent::Text { text: result });
    let out = ToolOutput { content, is_error: exit_code != 0 };
    assert(out@.content =~= seq![
        ToolOutputContentView::Text { text: reported(printed(stdout@, stderr@), exit_code as int) },
    ]);
    out
}

/// The tool, with the working directory that it keeps from call to call.
#[derive(Debug, Clone)]
pub struct BashTool {
    cwd: Option<String>,
}

impl BashTool {
    /// The working directory that the tool keeps, if it has one yet.
    pub closed spec fn kept(&self) -> Option<Seq<char>> {
        match self.cwd {
            Some(d) => Some(d@),
            None => None,
        }
    }

    /// A tool that keeps no working directory yet.
    pub fn new() -> (t: Self)
        ensures
            t.kept() is None,
    {
        BashTool { cwd: None }
    }

    /// The directory in which the next command runs: the one that the tool
    /// keeps, or that of the call.
    pub fn working_dir(&self, fallback: &str) -> (d: String)
        ensures
            d@ == match self.kept() {
                Some(kept) => kept,
                None => fallback@,
            },
    {
        match &self.cwd {
            Some(d) => d.clone(),
            None => fallback.to_owned(),
        }
    }

    /// The directory that `command` changes to, if it is a simple `cd`.
    pub fn cd_request(command: &str) -> (r: Option<String>)
        ensures
            match r {
                Some(target) => cd_target(command@) == Some(target@),
                None => cd_target(command@) is None,
            },
    {
        extract_cd_target(command)
    }

    /// Keeps `dir` as the working directory from now on.
    pub fn remember(&mut self, dir: String)
        ensures
            final(self).kept() == Some(dir@),
    {
        self.cwd = Some(dir);
    }
}

impl Default for BashTool {
    fn default() -> (t: Self)
        ensures
            t.kept() is None,
    {
        BashTool::new()
    }
}

/// The properties of the input of the tool.
pub open spec fn bash_properties() -> Seq<PropertyView> {
    seq![
        prop("command"@, "string"@, "The bash command to execute"@),
        prop("timeout"@, "integer"@, "Timeout in milliseconds (max 600000)"@),
    ]
}

/// What the tool announces of itself: its name, what it is for, and the
/// schema of its input.
pub open spec fn bash_definition_view() -> ToolDefinitionView {
    ToolDefinitionView {
        name: "Bash"@,
        description: "Execute a bash command. The working directory persists between calls. Output is truncated at 30K characters. Commands time out after 2 minutes by default."@,
        input_schema: input_schema(seq!["command"@], bash_properties()),
        cache_control: None,
    }
}

/// What the tool announces of itself.
pub fn bash_definition() -> (d: ToolDefinition)
    ensures
        d@ == bash_definition_view(),
{
    let mut required: Vec<&str> = Vec::new();
    required.push("command");
    let mut properties: Vec<Property> = Vec::new();
    properties.push(property("command", "string", "The bash command to execute"));
    properties.push(property("timeout", "integer", "Timeout in milliseconds (max 600000)"));
    let schema = build_schema(&required, &properties);
    assert(names(required@) =~= seq!["command"@]);
    assert(property_views(properties@) =~= bash_properties());
    define(
        "Bash",
        "Execute a bash command. The working directory persists between calls. Output is truncated at 30K characters. Commands time out after 2 minutes by default.",
        schema,
    )
}

} // verus!
