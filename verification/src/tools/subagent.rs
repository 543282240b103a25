//! The tool that hands a task to a child agent. Running the child is the
//! caller's part; here the input is read and the child's outcome is
//! turned into the tool's output.

use crate::conversation::last_assistant_text;
use crate::error::{chet_error_text, ChetError, ToolError};
use crate::json::{Json, JsonView};
use crate::message::{transcript, Message, ToolDefinition, ToolDefinitionView};
use crate::tool::{ToolOutput, ToolOutputContentView};
use crate::tools::input::{
    build_schema, choice, choice_property, define, input_schema, is_invalid_input, names, prop,
    property, property_views, Property, PropertyView,
};
use crate::text::{join2, str_eq};
use crate::worktree::{worktree_error_text, WorktreeError};
use vstd::prelude::*;
use vstd::string::*;

verus! {

/// Where the child works.
#[derive(Debug, Clone, Copy, PartialEq, Eq, Structural)]
pub enum Isolation {
    /// In the working directory of its parent.
    Shared,
    /// In a worktree of its own.
    Worktree,
}

/// What the tool is asked: the task, and where the child works.
#[derive(Debug, Clone, PartialEq, Eq)]
pub struct SubagentInput {
    pub prompt: String,
    pub isolation: Isolation,
}

/// The task that an input names: its member `prompt`, where that is a
/// string.
pub open spec fn prompt_of(j: JsonView) -> Option<Seq<char>> {
    match j.field("prompt"@) {
        Some(v) => v.text(),
        None => None,
    }
}

/// Where an input wants the child to work: in a worktree where its
/// member `isolation` is the string `worktree`, else beside its parent.
pub open spec fn isolation_of(j: JsonView) -> Isolation {
    match j.field("isolation"@) {
        Some(v) => if v.text() == Some("worktree"@) {
            Isolation::Worktree
        } else {
            Isolation::Shared
        },
        None => Isolation::Shared,
    }
}

/// Reads the input of a call.
pub fn decode_subagent_input(input: &Json) -> (r: Result<SubagentInput, ToolError>)
    ensures
        match r {
            Ok(s) => prompt_of(input@) == Some(s.prompt@) && s.isolation == isolation_of(input@),
            Err(e) => prompt_of(input@) is None && is_invalid_input(
                e,
                "Subagent"@,
                "Missing required parameter: prompt"@,
            ),
        },
{
    let prompt = match input.get_str("prompt") {
        Some(p) => p.to_owned(),
        None => {
            return Err(
                ToolError::InvalidInput {
                    tool: "Subagent".to_owned(),
                    message: "Missing required parameter: prompt".to_owned(),
                },
            );
        },
    };
    let isolation = match input.get_str("isolation") {
        Some(word) => if str_eq(word, "worktree") {
            Isolation::Worktree
        } else {
            Isolation::Shared
        },
        None => Isolation::Shared,
    };
    Ok(SubagentInput { prompt, isolation })
}

/// What the tool answers when the child is done: the text of its last
/// assistant message that has any, or an error where there is none.
pub open spec fn child_answer(text: Option<Seq<char>>) -> (Seq<char>, bool) {
    match text {
        Some(t) => (t, false),
        None => ("Subagent completed but produced no text output"@, true),
    }
}

/// Reports what a child that is done has said.
pub fn report_child(messages: &[Message]) -> (out: ToolOutput)
    ensures
        out@.content == seq![
            ToolOutputContentView::Text {
                text: child_answer(
                    last_assistant_text(transcript(messages@), messages@.len() as int),
                ).0,
            },
        ],
        out@.is_error == child_answer(
            last_assistant_text(transcript(messages@), messages@.len() as int),
        ).1,
{
    match crate::conversation::extract_last_assistant_text(messages) {
        Some(text) => ToolOutput::text(text.as_str()),
        None => ToolOutput::error("Subagent completed but produced no text output"),
    }
}

/// Reports that the child failed.
pub fn report_child_failure(e: &ChetError) -> (out: ToolOutput)
    ensures
        out@.is_error,
        out@.content == seq![
            ToolOutputContentView::Text { text: "Subagent error: "@ + chet_error_text(*e) },
        ],
{
    ToolOutput::error(join2("Subagent error: ", e.to_string().as_str()).as_str())
}

/// Reports that no worktree could be made for the child.
pub fn report_worktree_failure(e: &WorktreeError) -> (out: ToolOutput)
    ensures
        out@.is_error,
        out@.content == seq![
            ToolOutputContentView::Text {
                text: "Failed to create worktree: "@ + worktree_error_text(*e),
            },
        ],
{
    ToolOutput::error(join2("Failed to create worktree: ", e.to_string().as_str()).as_str())
}

/// The properties of the input of the tool.
pub open spec fn subagent_properties() -> Seq<PropertyView> {
    seq![
        prop("prompt"@, "string"@, "The task for the child agent to perform"@),
        prop(
            "description"@,
            "string"@,
            "A short description of the task (for logging/display)"@,
        ),
        choice(
            "isolation"@,
            "string"@,
            seq!["none"@, "worktree"@],
            "Isolation mode. 'worktree' runs the child in an isolated git worktree. Default: 'none'."@,
        ),
    ]
}

/// What the tool announces of itself: its name, what it is for, and the
/// schema of its input.
pub open spec fn subagent_definition_view() -> ToolDefinitionView {
    ToolDefinitionView {
        name: "Subagent"@,
        description: "Spawn a child agent to handle a delegated task independently. The child agent has access to all built-in tools (Read, Write, Edit, Bash, Glob, Grep) and runs silently. Use this for complex sub-tasks like searching many files, running test suites, or making independent changes in parallel."@,
        input_schema: input_schema(seq!["prompt"@], subagent_properties()),
        cache_control: None,
    }
}

/// What the tool announces of itself.
pub fn subagent_definition() -> (d: ToolDefinition)
    ensures
        d@ == subagent_definition_view(),
{
    let mut required: Vec<&str> = Vec::new();
    required.push("prompt");
    let mut modes: Vec<&str> = Vec::new();
    modes.push("none");
    modes.push("worktree");
    assert(names(modes@) =~= seq!["none"@, "worktree"@]);
    let mut properties: Vec<Property> = Vec::new();
    properties.push(property("prompt", "string", "The task for the child agent to perform"));
    properties.push(
        property(
            "description",
            "string",
            "A short description of the task (for logging/display)",
        ),
    );
    properties.push(
        choice_property(
            "isolation",
            "string",
            &modes,
            "Isolation mode. 'worktree' runs the child in an isolated git worktree. Default: 'none'.",
        ),
    );
    let schema = build_schema(&required, &properties);
    assert(names(required@) =~= seq!["prompt"@]);
    assert(property_views(properties@) =~= subagent_properties());
    define(
        "Subagent",
        "Spawn a child agent to handle a delegated task independently. The child agent has access to all built-in tools (Read, Write, Edit, Bash, Glob, Grep) and runs silently. Use this for complex sub-tasks like searching many files, running test suites, or making independent changes in parallel.",
        schema,
    )
}

} // verus!
