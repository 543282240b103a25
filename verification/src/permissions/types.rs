//! The vocabulary of the permission system.

use crate::json::Json;
use vstd::prelude::*;
use vstd::string::*;

verus! {

/// What a rule says of the calls it matches.
#[derive(Debug, Clone, Copy, PartialEq, Eq, Structural)]
pub enum PermissionLevel {
    Permit,
    Block,
    Prompt,
}

/// The word for a level.
pub open spec fn level_text(level: PermissionLevel) -> Seq<char> {
    match level {
        PermissionLevel::Permit => "permit"@,
        PermissionLevel::Block => "block"@,
        PermissionLevel::Prompt => "prompt"@,
    }
}

impl PermissionLevel {
    /// The word for the level.
    pub fn as_str(&self) -> (s: &'static str)
        ensures
            s@ == level_text(*self),
    {
        match self {
            PermissionLevel::Permit => "permit",
            PermissionLevel::Block => "block",
            PermissionLevel::Prompt => "prompt",
        }
    }
}

/// A rule: a tool name or glob, an optional argument pattern of the form
/// `field:glob`, and the level that applies where both match.
#[derive(Debug, Clone)]
pub struct PermissionRule {
    pub tool: String,
    pub args: Option<String>,
    pub level: PermissionLevel,
}

/// The outcome of weighing the rules for one tool call.
#[derive(Debug, Clone, PartialEq, Eq)]
pub enum PermissionDecision {
    /// The call may run.
    Permit,
    /// The call must not run.
    Block { reason: String },
    /// The user decides.
    Prompt { tool: String, description: String },
}

/// What the user answers to a prompt.
#[derive(Debug, Clone, Copy, PartialEq, Eq, Structural)]
pub enum PromptResponse {
    AllowOnce,
    AlwaysAllow,
    Deny,
}

/// The moments at which hooks run.
#[derive(Debug, Clone, Copy, PartialEq, Eq, Structural)]
pub enum HookEvent {
    BeforeTool,
    AfterTool,
    BeforeInput,
    OnExit,
    OnSessionStart,
    OnSessionEnd,
    WorktreeCreate,
    WorktreeRemove,
}

/// One hook: the event that starts it, the shell command, and the time it
/// may take, in milliseconds.
#[derive(Debug, Clone)]
pub struct HookConfig {
    pub event: HookEvent,
    pub command: String,
    pub timeout_ms: u64,
}

/// The time that a hook may take when its configuration names none.
pub fn default_hook_timeout() -> (t: u64)
    ensures
        t == 10_000,
{
    10_000
}

/// What a hook is told: the event and, where they apply, the tool, its
/// input, its clipped output, whether it failed, and the worktree.
#[derive(Debug, Clone)]
pub struct HookInput {
    pub event: HookEvent,
    pub tool_name: Option<String>,
    pub tool_input: Option<Json>,
    pub tool_output: Option<String>,
    pub is_error: Option<bool>,
    pub worktree_path: Option<String>,
    pub worktree_source: Option<String>,
}

} // verus!
