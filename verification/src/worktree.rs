//! Isolated working copies made with `git worktree`. Running git is the
//! caller's part; here are the arguments it is run with, what its
//! outcome means, and what the hooks are told.

use crate::permissions::types::{HookEvent, HookInput};
use crate::sse::{decode_lossy, utf8_lossy};
use crate::util::{truncate_str, truncated};
use crate::text::{join2, trim, trimmed};
use vstd::prelude::*;
use vstd::string::*;

verus! {

/// What can go wrong with a worktree.
#[derive(Debug, Clone, PartialEq, Eq)]
pub enum WorktreeError {
    NotGitRepo { path: String },
    GitNotFound,
    CreateFailed { message: String },
    RemoveFailed { message: String },
}

/// The text that a worktree error shows.
pub open spec fn worktree_error_text(e: WorktreeError) -> Seq<char> {
    match e {
        WorktreeError::NotGitRepo { path } => "not a git repository: "@ + path@,
        WorktreeError::GitNotFound => "git not found on PATH"@,
        WorktreeError::CreateFailed { message } => "failed to create worktree: "@ + message@,
        WorktreeError::RemoveFailed { message } => "failed to remove worktree: "@ + message@,
    }
}

impl WorktreeError {
    /// The text that the error shows.
    pub fn to_string(&self) -> (r: String)
        ensures
            r@ == worktree_error_text(*self),
    {
        match self {
            WorktreeError::NotGitRepo { path } => join2("not a git repository: ", path.as_str()),
            WorktreeError::GitNotFound => "git not found on PATH".to_owned(),
            WorktreeError::CreateFailed { message } => join2(
                "failed to create worktree: ",
                message.as_str(),
            ),
            WorktreeError::RemoveFailed { message } => join2(
                "failed to remove worktree: ",
                message.as_str(),
            ),
        }
    }
}

/// The name of the directory of a worktree: a fixed word and the first 8
/// bytes of a fresh id.
pub fn worktree_dir_name(id: &str) -> (name: String)
    ensures
        name@ == "chet-worktree-"@ + truncated(id@, 8),
{
    join2("chet-worktree-", truncate_str(id, 8))
}

/// The views of a list of arguments.
pub open spec fn argument_texts(arguments: Seq<String>) -> Seq<Seq<char>> {
    arguments.map_values(|a: String| a@)
}

/// The arguments that git adds a worktree with: on a new branch where
/// one is named, detached where not.
pub open spec fn add_arguments_of(branch: Option<Seq<char>>, path: Seq<char>) -> Seq<Seq<char>> {
    match branch {
        Some(b) => seq!["worktree"@, "add"@, "-b"@, b, path],
        None => seq!["worktree"@, "add"@, "--detach"@, path],
    }
}

/// Writes the arguments that git adds a worktree with.
pub fn add_arguments(branch: Option<&str>, path: &str) -> (arguments: Vec<String>)
    ensures
        argument_texts(arguments@) == add_arguments_of(
            match branch {
                Some(b) => Some(b@),
                None => None,
            },
            path@,
        ),
{
    let mut arguments: Vec<String> = Vec::new();
    arguments.push("worktree".to_owned());
    arguments.push("add".to_owned());
    match branch {
        Some(b) => {
            arguments.push("-b".to_owned());
            arguments.push(b.to_owned());
            arguments.push(path.to_owned());
            assert(argument_texts(arguments@) =~= seq!["worktree"@, "add"@, "-b"@, b@, path@]);
        },
        None => {
            arguments.push("--detach".to_owned());
            arguments.push(path.to_owned());
            assert(argument_texts(arguments@) =~= seq!["worktree"@, "add"@, "--detach"@, path@]);
        },
    }
    arguments
}

/// Writes the arguments that git removes a worktree with.
pub fn remove_arguments(path: &str) -> (arguments: Vec<String>)
    ensures
        argument_texts(arguments@) == seq!["worktree"@, "remove"@, "--force"@, path@],
{
    let mut arguments: Vec<String> = Vec::new();
    arguments.push("worktree".to_owned());
    arguments.push("remove".to_owned());
    arguments.push("--force".to_owned());
    arguments.push(path.to_owned());
    assert(argument_texts(arguments@) =~= seq!["worktree"@, "remove"@, "--force"@, path@]);
    arguments
}

/// What git wrote to its error stream, as the message of an error: read
/// as text, without the white space around it.
pub fn failure_message(stderr: &[u8]) -> (message: String)
    ensures
        message@ == trimmed(utf8_lossy(stderr@)),
{
    trim(decode_lossy(stderr).as_str())
}

/// The root of the repository, as git wrote it: read as text, without
/// the white space around it.
pub fn repo_root(stdout: &[u8]) -> (root: String)
    ensures
        root@ == trimmed(utf8_lossy(stdout@)),
{
    trim(decode_lossy(stdout).as_str())
}

/// What the outcome of adding a worktree means: nothing where git
/// succeeded, and the failure with what git wrote where it did not.
pub fn creation_outcome(success: bool, stderr: &[u8]) -> (r: Result<(), WorktreeError>)
    ensures
        success ==> r is Ok,
        !success ==> (r matches Err(WorktreeError::CreateFailed { message }) && message@
            == trimmed(utf8_lossy(stderr@))),
{
    if success {
        Ok(())
    } else {
        Err(WorktreeError::CreateFailed { message: failure_message(stderr) })
    }
}

/// What the outcome of removing a worktree means.
pub fn removal_outcome(success: bool, stderr: &[u8]) -> (r: Result<(), WorktreeError>)
    ensures
        success ==> r is Ok,
        !success ==> (r matches Err(WorktreeError::RemoveFailed { message }) && message@
            == trimmed(utf8_lossy(stderr@))),
{
    if success {
        Ok(())
    } else {
        Err(WorktreeError::RemoveFailed { message: failure_message(stderr) })
    }
}

/// The failure of a worktree that a hook refused.
pub fn hook_denial(reason: &str) -> (e: WorktreeError)
    ensures
        e matches WorktreeError::CreateFailed { message } && message@
            == "WorktreeCreate hook denied: "@ + reason@,
{
    WorktreeError::CreateFailed { message: join2("WorktreeCreate hook denied: ", reason) }
}

/// What the hooks are told of a worktree that was made or is about to
/// be removed: the event, where the worktree lies, and the repository
/// that it belongs to.
pub fn worktree_hook_input(event: HookEvent, path: &str, source: &str) -> (input: HookInput)
    ensures
        input.event == event,
        input.tool_name is None,
        input.tool_input is None,
        input.tool_output is None,
        input.is_error is None,
        input.worktree_path matches Some(p) && p@ == path@,
        input.worktree_source matches Some(s) && s@ == source@,
{
    HookInput {
        event,
        tool_name: None,
        tool_input: None,
        tool_output: None,
        is_error: None,
        worktree_path: Some(path.to_owned()),
        worktree_source: Some(source.to_owned()),
    }
}

/// A worktree that is removed once: whether it was removed already.
#[derive(Debug, Clone)]
pub struct ManagedWorktree {
    pub path: String,
    pub source: String,
    pub cleaned_up: bool,
}

impl ManagedWorktree {
    /// A worktree at `path` of the repository at `source`.
    pub fn new(path: String, source: String) -> (w: Self)
        ensures
            w.path == path,
            w.source == source,
            !w.cleaned_up,
    {
        ManagedWorktree { path, source, cleaned_up: false }
    }

    /// Marks the worktree as removed, and tells whether the removal is
    /// still to be done: it is on the first call only.
    pub fn begin_cleanup(&mut self) -> (due: bool)
        ensures
            due == !old(self).cleaned_up,
            final(self).cleaned_up,
            final(self).path == old(self).path,
            final(self).source == old(self).source,
    {
        let due = !self.cleaned_up;
        self.cleaned_up = true;
        due
    }
}

} // verus!
