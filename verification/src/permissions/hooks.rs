//! The protocol of hook processes: which hooks run for an event, what the
//! end of a process means, and when a run of hooks stops.
//!
//! Launching the processes is the caller's part. The caller reports how
//! each one ended and is told what it means.

use crate::permissions::types::{HookConfig, HookEvent};
use crate::text::{decimal, i64_to_string, join2, join3, signed_decimal, u64_to_string};
use vstd::prelude::*;
use vstd::string::*;

verus! {

/// How a hook process ended.
#[derive(Debug, Clone)]
pub enum HookOutcome {
    /// It exited with this code.
    Exited(i32),
    /// A signal ended it.
    Signaled,
    /// Waiting for it failed with this message.
    WaitFailed(String),
    /// It ran past its timeout and was killed.
    TimedOut,
    /// It could not be started; the message says why.
    SpawnFailed(String),
    /// The input could not be encoded for it; the message says why.
    EncodeFailed(String),
}

/// What the end of a hook means for the operation it guards.
#[derive(Debug, Clone, PartialEq, Eq)]
pub enum HookResult {
    /// The operation may go on.
    Approve,
    /// The operation is vetoed, for this reason.
    Deny(String),
    /// The hook failed; the operation goes on.
    Error(String),
}

pub enum HookResultView {
    Approve,
    Deny(Seq<char>),
    Error(Seq<char>),
}

impl View for HookResult {
    type V = HookResultView;

    open spec fn view(&self) -> HookResultView {
        match self {
            HookResult::Approve => HookResultView::Approve,
            HookResult::Deny(r) => HookResultView::Deny(r@),
            HookResult::Error(m) => HookResultView::Error(m@),
        }
    }
}

pub struct HookConfigView {
    pub event: HookEvent,
    pub command: Seq<char>,
    pub timeout_ms: u64,
}

impl View for HookConfig {
    type V = HookConfigView;

    open spec fn view(&self) -> HookConfigView {
        HookConfigView { event: self.event, command: self.command@, timeout_ms: self.timeout_ms }
    }
}

impl HookConfig {
    /// A copy of the hook.
    pub fn duplicate(&self) -> (r: HookConfig)
        ensures
            r@ == self@,
    {
        HookConfig {
            event: self.event,
            command: self.command.clone(),
            timeout_ms: self.timeout_ms,
        }
    }
}

/// The views of a list of hooks.
pub open spec fn hook_views(hooks: Seq<HookConfig>) -> Seq<HookConfigView> {
    hooks.map_values(|h: HookConfig| h@)
}

/// What the end `outcome` of the hook `hook` means. Exit code 0 approves,
/// exit code 2 denies, and everything else is an error of the hook.
pub open spec fn meaning(hook: HookConfigView, outcome: HookOutcome) -> HookResultView {
    match outcome {
        HookOutcome::Exited(code) => if code == 0 {
            HookResultView::Approve
        } else if code == 2 {
            HookResultView::Deny("Hook '"@ + hook.command + "' denied the operation"@)
        } else {
            HookResultView::Error("Hook exited with code "@ + signed_decimal(code as int))
        },
        HookOutcome::Signaled => HookResultView::Error("Hook terminated by signal"@),
        HookOutcome::WaitFailed(m) => HookResultView::Error("Failed to wait for hook: "@ + m@),
        HookOutcome::TimedOut => HookResultView::Error(
            "Hook '"@ + hook.command + "' timed out after "@ + decimal(hook.timeout_ms as nat)
                + "ms"@,
        ),
        HookOutcome::SpawnFailed(m) => HookResultView::Error("Failed to spawn hook: "@ + m@),
        HookOutcome::EncodeFailed(m) => HookResultView::Error(
            "Failed to serialize hook input: "@ + m@,
        ),
    }
}

/// Tells what the end of a hook process means.
pub fn classify_outcome(hook: &HookConfig, outcome: &HookOutcome) -> (r: HookResult)
    ensures
        r@ == meaning(hook@, *outcome),
{
    match outcome {
        HookOutcome::Exited(code) => if *code == 0 {
            HookResult::Approve
        } else if *code == 2 {
            HookResult::Deny(join3("Hook '", hook.command.as_str(), "' denied the operation"))
        } else {
            HookResult::Error(
                join2("Hook exited with code ", i64_to_string(*code as i64).as_str()),
            )
        },
        HookOutcome::Signaled => HookResult::Error("Hook terminated by signal".to_owned()),
        HookOutcome::WaitFailed(m) => HookResult::Error(
            join2("Failed to wait for hook: ", m.as_str()),
        ),
        HookOutcome::TimedOut => {
            let head = join3("Hook '", hook.command.as_str(), "' timed out after ");
            HookResult::Error(
                join3(head.as_str(), u64_to_string(hook.timeout_ms).as_str(), "ms"),
            )
        },
        HookOutcome::SpawnFailed(m) => HookResult::Error(
            join2("Failed to spawn hook: ", m.as_str()),
        ),
        HookOutcome::EncodeFailed(m) => HookResult::Error(
            join2("Failed to serialize hook input: ", m.as_str()),
        ),
    }
}

/// The hooks among the first `n` of `hooks` that the event `event` starts,
/// in the order of the list.
pub open spec fn matching_hooks(hooks: Seq<HookConfigView>, event: HookEvent, n: int) -> Seq<
    HookConfigView,
>
    decreases n,
{
    if n <= 0 {
        Seq::empty()
    } else if hooks[n - 1].event == event {
        matching_hooks(hooks, event, n - 1).push(hooks[n - 1])
    } else {
        matching_hooks(hooks, event, n - 1)
    }
}

/// Selects the hooks that `event` starts, in the order of the list.
pub fn select_hooks(hooks: &[HookConfig], event: HookEvent) -> (r: Vec<HookConfig>)
    ensures
        hook_views(r@) == matching_hooks(hook_views(hooks@), event, hooks@.len() as int),
{
    let mut out: Vec<HookConfig> = Vec::new();
    let mut i: usize = 0;
    assert(hook_views(out@) =~= matching_hooks(hook_views(hooks@), event, 0));
    while i < hooks.len()
        invariant
            i <= hooks@.len(),
            hook_views(out@) == matching_hooks(hook_views(hooks@), event, i as int),
        decreases hooks.len() - i,
    {
        if hooks[i].event == event {
            let ghost before = hook_views(out@);
            out.push(hooks[i].duplicate());
            assert(hook_views(out@) =~= before.push(hooks@[i as int]@));
        }
        i += 1;
    }
    out
}

/// A run of hooks for one event: the hooks still to run, and the denial
/// that stopped the run, if one did. Hooks run one after the other; the
/// first denial wins and nothing runs after it.
#[derive(Debug)]
pub struct HookRun {
    hooks: Vec<HookConfig>,
    next: usize,
    denial: Option<String>,
}

impl HookRun {
    /// The hooks that are still to run, in order.
    pub closed spec fn remaining(&self) -> Seq<HookConfigView> {
        if self.denial is Some || self.next > self.hooks@.len() {
            Seq::empty()
        } else {
            hook_views(self.hooks@).subrange(self.next as int, self.hooks@.len() as int)
        }
    }

    /// The reason of the denial that stopped the run, if one did.
    pub closed spec fn denial(&self) -> Option<Seq<char>> {
        match self.denial {
            Some(r) => Some(r@),
            None => None,
        }
    }

    /// Starts a run of the hooks that `event` starts.
    pub fn start(hooks: &[HookConfig], event: HookEvent) -> (run: Self)
        ensures
            run.remaining() == matching_hooks(hook_views(hooks@), event, hooks@.len() as int),
            run.denial() is None,
    {
        let selected = select_hooks(hooks, event);
        let run = HookRun { hooks: selected, next: 0, denial: None };
        assert(run.remaining() =~= hook_views(selected@));
        run
    }

    /// The hook to run next; none when the run is over.
    pub fn next_hook(&self) -> (r: Option<&HookConfig>)
        ensures
            match r {
                Some(h) => self.remaining().len() > 0 && h@ == self.remaining()[0],
                None => self.remaining().len() == 0,
            },
    {
        if self.denial.is_some() || self.next >= self.hooks.len() {
            None
        } else {
            Some(&self.hooks[self.next])
        }
    }

    /// Records how the hook that ran last ended, and tells what it means.
    /// A denial ends the run; otherwise the run goes on with the next hook.
    pub fn record(&mut self, outcome: &HookOutcome) -> (r: HookResult)
        requires
            old(self).remaining().len() > 0,
        ensures
            r@ == meaning(old(self).remaining()[0], *outcome),
            r matches HookResult::Deny(reason) ==> final(self).remaining().len() == 0
                && final(self).denial() == Some(reason@),
            !(r is Deny) ==> final(self).remaining() == old(self).remaining().drop_first()
                && final(self).denial() == old(self).denial(),
    {
        assert(hook_views(self.hooks@).len() == self.hooks@.len());
        assert(self.next < self.hooks@.len());
        let count: usize = self.hooks.len();
        let r = classify_outcome(&self.hooks[self.next], outcome);
        let ghost before = self.remaining();
        match &r {
            HookResult::Deny(reason) => {
                self.denial = Some(reason.clone());
            },
            _ => {
                assert(self.next < count);
                self.next = self.next + 1;
                assert(self.remaining() =~= before.drop_first());
            },
        }
        r
    }

    /// The verdict of the run: the reason of the denial, or approval.
    pub fn verdict(&self) -> (r: Result<(), String>)
        ensures
            match r {
                Ok(_) => self.denial() is None,
                Err(reason) => self.denial() == Some(reason@),
            },
    {
        match &self.denial {
            Some(reason) => Err(reason.clone()),
            None => Ok(()),
        }
    }
}

} // verus!
