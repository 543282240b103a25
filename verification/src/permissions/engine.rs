//! The permission engine: static rules, the rules of the session, hooks,
//! and the decision for each tool call.

use crate::json::{Json, JsonView};
use crate::permissions::hooks::{hook_views, matching_hooks, HookConfigView, HookRun};
use crate::permissions::matcher::{
    first_at_level, lemma_first_at_level, lemma_winner, rule_matches, rule_text, winner,
    RuleMatcher,
};
use crate::permissions::types::{
    HookConfig, HookEvent, PermissionDecision, PermissionLevel, PermissionRule, PromptResponse,
};
use crate::text::{join3};
use vstd::prelude::*;
use vstd::string::*;

verus! {

pub enum DecisionView {
    Permit,
    Block { reason: Seq<char> },
    Prompt { tool: Seq<char>, description: Seq<char> },
}

impl View for PermissionDecision {
    type V = DecisionView;

    open spec fn view(&self) -> DecisionView {
        match self {
            PermissionDecision::Permit => DecisionView::Permit,
            PermissionDecision::Block { reason } => DecisionView::Block { reason: reason@ },
            PermissionDecision::Prompt { tool, description } => DecisionView::Prompt {
                tool: tool@,
                description: description@,
            },
        }
    }
}

/// The description of a prompt that no rule asked for.
pub open spec fn default_prompt_text(name: Seq<char>) -> Seq<char> {
    "Tool '"@ + name + "' requires permission"@
}

/// True when some rule among `rules` matches the call and permits it.
pub open spec fn some_rule_permits(rules: Seq<PermissionRule>, name: Seq<char>, input: JsonView) -> bool {
    exists|i: int|
        0 <= i < rules.len() && (#[trigger] rules[i]).level == PermissionLevel::Permit
            && rule_matches(rules[i], name, input)
}

/// Some rule permits the call exactly when there is a first matching
/// rule that permits.
pub proof fn lemma_some_rule_permits(rules: Seq<PermissionRule>, name: Seq<char>, input: JsonView)
    ensures
        some_rule_permits(rules, name, input) == (first_at_level(
            rules,
            name,
            input,
            PermissionLevel::Permit,
            0,
        ) is Some),
{
    lemma_first_at_level(rules, name, input, PermissionLevel::Permit, 0);
    match first_at_level(rules, name, input, PermissionLevel::Permit, 0) {
        Some(i) => {
            assert(rules[i].level == PermissionLevel::Permit && rule_matches(
                rules[i],
                name,
                input,
            ));
        },
        None => {},
    }
}

/// The decision for the call of `name` with `input`.
///
/// 1. In ludicrous mode every call is permitted.
/// 2. A call that some session rule permits is permitted, whatever other
///    session rules match it: session rules loosen and never tighten.
/// 3. Otherwise the static rules decide, where one matches: permit, block
///    with the description of the deciding rule as reason, or prompt with
///    that description.
/// 4. Where no static rule matches, a read-only tool is permitted and any
///    other tool prompts.
pub open spec fn decision(
    rules: Seq<PermissionRule>,
    session: Seq<PermissionRule>,
    ludicrous: bool,
    name: Seq<char>,
    input: JsonView,
    read_only: bool,
) -> DecisionView {
    if ludicrous {
        DecisionView::Permit
    } else if some_rule_permits(session, name, input) {
        DecisionView::Permit
    } else {
        match winner(rules, name, input) {
            Some(i) => match rules[i].level {
                PermissionLevel::Permit => DecisionView::Permit,
                PermissionLevel::Block => DecisionView::Block { reason: rule_text(rules[i]) },
                PermissionLevel::Prompt => DecisionView::Prompt {
                    tool: name,
                    description: rule_text(rules[i]),
                },
            },
            None => if read_only {
                DecisionView::Permit
            } else {
                DecisionView::Prompt { tool: name, description: default_prompt_text(name) }
            },
        }
    }
}

/// The engine that admits, blocks or questions tool calls.
#[derive(Debug)]
pub struct PermissionEngine {
    rules: Vec<PermissionRule>,
    session_rules: Vec<PermissionRule>,
    hooks: Vec<HookConfig>,
    interactive: bool,
    ludicrous: bool,
}

impl PermissionEngine {
    /// The static rules.
    pub closed spec fn rules(&self) -> Seq<PermissionRule> {
        self.rules@
    }

    /// The rules added during the session, oldest first.
    pub closed spec fn session_rules(&self) -> Seq<PermissionRule> {
        self.session_rules@
    }

    /// The configured hooks.
    pub closed spec fn hooks(&self) -> Seq<HookConfigView> {
        hook_views(self.hooks@)
    }

    /// True when a prompt handler stands ready to ask the user.
    pub closed spec fn interactive(&self) -> bool {
        self.interactive
    }

    /// True in ludicrous mode.
    pub closed spec fn is_ludicrous(&self) -> bool {
        self.ludicrous
    }

    /// The decision that the engine takes for a call.
    pub open spec fn decides(&self, name: Seq<char>, input: JsonView, read_only: bool) -> DecisionView {
        decision(self.rules(), self.session_rules(), self.is_ludicrous(), name, input, read_only)
    }

    /// An engine with the given static rules and hooks and no session rule.
    /// `interactive` tells whether a prompt handler is registered.
    pub fn new(rules: Vec<PermissionRule>, hooks: Vec<HookConfig>, interactive: bool) -> (e: Self)
        ensures
            e.rules() == rules@,
            e.session_rules() == Seq::<PermissionRule>::empty(),
            e.hooks() == hook_views(hooks@),
            e.interactive() == interactive,
            !e.is_ludicrous(),
    {
        PermissionEngine { rules, session_rules: Vec::new(), hooks, interactive, ludicrous: false }
    }

    /// An engine in ludicrous mode: it permits every call and runs no hook.
    pub fn ludicrous() -> (e: Self)
        ensures
            e.rules() == Seq::<PermissionRule>::empty(),
            e.session_rules() == Seq::<PermissionRule>::empty(),
            e.hooks() == Seq::<HookConfigView>::empty(),
            !e.interactive(),
            e.is_ludicrous(),
    {
        let e = PermissionEngine {
            rules: Vec::new(),
            session_rules: Vec::new(),
            hooks: Vec::new(),
            interactive: false,
            ludicrous: true,
        };
        assert(e.hooks() =~= Seq::<HookConfigView>::empty());
        e
    }

    /// Decides whether a tool call is permitted, blocked, or put to the
    /// user.
    pub fn check(&self, tool_name: &str, tool_input: &Json, is_read_only: bool) -> (d:
        PermissionDecision)
        ensures
            d@ == self.decides(tool_name@, tool_input@, is_read_only),
    {
        if self.ludicrous {
            return PermissionDecision::Permit;
        }
        proof {
            lemma_some_rule_permits(self.session_rules@, tool_name@, tool_input@);
        }
        if RuleMatcher::any_at_level(
            self.session_rules.as_slice(),
            tool_name,
            tool_input,
            PermissionLevel::Permit,
        ) {
            return PermissionDecision::Permit;
        }
        match RuleMatcher::evaluate(self.rules.as_slice(), tool_name, tool_input) {
            Some(found) => match found.level {
                PermissionLevel::Permit => PermissionDecision::Permit,
                PermissionLevel::Block => PermissionDecision::Block { reason: found.description },
                PermissionLevel::Prompt => PermissionDecision::Prompt {
                    tool: tool_name.to_owned(),
                    description: found.description,
                },
            },
            None => if is_read_only {
                PermissionDecision::Permit
            } else {
                PermissionDecision::Prompt {
                    tool: tool_name.to_owned(),
                    description: join3("Tool '", tool_name, "' requires permission"),
                }
            },
        }
    }

    /// Adds a rule for the rest of the session.
    pub fn add_session_rule(&mut self, rule: PermissionRule)
        ensures
            final(self).session_rules() == old(self).session_rules().push(rule),
            final(self).rules() == old(self).rules(),
            final(self).hooks() == old(self).hooks(),
            final(self).interactive() == old(self).interactive(),
            final(self).is_ludicrous() == old(self).is_ludicrous(),
    {
        self.session_rules.push(rule);
    }

    /// Starts the run of the hooks for `event`. In ludicrous mode no hook
    /// runs.
    pub fn start_hooks(&self, event: HookEvent) -> (run: HookRun)
        ensures
            run.denial() is None,
            run.remaining() == if self.is_ludicrous() {
                Seq::<HookConfigView>::empty()
            } else {
                matching_hooks(self.hooks(), event, self.hooks().len() as int)
            },
    {
        if self.ludicrous {
            let none: Vec<HookConfig> = Vec::new();
            let run = HookRun::start(none.as_slice(), event);
            assert(hook_views(none@) =~= Seq::<HookConfigView>::empty());
            run
        } else {
            HookRun::start(self.hooks.as_slice(), event)
        }
    }

    /// The answer to a prompt when nobody can be asked: denial. None when a
    /// prompt handler is registered, whose answer then counts.
    pub fn unattended_answer(&self) -> (r: Option<PromptResponse>)
        ensures
            r == if self.interactive() {
                None
            } else {
                Some(PromptResponse::Deny)
            },
    {
        if self.interactive {
            None
        } else {
            Some(PromptResponse::Deny)
        }
    }

    /// Tells whether the engine is in ludicrous mode.
    pub fn in_ludicrous_mode(&self) -> (r: bool)
        ensures
            r == self.is_ludicrous(),
    {
        self.ludicrous
    }
}

/// A matching static rule that blocks makes the decision a block, whatever
/// else permits among the static rules, unless the engine is in ludicrous
/// mode or a session rule permits the call.
pub proof fn lemma_block_wins(
    rules: Seq<PermissionRule>,
    session: Seq<PermissionRule>,
    name: Seq<char>,
    input: JsonView,
    read_only: bool,
    i: int,
)
    requires
        0 <= i < rules.len(),
        rules[i].level == PermissionLevel::Block,
        rule_matches(rules[i], name, input),
        !some_rule_permits(session, name, input),
    ensures
        decision(rules, session, false, name, input, read_only) is Block,
{
    lemma_winner(rules, name, input);
}

/// A session rule that permits a call makes the decision a permit,
/// whatever the other session rules and the static rules say of it, and
/// whether the tool only reads or not.
pub proof fn lemma_session_permit_wins(
    rules: Seq<PermissionRule>,
    session: Seq<PermissionRule>,
    ludicrous: bool,
    name: Seq<char>,
    input: JsonView,
    read_only: bool,
    i: int,
)
    requires
        0 <= i < session.len(),
        session[i].level == PermissionLevel::Permit,
        rule_matches(session[i], name, input),
    ensures
        decision(rules, session, ludicrous, name, input, read_only) is Permit,
{
}

/// Adding a session rule never takes a permission away: a call that was
/// permitted before is permitted after.
pub proof fn lemma_session_permit_is_monotone(
    rules: Seq<PermissionRule>,
    session: Seq<PermissionRule>,
    ludicrous: bool,
    rule: PermissionRule,
    name: Seq<char>,
    input: JsonView,
    read_only: bool,
)
    requires
        decision(rules, session, ludicrous, name, input, read_only) is Permit,
    ensures
        decision(rules, session.push(rule), ludicrous, name, input, read_only) is Permit,
{
    let longer = session.push(rule);
    if !ludicrous && some_rule_permits(session, name, input) {
        let i = choose|i: int|
            0 <= i < session.len() && (#[trigger] session[i]).level == PermissionLevel::Permit
                && rule_matches(session[i], name, input);
        assert(longer[i] == session[i]);
    }
}

} // verus!
