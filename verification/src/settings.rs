//! The settings file: TOML, read into the settings that it holds. The
//! TOML itself is read by the TOML library; what a value must look like
//! to be a rule, a hook or a section of the settings is decided here.

use crate::config::{ApiSettings, PermissionsSettings, SettingsFile};
use crate::json::{lemma_array_view, value_from_outside, Json, JsonView};
use crate::permissions::types::{HookConfig, HookEvent, PermissionLevel, PermissionRule};
use crate::message::opt_text;
use crate::text::str_eq;
use vstd::prelude::*;
use vstd::string::*;

verus! {

/// The value that a TOML text holds, as the TOML library reads it and
/// hands it on as JSON; none where the text is no TOML.
pub uninterp spec fn toml_value(text: Seq<char>) -> Option<JsonView>;

/// `toml::from_str` into a `toml::Value`, handed on through
/// `serde_json::to_value`: the value that the text holds, tables as
/// objects and arrays as arrays; none where the text is no TOML or the
/// value cannot be handed on. The result depends on the text alone.
#[verifier::external_body]
pub(crate) fn parse_toml(text: &str) -> (r: Option<Json>)
    ensures
        match r {
            Some(j) => toml_value(text@) == Some(j@),
            None => toml_value(text@) is None,
        },
{
    match ::toml::from_str::<::toml::Value>(text) {
        Ok(v) => match serde_json::to_value(v) {
            Ok(j) => Some(value_from_outside(&j)),
            Err(_) => None,
        },
        Err(_) => None,
    }
}

/// A [`PermissionRule`] with its texts as sequences.
pub struct RuleView {
    pub tool: Seq<char>,
    pub args: Option<Seq<char>>,
    pub level: PermissionLevel,
}

/// A [`HookConfig`] with its command as a sequence.
pub struct HookView {
    pub event: HookEvent,
    pub command: Seq<char>,
    pub timeout_ms: u64,
}

/// The view of a rule.
pub open spec fn rule_view(r: PermissionRule) -> RuleView {
    RuleView { tool: r.tool@, args: opt_text(r.args), level: r.level }
}

/// The view of a hook.
pub open spec fn hook_view(h: HookConfig) -> HookView {
    HookView { event: h.event, command: h.command@, timeout_ms: h.timeout_ms }
}

/// The views of a list of rules.
pub open spec fn rule_views(rules: Seq<PermissionRule>) -> Seq<RuleView> {
    rules.map_values(|r: PermissionRule| rule_view(r))
}

/// The views of a list of hooks.
pub open spec fn hook_views(hooks: Seq<HookConfig>) -> Seq<HookView> {
    hooks.map_values(|h: HookConfig| hook_view(h))
}

/// The level that a word names.
pub open spec fn level_of(word: Seq<char>) -> Option<PermissionLevel> {
    if word == "permit"@ {
        Some(PermissionLevel::Permit)
    } else if word == "block"@ {
        Some(PermissionLevel::Block)
    } else if word == "prompt"@ {
        Some(PermissionLevel::Prompt)
    } else {
        None
    }
}

/// The event that a word names.
pub open spec fn event_of(word: Seq<char>) -> Option<HookEvent> {
    if word == "before_tool"@ {
        Some(HookEvent::BeforeTool)
    } else if word == "after_tool"@ {
        Some(HookEvent::AfterTool)
    } else if word == "before_input"@ {
        Some(HookEvent::BeforeInput)
    } else if word == "on_exit"@ {
        Some(HookEvent::OnExit)
    } else if word == "on_session_start"@ {
        Some(HookEvent::OnSessionStart)
    } else if word == "on_session_end"@ {
        Some(HookEvent::OnSessionEnd)
    } else if word == "worktree_create"@ {
        Some(HookEvent::WorktreeCreate)
    } else if word == "worktree_remove"@ {
        Some(HookEvent::WorktreeRemove)
    } else {
        None
    }
}

/// Reads a level from its name.
pub fn parse_level(word: &str) -> (r: Option<PermissionLevel>)
    ensures
        r == level_of(word@),
{
    if str_eq(word, "permit") {
        Some(PermissionLevel::Permit)
    } else if str_eq(word, "block") {
        Some(PermissionLevel::Block)
    } else if str_eq(word, "prompt") {
        Some(PermissionLevel::Prompt)
    } else {
        None
    }
}

/// Reads an event from its name.
pub fn parse_event(word: &str) -> (r: Option<HookEvent>)
    ensures
        r == event_of(word@),
{
    if str_eq(word, "before_tool") {
        Some(HookEvent::BeforeTool)
    } else if str_eq(word, "after_tool") {
        Some(HookEvent::AfterTool)
    } else if str_eq(word, "before_input") {
        Some(HookEvent::BeforeInput)
    } else if str_eq(word, "on_exit") {
        Some(HookEvent::OnExit)
    } else if str_eq(word, "on_session_start") {
        Some(HookEvent::OnSessionStart)
    } else if str_eq(word, "on_session_end") {
        Some(HookEvent::OnSessionEnd)
    } else if str_eq(word, "worktree_create") {
        Some(HookEvent::WorktreeCreate)
    } else if str_eq(word, "worktree_remove") {
        Some(HookEvent::WorktreeRemove)
    } else {
        None
    }
}

/// A text that may be left out: none where the member is missing, the
/// text where it is a string. Any other value is no such text.
pub open spec fn optional_text(j: JsonView, key: Seq<char>) -> Option<Option<Seq<char>>> {
    match j.field(key) {
        None => Some(None),
        Some(v) => match v.text() {
            Some(t) => Some(Some(t)),
            None => None,
        },
    }
}

/// A count that may be left out: none where the member is missing, the
/// count where it is a non-negative integer of at most `max`. Any other
/// value is no such count.
pub open spec fn optional_count(j: JsonView, key: Seq<char>, max: u64) -> Option<Option<u64>> {
    match j.field(key) {
        None => Some(None),
        Some(v) => match v.unsigned() {
            Some(n) => if n <= max {
                Some(Some(n))
            } else {
                None
            },
            None => None,
        },
    }
}

/// Reads a text that may be left out.
pub fn read_optional_text(j: &Json, key: &str) -> (r: Option<Option<String>>)
    ensures
        match r {
            Some(t) => optional_text(j@, key@) == Some(opt_text(t)),
            None => optional_text(j@, key@) is None,
        },
{
    match j.get(key) {
        None => Some(None),
        Some(v) => match v.as_str() {
            Some(t) => Some(Some(t.to_owned())),
            None => None,
        },
    }
}

/// Reads a count that may be left out.
pub fn read_optional_count(j: &Json, key: &str, max: u64) -> (r: Option<Option<u64>>)
    ensures
        r == optional_count(j@, key@, max),
{
    match j.get(key) {
        None => Some(None),
        Some(v) => match v.as_u64() {
            Some(n) => if n <= max {
                Some(Some(n))
            } else {
                None
            },
            None => None,
        },
    }
}

/// The rule that a value holds: a tool, a level by its name, and
/// arguments where they are given.
pub open spec fn decode_rule(j: JsonView) -> Option<RuleView> {
    match (j.text_field("tool"@), optional_text(j, "args"@), j.text_field("level"@)) {
        (Some(tool), Some(args), Some(word)) => match level_of(word) {
            Some(level) => if j is Object {
                Some(RuleView { tool, args, level })
            } else {
                None
            },
            None => None,
        },
        _ => None,
    }
}

/// The hook that a value holds: an event by its name, a command, and
/// the time it may take, 10000 milliseconds where none is given.
pub open spec fn decode_hook(j: JsonView) -> Option<HookView> {
    match (j.text_field("event"@), j.text_field("command"@), optional_count(
        j,
        "timeout_ms"@,
        u64::MAX,
    )) {
        (Some(word), Some(command), Some(timeout)) => match event_of(word) {
            Some(event) => if j is Object {
                Some(
                    HookView {
                        event,
                        command,
                        timeout_ms: match timeout {
                            Some(t) => t,
                            None => 10_000,
                        },
                    },
                )
            } else {
                None
            },
            None => None,
        },
        _ => None,
    }
}

/// The first `n` values as rules; none where one of them is no rule.
pub open spec fn decode_rules(items: Seq<JsonView>, n: int) -> Option<Seq<RuleView>>
    decreases n,
{
    if n <= 0 || n > items.len() {
        Some(Seq::empty())
    } else {
        match (decode_rules(items, n - 1), decode_rule(items[n - 1])) {
            (Some(before), Some(rule)) => Some(before.push(rule)),
            _ => None,
        }
    }
}

/// The first `n` values as hooks; none where one of them is no hook.
pub open spec fn decode_hooks(items: Seq<JsonView>, n: int) -> Option<Seq<HookView>>
    decreases n,
{
    if n <= 0 || n > items.len() {
        Some(Seq::empty())
    } else {
        match (decode_hooks(items, n - 1), decode_hook(items[n - 1])) {
            (Some(before), Some(hook)) => Some(before.push(hook)),
            _ => None,
        }
    }
}

/// Reads a rule.
pub fn read_rule(j: &Json) -> (r: Option<PermissionRule>)
    ensures
        match r {
            Some(rule) => decode_rule(j@) == Some(rule_view(rule)),
            None => decode_rule(j@) is None,
        },
{
    let tool = match j.get_str("tool") {
        Some(t) => t.to_owned(),
        None => {
            return None;
        },
    };
    let args = match read_optional_text(j, "args") {
        Some(a) => a,
        None => {
            return None;
        },
    };
    let level = match j.get_str("level") {
        Some(word) => match parse_level(word) {
            Some(l) => l,
            None => {
                return None;
            },
        },
        None => {
            return None;
        },
    };
    Some(PermissionRule { tool, args, level })
}

/// Reads a hook.
pub fn read_hook(j: &Json) -> (r: Option<HookConfig>)
    ensures
        match r {
            Some(hook) => decode_hook(j@) == Some(hook_view(hook)),
            None => decode_hook(j@) is None,
        },
{
    let event = match j.get_str("event") {
        Some(word) => match parse_event(word) {
            Some(e) => e,
            None => {
                return None;
            },
        },
        None => {
            return None;
        },
    };
    let command = match j.get_str("command") {
        Some(c) => c.to_owned(),
        None => {
            return None;
        },
    };
    let timeout_ms = match read_optional_count(j, "timeout_ms", u64::MAX) {
        Some(Some(t)) => t,
        Some(None) => 10_000,
        None => {
            return None;
        },
    };
    Some(HookConfig { event, command, timeout_ms })
}

/// The list that the member `key` holds: empty where it is missing, its
/// items where it is an array. Any other value is no list.
pub open spec fn list_member(j: JsonView, key: Seq<char>) -> Option<Seq<JsonView>> {
    match j.field(key) {
        None => Some(Seq::empty()),
        Some(v) => v.items(),
    }
}

/// The rules that the settings hold: those of the member `rules` of the
/// section `permissions`, none where either is missing.
pub open spec fn rules_of(j: JsonView) -> Option<Seq<RuleView>> {
    match j.field("permissions"@) {
        None => Some(Seq::empty()),
        Some(section) => if section is Object {
            match list_member(section, "rules"@) {
                Some(items) => decode_rules(items, items.len() as int),
                None => None,
            }
        } else {
            None
        },
    }
}

/// The hooks that the settings hold, none where the member is missing.
pub open spec fn hooks_of(j: JsonView) -> Option<Seq<HookView>> {
    match list_member(j, "hooks"@) {
        Some(items) => decode_hooks(items, items.len() as int),
        None => None,
    }
}

/// The API section of the settings file, with its texts as sequences.
pub struct ApiView {
    pub api_key: Option<Seq<char>>,
    pub model: Option<Seq<char>>,
    pub max_tokens: Option<u32>,
    pub base_url: Option<Seq<char>>,
    pub thinking_budget: Option<u32>,
}

/// The view of the API section.
pub open spec fn api_view(a: ApiSettings) -> ApiView {
    ApiView {
        api_key: opt_text(a.api_key),
        model: opt_text(a.model),
        max_tokens: a.max_tokens,
        base_url: opt_text(a.base_url),
        thinking_budget: a.thinking_budget,
    }
}

/// A count as 32 bits hold it.
pub open spec fn narrow(n: Option<u64>) -> Option<u32> {
    match n {
        Some(v) => Some(v as u32),
        None => None,
    }
}

/// The API section that a table holds: each member may be left out; one
/// of the wrong kind, or a count beyond 32 bits, makes the table no
/// section.
pub open spec fn decode_api(j: JsonView) -> Option<ApiView> {
    match (
        optional_text(j, "api_key"@),
        optional_text(j, "model"@),
        optional_count(j, "max_tokens"@, u32::MAX as u64),
        optional_text(j, "base_url"@),
        optional_count(j, "thinking_budget"@, u32::MAX as u64),
    ) {
        (Some(api_key), Some(model), Some(max_tokens), Some(base_url), Some(thinking_budget)) => {
            if j is Object {
                Some(
                    ApiView {
                        api_key,
                        model,
                        max_tokens: narrow(max_tokens),
                        base_url,
                        thinking_budget: narrow(thinking_budget),
                    },
                )
            } else {
                None
            }
        },
        _ => None,
    }
}

/// The API section of the settings: that of the member `api`, and an
/// empty one where the member is missing.
pub open spec fn api_of(j: JsonView) -> Option<ApiView> {
    match j.field("api"@) {
        None => Some(
            ApiView {
                api_key: None,
                model: None,
                max_tokens: None,
                base_url: None,
                thinking_budget: None,
            },
        ),
        Some(section) => decode_api(section),
    }
}

/// What a settings file holds, with its texts as sequences.
pub struct SettingsView {
    pub api: ApiView,
    pub rules: Seq<RuleView>,
    pub hooks: Seq<HookView>,
}

/// The view of the settings.
pub open spec fn settings_view(s: SettingsFile) -> SettingsView {
    SettingsView {
        api: api_view(s.api),
        rules: rule_views(s.permissions.rules@),
        hooks: hook_views(s.hooks@),
    }
}

/// The settings without anything set.
pub open spec fn empty_settings() -> SettingsView {
    SettingsView {
        api: ApiView {
            api_key: None,
            model: None,
            max_tokens: None,
            base_url: None,
            thinking_budget: None,
        },
        rules: Seq::empty(),
        hooks: Seq::empty(),
    }
}

/// The settings that a value holds; none where a part of it is not what
/// it must be.
pub open spec fn decode_settings(j: JsonView) -> Option<SettingsView> {
    match (api_of(j), rules_of(j), hooks_of(j)) {
        (Some(api), Some(rules), Some(hooks)) => if j is Object {
            Some(SettingsView { api, rules, hooks })
        } else {
            None
        },
        _ => None,
    }
}

/// The settings that the text of a settings file holds. A text that is
/// no TOML, or whose value is no settings, counts as an empty file.
pub open spec fn settings_of(text: Seq<char>) -> SettingsView {
    match toml_value(text) {
        Some(j) => match decode_settings(j) {
            Some(s) => s,
            None => empty_settings(),
        },
        None => empty_settings(),
    }
}

fn narrow_count(n: Option<u64>) -> (r: Option<u32>)
    requires
        n matches Some(v) ==> v <= u32::MAX,
    ensures
        r == narrow(n),
{
    match n {
        Some(v) => Some(v as u32),
        None => None,
    }
}

/// Reads the API section from its table.
pub fn read_api(j: &Json) -> (r: Option<ApiSettings>)
    ensures
        match r {
            Some(a) => decode_api(j@) == Some(api_view(a)),
            None => decode_api(j@) is None,
        },
{
    let api_key = match read_optional_text(j, "api_key") {
        Some(v) => v,
        None => {
            return None;
        },
    };
    let model = match read_optional_text(j, "model") {
        Some(v) => v,
        None => {
            return None;
        },
    };
    let max_tokens = match read_optional_count(j, "max_tokens", 4294967295) {
        Some(v) => narrow_count(v),
        None => {
            return None;
        },
    };
    let base_url = match read_optional_text(j, "base_url") {
        Some(v) => v,
        None => {
            return None;
        },
    };
    let thinking_budget = match read_optional_count(j, "thinking_budget", 4294967295) {
        Some(v) => narrow_count(v),
        None => {
            return None;
        },
    };
    match j {
        Json::Object(_) => Some(
            ApiSettings { api_key, model, max_tokens, base_url, thinking_budget },
        ),
        _ => None,
    }
}

fn read_rules(items: &Vec<Json>, Ghost(views): Ghost<Seq<JsonView>>) -> (r: Option<
    Vec<PermissionRule>,
>)
    requires
        views.len() == items@.len(),
        forall|k: int| 0 <= k < items@.len() ==> views[k] == items@[k]@,
    ensures
        match r {
            Some(rules) => decode_rules(views, views.len() as int) == Some(rule_views(rules@)),
            None => decode_rules(views, views.len() as int) is None,
        },
{
    let mut rules: Vec<PermissionRule> = Vec::new();
    let mut k: usize = 0;
    assert(rule_views(rules@) =~= Seq::empty());
    while k < items.len()
        invariant
            k <= items@.len(),
            views.len() == items@.len(),
            forall|i: int| 0 <= i < items@.len() ==> views[i] == items@[i]@,
            decode_rules(views, k as int) == Some(rule_views(rules@)),
        decreases items.len() - k,
    {
        let ghost before = rule_views(rules@);
        match read_rule(&items[k]) {
            Some(rule) => {
                rules.push(rule);
                assert(rule_views(rules@) =~= before.push(rule_view(rule)));
            },
            None => {
                proof {
                    lemma_rules_fail(views, k + 1, views.len() as int);
                }
                return None;
            },
        }
        k += 1;
    }
    Some(rules)
}

/// Once the first `n` values are no rules, no more of them are.
proof fn lemma_rules_fail(items: Seq<JsonView>, n: int, m: int)
    requires
        0 <= n <= m <= items.len(),
        decode_rules(items, n) is None,
    ensures
        decode_rules(items, m) is None,
    decreases m - n,
{
    if n < m {
        lemma_rules_fail(items, n, m - 1);
    }
}

/// Once the first `n` values are no hooks, no more of them are.
proof fn lemma_hooks_fail(items: Seq<JsonView>, n: int, m: int)
    requires
        0 <= n <= m <= items.len(),
        decode_hooks(items, n) is None,
    ensures
        decode_hooks(items, m) is None,
    decreases m - n,
{
    if n < m {
        lemma_hooks_fail(items, n, m - 1);
    }
}

fn read_hooks(items: &Vec<Json>, Ghost(views): Ghost<Seq<JsonView>>) -> (r: Option<Vec<HookConfig>>)
    requires
        views.len() == items@.len(),
        forall|k: int| 0 <= k < items@.len() ==> views[k] == items@[k]@,
    ensures
        match r {
            Some(hooks) => decode_hooks(views, views.len() as int) == Some(hook_views(hooks@)),
            None => decode_hooks(views, views.len() as int) is None,
        },
{
    let mut hooks: Vec<HookConfig> = Vec::new();
    let mut k: usize = 0;
    assert(hook_views(hooks@) =~= Seq::empty());
    while k < items.len()
        invariant
            k <= items@.len(),
            views.len() == items@.len(),
            forall|i: int| 0 <= i < items@.len() ==> views[i] == items@[i]@,
            decode_hooks(views, k as int) == Some(hook_views(hooks@)),
        decreases items.len() - k,
    {
        let ghost before = hook_views(hooks@);
        match read_hook(&items[k]) {
            Some(hook) => {
                hooks.push(hook);
                assert(hook_views(hooks@) =~= before.push(hook_view(hook)));
            },
            None => {
                proof {
                    lemma_hooks_fail(views, k + 1, views.len() as int);
                }
                return None;
            },
        }
        k += 1;
    }
    Some(hooks)
}

fn read_rules_section(j: &Json) -> (r: Option<Vec<PermissionRule>>)
    ensures
        match r {
            Some(rules) => rules_of(j@) == Some(rule_views(rules@)),
            None => rules_of(j@) is None,
        },
{
    let section = match j.get("permissions") {
        Some(s) => s,
        None => {
            let rules: Vec<PermissionRule> = Vec::new();
            assert(rule_views(rules@) =~= Seq::empty());
            return Some(rules);
        },
    };
    match section {
        Json::Object(_) => {},
        _ => {
            return None;
        },
    }
    match section.get("rules") {
        None => {
            let rules: Vec<PermissionRule> = Vec::new();
            assert(rule_views(rules@) =~= Seq::empty());
            assert(decode_rules(Seq::<JsonView>::empty(), 0) == Some(Seq::<RuleView>::empty()));
            Some(rules)
        },
        Some(list) => match list {
            Json::Array(items) => {
                proof {
                    lemma_array_view(*list);
                }
                read_rules(items, Ghost(list@->Array_0))
            },
            _ => None,
        },
    }
}

fn read_hooks_section(j: &Json) -> (r: Option<Vec<HookConfig>>)
    ensures
        match r {
            Some(hooks) => hooks_of(j@) == Some(hook_views(hooks@)),
            None => hooks_of(j@) is None,
        },
{
    match j.get("hooks") {
        None => {
            let hooks: Vec<HookConfig> = Vec::new();
            assert(hook_views(hooks@) =~= Seq::empty());
            assert(decode_hooks(Seq::<JsonView>::empty(), 0) == Some(Seq::<HookView>::empty()));
            Some(hooks)
        },
        Some(list) => match list {
            Json::Array(items) => {
                proof {
                    lemma_array_view(*list);
                }
                read_hooks(items, Ghost(list@->Array_0))
            },
            _ => None,
        },
    }
}

/// Reads the settings that a value holds.
pub fn read_settings(j: &Json) -> (r: Option<SettingsFile>)
    ensures
        match r {
            Some(s) => decode_settings(j@) == Some(settings_view(s)),
            None => decode_settings(j@) is None,
        },
{
    let api = match j.get("api") {
        None => ApiSettings::default(),
        Some(section) => match read_api(section) {
            Some(a) => a,
            None => {
                return None;
            },
        },
    };
    let rules = match read_rules_section(j) {
        Some(r) => r,
        None => {
            return None;
        },
    };
    let hooks = match read_hooks_section(j) {
        Some(h) => h,
        None => {
            return None;
        },
    };
    match j {
        Json::Object(_) => Some(
            SettingsFile { api, permissions: PermissionsSettings { rules }, hooks },
        ),
        _ => None,
    }
}

/// Reads the text of a settings file. A text that cannot be read counts
/// as an empty file.
pub fn parse_settings(text: &str) -> (s: SettingsFile)
    ensures
        settings_view(s) == settings_of(text@),
{
    match parse_toml(text) {
        Some(j) => match read_settings(&j) {
            Some(s) => s,
            None => {
                let s = SettingsFile::default();
                assert(rule_views(s.permissions.rules@) =~= Seq::empty());
                assert(hook_views(s.hooks@) =~= Seq::empty());
                s
            },
        },
        None => {
            let s = SettingsFile::default();
            assert(rule_views(s.permissions.rules@) =~= Seq::empty());
            assert(hook_views(s.hooks@) =~= Seq::empty());
            s
        },
    }
}

} // verus!
