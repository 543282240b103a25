//! Matching of rules against tool calls, and the choice of the rule that
//! decides.

use crate::json::{Json, JsonView};
use crate::permissions::types::{level_text, PermissionLevel, PermissionRule};
use crate::text::{chars_of, join3, join4, str_eq, string_from_chars};
use crate::util::byte_len;
use vstd::prelude::*;
use vstd::slice::*;
use vstd::string::*;
use vstd::utf8::*;

verus! {

/// The longest pattern, in bytes, that is handed to the glob engine.
pub const GLOB_PATTERN_MAX: usize = 4096;

/// The largest number of `{` in a pattern that is handed to the glob
/// engine.
pub const GLOB_BRACES_MAX: usize = 256;

/// The number of `{` in a pattern. It bounds how deep the groups of the
/// pattern are nested.
pub open spec fn brace_count(pattern: Seq<char>) -> nat
    decreases pattern.len(),
{
    if pattern.len() == 0 {
        0
    } else {
        brace_count(pattern.drop_last()) + if pattern.last() == '{' {
            1nat
        } else {
            0nat
        }
    }
}

/// Whether the glob `pattern` matches `text`, compared case-sensitively;
/// none where the glob engine gives no answer: `pattern` is not a
/// well-formed glob, or its automaton passes the limits of the engine.
pub uninterp spec fn glob_match(pattern: Seq<char>, text: Seq<char>) -> Option<bool>;

/// `globset::GlobBuilder::build`, `GlobSetBuilder::build` and
/// `GlobSet::is_match`: builds the glob `pattern`, with case-sensitive
/// matching and `\` as the escape character, as a set of one glob, and
/// tests `text` against it; none where the pattern does not parse or the
/// set cannot be built. The pattern is read alike on every machine; on a
/// machine where `\` separates paths the crate reads a `\` of the text as
/// `/`, and the name stands for the answers of that reading.
///
/// Building the set returns every failure of the regex engine (groups
/// nested too deep, an automaton that is too large) as an error. What it
/// unwraps is the building of an Aho-Corasick automaton over a literal
/// part of the pattern, which fails only where a pattern or its states
/// pass 31 bits. The crate turns nested groups into a regex by recursion,
/// one call for each level. The two bounds keep both far away, and they
/// keep the time that the automaton of a long literal takes to build,
/// which grows with the square of its length, within a fraction of a
/// second.
#[verifier::external_body]
fn glob_is_match(pattern: &str, text: &str) -> (r: Option<bool>)
    requires
        pattern.spec_bytes().len() <= GLOB_PATTERN_MAX,
        brace_count(pattern@) <= GLOB_BRACES_MAX,
    ensures
        r == glob_match(pattern@, text@),
{
    let mut builder = globset::GlobBuilder::new(pattern);
    builder.case_insensitive(false).backslash_escape(true);
    let glob = match builder.build() {
        Ok(glob) => glob,
        Err(_) => return None,
    };
    match globset::GlobSetBuilder::new().add(glob).build() {
        Ok(set) => Some(set.is_match(text)),
        Err(_) => None,
    }
}

/// The verdict of a pattern on a text, given what the glob engine said of
/// them: its answer where it gave one, else whether the two are equal.
pub open spec fn verdict_of(pattern: Seq<char>, text: Seq<char>, glob: Option<bool>) -> bool {
    match glob {
        Some(b) => b,
        None => pattern == text,
    }
}

/// True when `pattern` is handed to the glob engine: it has at most
/// `GLOB_PATTERN_MAX` bytes and at most `GLOB_BRACES_MAX` times `{`.
/// Beyond these the engine could take unbounded time or fail in ways
/// that it does not report.
pub open spec fn compiles_as_glob(pattern: Seq<char>) -> bool {
    encode_utf8(pattern).len() <= GLOB_PATTERN_MAX && brace_count(pattern) <= GLOB_BRACES_MAX
}

/// True when `pattern` matches `text`: as a glob where the glob engine
/// answers, as a literal where it gives no answer or is not asked.
pub open spec fn pattern_matches(pattern: Seq<char>, text: Seq<char>) -> bool {
    if compiles_as_glob(pattern) {
        verdict_of(pattern, text, glob_match(pattern, text))
    } else {
        pattern == text
    }
}

/// True when the tool pattern `pattern` matches the tool `name`. The
/// pattern `*` matches every tool.
pub open spec fn tool_name_matches(pattern: Seq<char>, name: Seq<char>) -> bool {
    pattern == "*"@ || pattern_matches(pattern, name)
}

/// The index of the first colon in `s`, or its length.
pub open spec fn colon_index(s: Seq<char>, from: int) -> int
    decreases s.len() - from,
{
    if from < 0 || from >= s.len() {
        s.len() as int
    } else if s[from] == ':' {
        from
    } else {
        colon_index(s, from + 1)
    }
}

/// True when the argument pattern `args`, of the form `field:glob`, matches
/// the tool input: the input has `field` as a string and the glob matches
/// that string. A pattern without a colon, a missing field and a field that
/// is no string match nothing.
pub open spec fn args_match(args: Seq<char>, input: JsonView) -> bool {
    let k = colon_index(args, 0);
    if k >= args.len() {
        false
    } else {
        match input.text_field(args.subrange(0, k)) {
            Some(value) => pattern_matches(args.subrange(k + 1, args.len() as int), value),
            None => false,
        }
    }
}

/// True when `rule` matches the call of `name` with `input`.
pub open spec fn rule_matches(rule: PermissionRule, name: Seq<char>, input: JsonView) -> bool {
    tool_name_matches(rule.tool@, name) && match rule.args {
        Some(args) => args_match(args@, input),
        None => true,
    }
}

/// The index of the first rule at or after `from` that matches the call and
/// has level `level`.
pub open spec fn first_at_level(
    rules: Seq<PermissionRule>,
    name: Seq<char>,
    input: JsonView,
    level: PermissionLevel,
    from: int,
) -> Option<int>
    decreases rules.len() - from,
{
    if from < 0 || from >= rules.len() {
        None
    } else if rules[from].level == level && rule_matches(rules[from], name, input) {
        Some(from)
    } else {
        first_at_level(rules, name, input, level, from + 1)
    }
}

/// The index of the rule that decides the call: the first matching rule
/// that blocks, else the first that permits, else the first that prompts;
/// none when no rule matches.
pub open spec fn winner(rules: Seq<PermissionRule>, name: Seq<char>, input: JsonView) -> Option<
    int,
> {
    match first_at_level(rules, name, input, PermissionLevel::Block, 0) {
        Some(i) => Some(i),
        None => match first_at_level(rules, name, input, PermissionLevel::Permit, 0) {
            Some(i) => Some(i),
            None => first_at_level(rules, name, input, PermissionLevel::Prompt, 0),
        },
    }
}

/// The level at which the rules decide the call, if any rule matches.
pub open spec fn verdict(rules: Seq<PermissionRule>, name: Seq<char>, input: JsonView) -> Option<
    PermissionLevel,
> {
    match winner(rules, name, input) {
        Some(i) => Some(rules[i].level),
        None => None,
    }
}

/// The description of a rule, as it is shown to the user.
pub open spec fn rule_text(rule: PermissionRule) -> Seq<char> {
    match rule.args {
        Some(args) => "rule: "@ + rule.tool@ + " ["@ + args@ + "] -> "@ + level_text(rule.level),
        None => "rule: "@ + rule.tool@ + " -> "@ + level_text(rule.level),
    }
}

pub proof fn lemma_first_at_level(
    rules: Seq<PermissionRule>,
    name: Seq<char>,
    input: JsonView,
    level: PermissionLevel,
    from: int,
)
    requires
        0 <= from,
    ensures
        match first_at_level(rules, name, input, level, from) {
            Some(i) => from <= i < rules.len() && rules[i].level == level && rule_matches(
                rules[i],
                name,
                input,
            ) && forall|j: int|
                from <= j < i ==> !(rules[j].level == level && rule_matches(
                    #[trigger] rules[j],
                    name,
                    input,
                )),
            None => forall|j: int|
                from <= j < rules.len() ==> !(rules[j].level == level && rule_matches(
                    #[trigger] rules[j],
                    name,
                    input,
                )),
        },
    decreases rules.len() - from,
{
    if from < rules.len() && !(rules[from].level == level && rule_matches(
        rules[from],
        name,
        input,
    )) {
        lemma_first_at_level(rules, name, input, level, from + 1);
    }
}

/// The rule that decides is a rule of the list that matches the call, and
/// no matching rule has a level of higher priority.
pub proof fn lemma_winner(rules: Seq<PermissionRule>, name: Seq<char>, input: JsonView)
    ensures
        match winner(rules, name, input) {
            Some(i) => 0 <= i < rules.len() && rule_matches(rules[i], name, input),
            None => forall|j: int|
                0 <= j < rules.len() ==> !rule_matches(#[trigger] rules[j], name, input),
        },
        forall|j: int|
            0 <= j < rules.len() && rule_matches(#[trigger] rules[j], name, input) && rules[j].level
                == PermissionLevel::Block ==> verdict(rules, name, input) == Some(
                PermissionLevel::Block,
            ),
        forall|j: int|
            0 <= j < rules.len() && rule_matches(#[trigger] rules[j], name, input) && rules[j].level
                == PermissionLevel::Permit ==> verdict(rules, name, input) == Some(
                PermissionLevel::Block,
            ) || verdict(rules, name, input) == Some(PermissionLevel::Permit),
{
    lemma_first_at_level(rules, name, input, PermissionLevel::Block, 0);
    lemma_first_at_level(rules, name, input, PermissionLevel::Permit, 0);
    lemma_first_at_level(rules, name, input, PermissionLevel::Prompt, 0);
}

/// The result of weighing a list of rules: the level of the rule that
/// decides, and its description.
#[derive(Debug, Clone)]
pub struct EvaluateResult {
    pub level: PermissionLevel,
    pub description: String,
}

/// Weighs rules against tool calls.
pub struct RuleMatcher;

impl RuleMatcher {
    /// Decides whether `pattern` matches `text`, given the answer of the
    /// glob engine for the two.
    pub fn decide(pattern: &str, text: &str, glob: Option<bool>) -> (r: bool)
        ensures
            r == verdict_of(pattern@, text@, glob),
    {
        match glob {
            Some(b) => b,
            None => str_eq(pattern, text),
        }
    }

    /// Tells whether `pattern` matches `text`, as a glob or as a literal.
    pub fn matches_pattern(pattern: &str, text: &str) -> (r: bool)
        ensures
            r == pattern_matches(pattern@, text@),
    {
        if byte_len(pattern) <= GLOB_PATTERN_MAX && Self::count_braces(pattern)
            <= GLOB_BRACES_MAX {
            let glob = glob_is_match(pattern, text);
            Self::decide(pattern, text, glob)
        } else {
            str_eq(pattern, text)
        }
    }

    /// Counts the `{` of a pattern.
    pub fn count_braces(pattern: &str) -> (n: usize)
        ensures
            n == brace_count(pattern@),
    {
        let chars = chars_of(pattern);
        let mut n: usize = 0;
        let mut i: usize = 0;
        assert(chars@.take(0) =~= Seq::<char>::empty());
        while i < chars.len()
            invariant
                i <= chars@.len(),
                n <= i,
                n == brace_count(chars@.take(i as int)),
            decreases chars.len() - i,
        {
            assert(chars@.take(i + 1).drop_last() =~= chars@.take(i as int));
            if chars[i] == '{' {
                n += 1;
            }
            i += 1;
        }
        assert(chars@.take(i as int) =~= chars@);
        n
    }

    /// Tells whether the tool pattern matches the tool name.
    pub fn matches_tool_name(pattern: &str, tool_name: &str) -> (r: bool)
        ensures
            r == tool_name_matches(pattern@, tool_name@),
    {
        if str_eq(pattern, "*") {
            return true;
        }
        Self::matches_pattern(pattern, tool_name)
    }

    /// Tells whether the argument pattern matches the tool input.
    pub fn matches_args(args_pattern: &str, tool_input: &Json) -> (r: bool)
        ensures
            r == args_match(args_pattern@, tool_input@),
    {
        let chars = chars_of(args_pattern);
        let n: usize = chars.len();
        let mut k: usize = 0;
        while k < n && chars[k] != ':'
            invariant
                k <= n,
                n == chars@.len(),
                colon_index(chars@, k as int) == colon_index(chars@, 0),
            decreases n - k,
        {
            k += 1;
        }
        if k >= n {
            return false;
        }
        let field = string_from_chars(slice_subrange(chars.as_slice(), 0, k));
        let glob = string_from_chars(slice_subrange(chars.as_slice(), k + 1, n));
        match tool_input.get_str(field.as_str()) {
            Some(value) => Self::matches_pattern(glob.as_str(), value),
            None => false,
        }
    }

    /// Tells whether `rule` matches the call of `tool_name` with
    /// `tool_input`.
    pub fn matches(rule: &PermissionRule, tool_name: &str, tool_input: &Json) -> (r: bool)
        ensures
            r == rule_matches(*rule, tool_name@, tool_input@),
    {
        if !Self::matches_tool_name(rule.tool.as_str(), tool_name) {
            return false;
        }
        match &rule.args {
            Some(args) => Self::matches_args(args.as_str(), tool_input),
            None => true,
        }
    }

    /// Tells whether some rule of the given level matches the call.
    pub fn any_at_level(
        rules: &[PermissionRule],
        tool_name: &str,
        tool_input: &Json,
        level: PermissionLevel,
    ) -> (r: bool)
        ensures
            r == (first_at_level(rules@, tool_name@, tool_input@, level, 0) is Some),
    {
        let mut i: usize = 0;
        while i < rules.len()
            invariant
                i <= rules@.len(),
                first_at_level(rules@, tool_name@, tool_input@, level, i as int)
                    == first_at_level(rules@, tool_name@, tool_input@, level, 0),
            decreases rules.len() - i,
        {
            if rules[i].level == level && Self::matches(&rules[i], tool_name, tool_input) {
                return true;
            }
            i += 1;
        }
        false
    }

    /// The description of a rule.
    pub fn describe_rule(rule: &PermissionRule) -> (s: String)
        ensures
            s@ == rule_text(*rule),
    {
        match &rule.args {
            Some(args) => {
                let head = join4("rule: ", rule.tool.as_str(), " [", args.as_str());
                join3(head.as_str(), "] -> ", rule.level.as_str())
            },
            None => join4("rule: ", rule.tool.as_str(), " -> ", rule.level.as_str()),
        }
    }

    /// Finds the rule that decides the call, by priority block, permit,
    /// prompt, the first of its level winning; none when no rule matches.
    pub fn evaluate(rules: &[PermissionRule], tool_name: &str, tool_input: &Json) -> (r: Option<
        EvaluateResult,
    >)
        ensures
            match r {
                Some(found) => winner(rules@, tool_name@, tool_input@) matches Some(i)
                    && found.level == rules@[i].level && found.description@ == rule_text(
                    rules@[i],
                ),
                None => winner(rules@, tool_name@, tool_input@) is None,
            },
    {
        let ghost name = tool_name@;
        let ghost input = tool_input@;
        let mut block: Option<usize> = None;
        let mut permit: Option<usize> = None;
        let mut prompt: Option<usize> = None;
        let mut i: usize = rules.len();
        while i > 0
            invariant
                i <= rules@.len(),
                name == tool_name@,
                input == tool_input@,
                match block {
                    Some(b) => first_at_level(rules@, name, input, PermissionLevel::Block, i as int)
                        == Some(b as int) && b < rules@.len(),
                    None => first_at_level(rules@, name, input, PermissionLevel::Block, i as int)
                        is None,
                },
                match permit {
                    Some(b) => first_at_level(
                        rules@,
                        name,
                        input,
                        PermissionLevel::Permit,
                        i as int,
                    ) == Some(b as int) && b < rules@.len(),
                    None => first_at_level(rules@, name, input, PermissionLevel::Permit, i as int)
                        is None,
                },
                match prompt {
                    Some(b) => first_at_level(
                        rules@,
                        name,
                        input,
                        PermissionLevel::Prompt,
                        i as int,
                    ) == Some(b as int) && b < rules@.len(),
                    None => first_at_level(rules@, name, input, PermissionLevel::Prompt, i as int)
                        is None,
                },
            decreases i,
        {
            i -= 1;
            if Self::matches(&rules[i], tool_name, tool_input) {
                match rules[i].level {
                    PermissionLevel::Block => {
                        block = Some(i);
                    },
                    PermissionLevel::Permit => {
                        permit = Some(i);
                    },
                    PermissionLevel::Prompt => {
                        prompt = Some(i);
                    },
                }
            }
        }
        let chosen = match block {
            Some(b) => Some(b),
            None => match permit {
                Some(p) => Some(p),
                None => prompt,
            },
        };
        match chosen {
            Some(w) => Some(
                EvaluateResult {
                    level: rules[w].level,
                    description: Self::describe_rule(&rules[w]),
                },
            ),
            None => None,
        }
    }
}

} // verus!
