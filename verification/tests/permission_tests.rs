use chet::json::Json;
use chet::permissions::engine::PermissionEngine;
use chet::permissions::matcher::{RuleMatcher, GLOB_BRACES_MAX, GLOB_PATTERN_MAX};
use chet::permissions::types::{
    default_hook_timeout, PermissionDecision, PermissionLevel, PermissionRule, PromptResponse,
};

fn json(text: &str) -> Json {
    Json::parse(text).expect("test input is well-formed JSON")
}

fn rule(tool: &str, args: Option<&str>, level: PermissionLevel) -> PermissionRule {
    PermissionRule {
        tool: tool.to_string(),
        args: args.map(|s| s.to_string()),
        level,
    }
}

fn engine(rules: Vec<PermissionRule>) -> PermissionEngine {
    PermissionEngine::new(rules, Vec::new(), false)
}

#[test]
fn test_exact_tool_match() {
    let r = rule("Bash", None, PermissionLevel::Permit);
    assert!(RuleMatcher::matches(&r, "Bash", &json("{}")));
}

#[test]
fn test_exact_tool_no_match() {
    let r = rule("Bash", None, PermissionLevel::Permit);
    assert!(!RuleMatcher::matches(&r, "Read", &json("{}")));
}

#[test]
fn test_wildcard_tool_match() {
    let r = rule("*", None, PermissionLevel::Permit);
    assert!(RuleMatcher::matches(&r, "Bash", &json("{}")));
    assert!(RuleMatcher::matches(&r, "Read", &json("{}")));
}

#[test]
fn test_arg_pattern_match() {
    let r = rule("Bash", Some("command:git *"), PermissionLevel::Permit);
    assert!(RuleMatcher::matches(
        &r,
        "Bash",
        &json(r#"{"command": "git status"}"#)
    ));
    assert!(RuleMatcher::matches(
        &r,
        "Bash",
        &json(r#"{"command": "git push origin main"}"#)
    ));
}

#[test]
fn test_arg_pattern_no_match() {
    let r = rule("Bash", Some("command:git *"), PermissionLevel::Permit);
    assert!(!RuleMatcher::matches(
        &r,
        "Bash",
        &json(r#"{"command": "rm -rf /"}"#)
    ));
}

#[test]
fn test_arg_pattern_missing_field() {
    let r = rule("Bash", Some("command:git *"), PermissionLevel::Permit);
    assert!(!RuleMatcher::matches(
        &r,
        "Bash",
        &json(r#"{"file_path": "/tmp/test"}"#)
    ));
}

#[test]
fn test_evaluate_block_wins() {
    let rules = vec![
        rule("Bash", None, PermissionLevel::Permit),
        rule("Bash", Some("command:rm *"), PermissionLevel::Block),
    ];
    let result = RuleMatcher::evaluate(&rules, "Bash", &json(r#"{"command": "rm -rf /"}"#));
    let result = result.unwrap();
    assert_eq!(result.level, PermissionLevel::Block);
    assert!(result.description.contains("command:rm *"));
}

#[test]
fn test_evaluate_permit_over_prompt() {
    let rules = vec![
        rule("Bash", None, PermissionLevel::Prompt),
        rule("Bash", Some("command:git *"), PermissionLevel::Permit),
    ];
    let result = RuleMatcher::evaluate(&rules, "Bash", &json(r#"{"command": "git status"}"#));
    let result = result.unwrap();
    assert_eq!(result.level, PermissionLevel::Permit);
}

#[test]
fn test_evaluate_no_match() {
    let rules = vec![rule("Write", None, PermissionLevel::Block)];
    let result = RuleMatcher::evaluate(&rules, "Read", &json("{}"));
    assert!(result.is_none());
}

#[test]
fn test_evaluate_description_includes_args() {
    let rules = vec![rule("Bash", Some("command:git *"), PermissionLevel::Permit)];
    let result = RuleMatcher::evaluate(&rules, "Bash", &json(r#"{"command": "git push"}"#));
    let result = result.unwrap();
    assert!(result.description.contains("command:git *"));
    assert!(result.description.contains("permit"));
}

#[test]
fn test_evaluate_description_no_args() {
    let rules = vec![rule("Bash", None, PermissionLevel::Prompt)];
    let result = RuleMatcher::evaluate(&rules, "Bash", &json("{}"));
    let result = result.unwrap();
    assert_eq!(result.description, "rule: Bash -> prompt");
}

#[test]
fn test_arg_pattern_file_path() {
    let r = rule("Read", Some("file_path:/etc/*"), PermissionLevel::Block);
    assert!(RuleMatcher::matches(
        &r,
        "Read",
        &json(r#"{"file_path": "/etc/passwd"}"#)
    ));
    assert!(!RuleMatcher::matches(
        &r,
        "Read",
        &json(r#"{"file_path": "/home/user/file.txt"}"#)
    ));
}

#[test]
fn test_block_overrides_permit() {
    let e = engine(vec![
        rule("Bash", None, PermissionLevel::Permit),
        rule("Bash", Some("command:rm *"), PermissionLevel::Block),
    ]);
    let decision = e.check("Bash", &json(r#"{"command": "rm -rf /"}"#), false);
    assert!(matches!(decision, PermissionDecision::Block { .. }));
}

#[test]
fn test_permit_overrides_prompt() {
    let e = engine(vec![
        rule("Bash", None, PermissionLevel::Prompt),
        rule("Bash", Some("command:git *"), PermissionLevel::Permit),
    ]);
    let decision = e.check("Bash", &json(r#"{"command": "git status"}"#), false);
    assert_eq!(decision, PermissionDecision::Permit);
}

#[test]
fn test_default_read_only_permits() {
    let e = engine(vec![]);
    let decision = e.check("Read", &json(r#"{"file_path": "/tmp/test"}"#), true);
    assert_eq!(decision, PermissionDecision::Permit);
}

#[test]
fn test_default_mutating_prompts() {
    let e = engine(vec![]);
    let decision = e.check("Bash", &json(r#"{"command": "ls"}"#), false);
    assert!(matches!(decision, PermissionDecision::Prompt { .. }));
}

#[test]
fn test_session_rule_permits() {
    let mut e = engine(vec![]);
    // Initially prompts
    assert!(matches!(
        e.check("Bash", &json(r#"{"command": "ls"}"#), false),
        PermissionDecision::Prompt { .. }
    ));

    // Add session rule
    e.add_session_rule(rule("Bash", None, PermissionLevel::Permit));

    // Now permits
    assert_eq!(
        e.check("Bash", &json(r#"{"command": "ls"}"#), false),
        PermissionDecision::Permit
    );
}

#[test]
fn test_ludicrous_mode() {
    let e = PermissionEngine::ludicrous();
    assert_eq!(
        e.check("Bash", &json(r#"{"command": "rm -rf /"}"#), false),
        PermissionDecision::Permit
    );
    assert!(e.in_ludicrous_mode());
}

#[test]
fn test_no_prompt_handler_returns_deny() {
    let e = engine(vec![]);
    assert_eq!(e.unattended_answer(), Some(PromptResponse::Deny));
    let attended = PermissionEngine::new(Vec::new(), Vec::new(), true);
    assert_eq!(attended.unattended_answer(), None);
}

#[test]
fn decisions_carry_the_description_of_the_deciding_rule() {
    let e = engine(vec![
        rule("Write", Some("file_path:/etc/*"), PermissionLevel::Block),
        rule("Edit", None, PermissionLevel::Prompt),
    ]);
    assert_eq!(
        e.check("Write", &json(r#"{"file_path": "/etc/hosts"}"#), false),
        PermissionDecision::Block {
            reason: "rule: Write [file_path:/etc/*] -> block".to_string()
        }
    );
    assert_eq!(
        e.check("Edit", &json("{}"), false),
        PermissionDecision::Prompt {
            tool: "Edit".to_string(),
            description: "rule: Edit -> prompt".to_string()
        }
    );
    assert_eq!(
        e.check("Bash", &json("{}"), false),
        PermissionDecision::Prompt {
            tool: "Bash".to_string(),
            description: "Tool 'Bash' requires permission".to_string()
        }
    );
}

#[test]
fn block_wins_whatever_the_order_of_the_rules() {
    let input = json(r#"{"command": "rm -rf /"}"#);
    let orders = vec![
        vec![
            rule("*", None, PermissionLevel::Permit),
            rule("Bash", None, PermissionLevel::Prompt),
            rule("Bash", Some("command:rm *"), PermissionLevel::Block),
        ],
        vec![
            rule("Bash", Some("command:rm *"), PermissionLevel::Block),
            rule("*", None, PermissionLevel::Permit),
            rule("Bash", None, PermissionLevel::Prompt),
        ],
    ];
    for rules in orders {
        let e = engine(rules);
        assert!(matches!(
            e.check("Bash", &input, true),
            PermissionDecision::Block { .. }
        ));
    }
}

#[test]
fn first_rule_of_the_winning_level_gives_the_description() {
    let rules = vec![
        rule("Bash", Some("command:*"), PermissionLevel::Permit),
        rule("Bash", None, PermissionLevel::Permit),
    ];
    let result = RuleMatcher::evaluate(&rules, "Bash", &json(r#"{"command": "ls"}"#)).unwrap();
    assert_eq!(result.description, "rule: Bash [command:*] -> permit");
}

#[test]
fn session_permits_are_monotone() {
    let calls = vec![
        ("Bash", r#"{"command": "ls"}"#, false),
        ("Bash", r#"{"command": "git status"}"#, false),
        ("Read", r#"{"file_path": "/tmp/x"}"#, true),
        ("Write", r#"{"file_path": "/etc/x"}"#, false),
    ];
    let mut e = engine(vec![
        rule("Bash", Some("command:git *"), PermissionLevel::Permit),
        rule("Write", None, PermissionLevel::Block),
    ]);
    let additions = vec![
        rule("Read", None, PermissionLevel::Permit),
        rule("Bash", None, PermissionLevel::Permit),
        rule("*", Some("file_path:/tmp/*"), PermissionLevel::Permit),
    ];
    for addition in additions {
        let before: Vec<bool> = calls
            .iter()
            .map(|(n, i, r)| e.check(n, &json(i), *r) == PermissionDecision::Permit)
            .collect();
        e.add_session_rule(addition);
        for (k, (n, i, r)) in calls.iter().enumerate() {
            let after = e.check(n, &json(i), *r) == PermissionDecision::Permit;
            assert!(!before[k] || after, "{n} lost its permission");
        }
    }
    assert_eq!(
        e.check("Bash", &json(r#"{"command": "ls"}"#), false),
        PermissionDecision::Permit
    );
    assert!(matches!(
        e.check("Write", &json(r#"{"file_path": "/etc/x"}"#), false),
        PermissionDecision::Block { .. }
    ));
}

#[test]
fn session_permit_takes_precedence_over_a_static_block() {
    let mut e = engine(vec![rule("Bash", None, PermissionLevel::Block)]);
    e.add_session_rule(rule("Bash", None, PermissionLevel::Permit));
    assert_eq!(e.check("Bash", &json("{}"), false), PermissionDecision::Permit);
}

#[test]
fn a_session_permit_counts_whatever_other_session_rules_say() {
    let mut e = engine(vec![]);
    e.add_session_rule(rule("*", None, PermissionLevel::Block));
    assert!(matches!(
        e.check("Write", &json("{}"), false),
        PermissionDecision::Prompt { .. }
    ));
    e.add_session_rule(rule("*", None, PermissionLevel::Permit));
    assert_eq!(e.check("Write", &json("{}"), false), PermissionDecision::Permit);
    assert_eq!(e.check("Write", &json("{}"), true), PermissionDecision::Permit);
    e.add_session_rule(rule("Write", None, PermissionLevel::Prompt));
    e.add_session_rule(rule("Write", None, PermissionLevel::Block));
    assert_eq!(e.check("Write", &json("{}"), false), PermissionDecision::Permit);
    // Session rules that do not permit decide nothing.
    let mut strict = engine(vec![rule("Read", None, PermissionLevel::Permit)]);
    strict.add_session_rule(rule("Read", None, PermissionLevel::Block));
    assert_eq!(strict.check("Read", &json("{}"), false), PermissionDecision::Permit);
    let any = RuleMatcher::any_at_level(
        &[rule("Read", None, PermissionLevel::Block)],
        "Read",
        &json("{}"),
        PermissionLevel::Permit,
    );
    assert!(!any);
}

#[test]
fn non_string_fields_and_malformed_patterns_do_not_match() {
    let r = rule("Bash", Some("command:git *"), PermissionLevel::Permit);
    assert!(!RuleMatcher::matches(&r, "Bash", &json(r#"{"command": 5}"#)));
    assert!(!RuleMatcher::matches(&r, "Bash", &json(r#"["command"]"#)));
    let no_colon = rule("Bash", Some("command"), PermissionLevel::Permit);
    assert!(!RuleMatcher::matches(
        &no_colon,
        "Bash",
        &json(r#"{"command": "command"}"#)
    ));
}

#[test]
fn glob_and_literal_fallback() {
    assert!(RuleMatcher::matches_tool_name("Ba*", "Bash"));
    assert!(!RuleMatcher::matches_tool_name("Ba*", "Read"));
    assert!(RuleMatcher::matches_tool_name("{Read,Glob}", "Glob"));
    // An unclosed class is no glob: it is compared as a literal.
    assert!(RuleMatcher::matches_tool_name("[abc", "[abc"));
    assert!(!RuleMatcher::matches_tool_name("[abc", "a"));
    // The verdict follows the glob engine where it answered.
    assert!(RuleMatcher::decide("x", "y", Some(true)));
    assert!(!RuleMatcher::decide("x", "x", Some(false)));
    assert!(RuleMatcher::decide("x", "x", None));
    assert!(!RuleMatcher::decide("x", "y", None));
    // Case matters.
    assert!(!RuleMatcher::matches_tool_name("bash", "Bash"));
}

#[test]
fn long_patterns_are_globs() {
    let long = format!("{}*", "a".repeat(300));
    assert!(RuleMatcher::matches_pattern(&long, &format!("{}bcd", "a".repeat(300))));
    assert!(!RuleMatcher::matches_pattern(&long, &"a".repeat(299)));
    let stars = "*".repeat(257);
    assert!(RuleMatcher::matches_pattern(&stars, "anything"));
    let choice = format!("{{{},Bash}}", "x".repeat(1000));
    assert!(RuleMatcher::matches_pattern(&choice, "Bash"));
    assert!(!RuleMatcher::matches_pattern(&choice, "Read"));
    // A long rule that blocks still blocks.
    let blocking = rule(&format!("{{{},Bash}}", "y".repeat(500)), None, PermissionLevel::Block);
    let e = engine(vec![blocking, rule("*", None, PermissionLevel::Permit)]);
    assert!(matches!(
        e.check("Bash", &json("{}"), false),
        PermissionDecision::Block { .. }
    ));
    let args = rule("Bash", Some(&format!("command:{}*", "z".repeat(400))), PermissionLevel::Permit);
    assert!(RuleMatcher::matches(
        &args,
        "Bash",
        &json(&format!(r#"{{"command": "{} --force"}}"#, "z".repeat(400)))
    ));
}

#[test]
fn patterns_beyond_the_bounds_of_the_engine_are_literals() {
    assert_eq!(GLOB_PATTERN_MAX, 4096);
    assert_eq!(GLOB_BRACES_MAX, 256);
    let long = format!("{}*", "a".repeat(GLOB_PATTERN_MAX));
    assert!(!RuleMatcher::matches_pattern(&long, &"a".repeat(GLOB_PATTERN_MAX + 3)));
    assert!(RuleMatcher::matches_pattern(&long, &long));
    let braces = format!("{}Bash", "{a,b}".repeat(GLOB_BRACES_MAX + 1));
    assert!(!RuleMatcher::matches_pattern(&braces, &format!("{}Bash", "a".repeat(GLOB_BRACES_MAX + 1))));
    assert!(RuleMatcher::matches_pattern(&braces, &braces));
    assert_eq!(RuleMatcher::count_braces("{a{b}}\\{[{]"), 4);
    assert_eq!(RuleMatcher::count_braces(""), 0);
}

#[test]
fn the_longest_pattern_is_a_glob() {
    let fits = format!("{}*", "a".repeat(GLOB_PATTERN_MAX - 1));
    assert!(RuleMatcher::matches_pattern(&fits, &"a".repeat(GLOB_PATTERN_MAX + 3)));
}

#[test]
fn a_pattern_with_the_most_braces_is_a_glob() {
    let allowed = format!("{}Bash", "{a,b}".repeat(GLOB_BRACES_MAX));
    assert!(RuleMatcher::matches_pattern(&allowed, &format!("{}Bash", "b".repeat(GLOB_BRACES_MAX))));
}

#[test]
fn groups_nested_too_deep_give_no_answer() {
    // The engine reports that it cannot build the pattern; the pattern is
    // then compared as a literal.
    let depth = 200;
    let nested = format!("{}a{}", "{a,".repeat(depth), "}".repeat(depth));
    assert!(!RuleMatcher::matches_pattern(&nested, "a"));
    assert!(RuleMatcher::matches_pattern(&nested, &nested));
    let shallow = format!("{}a{}", "{a,".repeat(20), "}".repeat(20));
    assert!(RuleMatcher::matches_pattern(&shallow, "a"));
    assert!(!RuleMatcher::matches_pattern(&shallow, "b"));
}

#[test]
fn a_backslash_makes_the_next_character_plain() {
    assert!(RuleMatcher::matches_pattern("a\\*", "a*"));
    assert!(!RuleMatcher::matches_pattern("a\\*", "ab"));
}

#[test]
fn level_words_and_defaults() {
    assert_eq!(PermissionLevel::Permit.as_str(), "permit");
    assert_eq!(PermissionLevel::Block.as_str(), "block");
    assert_eq!(PermissionLevel::Prompt.as_str(), "prompt");
    assert_eq!(default_hook_timeout(), 10_000);
    assert_eq!(
        RuleMatcher::describe_rule(&rule("Bash", Some("command:ls"), PermissionLevel::Block)),
        "rule: Bash [command:ls] -> block"
    );
}
