use chet::agent::events::AgentEvent;
use chet::display::{align_right, session_row, Display, DisplayAction};
use chet::error::ToolError;
use chet::style::Palette;
use chet::json::Json;
use chet::message::Usage;
use chet::permissions::types::PromptResponse;
use chet::repl::{
    classify_permission_answer, classify_plan_answer, read_command, read_permission_answer,
    read_plan_answer, summarize_input, usage_line, PlanApproval, ReplCommand,
};
use chet::session::{Session, SessionSummary};
use chet::store::{
    archive_file_name, choose_by_prefix, plan_file_name, session_file_name, sort_summaries,
    SessionError,
};
use chet::tool::ToolOutputContent;
use chet::tools::search::{
    apply_limit, decode_glob_input, decode_grep_input, glob_definition, grep_definition,
    grep_output, join_with, list_found, report_file, search_dir, sort_newest_first, trim_end,
    FoundFile, LineMatch,
};

fn only_text(content: &[ToolOutputContent]) -> String {
    match content {
        [ToolOutputContent::Text { text }] => text.clone(),
        other => panic!("expected one text, got {other:?}"),
    }
}

fn json(text: &str) -> Json {
    Json::parse(text).unwrap()
}

#[test]
fn lines_that_are_commands() {
    assert!(matches!(read_command(""), ReplCommand::Empty));
    assert!(matches!(read_command("  \t\n"), ReplCommand::Empty));
    assert!(matches!(read_command("/plan"), ReplCommand::TogglePlan));
    assert!(matches!(read_command("  /plan \n"), ReplCommand::TogglePlan));
    assert!(matches!(read_command("/quit"), ReplCommand::Quit));
    assert!(matches!(read_command("/exit"), ReplCommand::Quit));
    assert!(matches!(read_command("/exit now"), ReplCommand::Quit));
    assert!(matches!(read_command("/clear"), ReplCommand::Clear));
    assert!(matches!(read_command("/cost"), ReplCommand::Cost));
    assert!(matches!(read_command("/help"), ReplCommand::Help));
    assert!(matches!(read_command("/model"), ReplCommand::Model));
    assert!(matches!(read_command("/context"), ReplCommand::Context));
    assert!(matches!(read_command("/compact"), ReplCommand::Compact));
    assert!(matches!(read_command("/sessions"), ReplCommand::Sessions));
}

#[test]
fn resume_takes_a_prefix() {
    match read_command("/resume  abc123  ") {
        ReplCommand::Resume { prefix } => assert_eq!(prefix.as_deref(), Some("abc123")),
        other => panic!("unexpected: {other:?}"),
    }
    match read_command("/resume") {
        ReplCommand::Resume { prefix } => assert!(prefix.is_none()),
        other => panic!("unexpected: {other:?}"),
    }
    match read_command("/resume a b") {
        ReplCommand::Resume { prefix } => assert_eq!(prefix.as_deref(), Some("a b")),
        other => panic!("unexpected: {other:?}"),
    }
}

#[test]
fn other_lines() {
    match read_command("  hello /quit ") {
        ReplCommand::Message { text } => assert_eq!(text, "hello /quit"),
        other => panic!("unexpected: {other:?}"),
    }
    match read_command("/nope arg") {
        ReplCommand::Unknown { input } => assert_eq!(input, "/nope arg"),
        other => panic!("unexpected: {other:?}"),
    }
    // Only `/plan` alone toggles plan mode.
    assert!(matches!(read_command("/plan now"), ReplCommand::Unknown { .. }));
    assert!(matches!(read_command("/QUIT"), ReplCommand::Unknown { .. }));
    assert!(matches!(read_command("/"), ReplCommand::Unknown { .. }));
    // A tab does not part the command from its argument.
    assert!(matches!(read_command("/quit\tnow"), ReplCommand::Unknown { .. }));
}

#[test]
fn answers_to_a_permission_prompt() {
    for yes in ["y", "yes", "", "  Y \n", "YES", "Yes\n", "\n"] {
        assert_eq!(read_permission_answer(yes), PromptResponse::AllowOnce, "{yes:?}");
    }
    for always in ["a", "always", "A\n", " Always "] {
        assert_eq!(read_permission_answer(always), PromptResponse::AlwaysAllow, "{always:?}");
    }
    for no in ["n", "no", "nope", "y e s", "ye", "allow", "always!"] {
        assert_eq!(read_permission_answer(no), PromptResponse::Deny, "{no:?}");
    }
    // Classifying takes the answer as it is.
    assert_eq!(classify_permission_answer("Y"), PromptResponse::Deny);
    assert_eq!(classify_permission_answer(" y"), PromptResponse::Deny);
    assert_eq!(classify_permission_answer("y"), PromptResponse::AllowOnce);
}

#[test]
fn answers_about_a_plan() {
    assert_eq!(read_plan_answer("a\n"), Some(PlanApproval::Approve));
    assert_eq!(read_plan_answer("Approve"), Some(PlanApproval::Approve));
    assert_eq!(read_plan_answer(" r "), Some(PlanApproval::Refine));
    assert_eq!(read_plan_answer("REFINE"), Some(PlanApproval::Refine));
    assert_eq!(read_plan_answer("d"), Some(PlanApproval::Discard));
    assert_eq!(read_plan_answer("discard\n"), Some(PlanApproval::Discard));
    assert_eq!(read_plan_answer(""), None);
    assert_eq!(read_plan_answer("yes"), None);
    assert_eq!(classify_plan_answer("A"), None);
}

#[test]
fn input_summaries() {
    assert_eq!(summarize_input(&json("null")), "");
    assert_eq!(summarize_input(&json("[1, 2]")), "");
    assert_eq!(summarize_input(&json("{}")), "");
    assert_eq!(
        summarize_input(&json(r#"{"command": "ls -la"}"#)),
        "command: ls -la"
    );
    assert_eq!(
        summarize_input(&json(r#"{"a": 1, "b": [true, null], "c": {"x": "y"}, "d": "left out"}"#)),
        r#"a: 1, b: [true,null], c: {"x":"y"}"#
    );
    let long = "x".repeat(61);
    assert_eq!(
        summarize_input(&json(&format!(r#"{{"k": "{long}"}}"#))),
        format!("k: {}...", "x".repeat(60))
    );
    let exact = "x".repeat(60);
    assert_eq!(
        summarize_input(&json(&format!(r#"{{"k": "{exact}"}}"#))),
        format!("k: {exact}")
    );
    let numbers = format!("[{}]", vec!["1"; 40].join(","));
    assert_eq!(
        summarize_input(&json(&format!(r#"{{"k": {numbers}}}"#))),
        format!("k: {}...", &numbers[..60])
    );
}

#[test]
fn the_usage_line() {
    let usage = Usage {
        input_tokens: 1,
        output_tokens: 20,
        cache_creation_input_tokens: 300,
        cache_read_input_tokens: 4000,
    };
    assert_eq!(
        usage_line(&usage),
        "Tokens \u{2014} input: 1, output: 20, cache read: 4000, cache write: 300"
    );
}

#[test]
fn glob_input() {
    let g = decode_glob_input(&json(r#"{"pattern": "**/*.rs"}"#)).unwrap();
    assert_eq!(g.pattern, "**/*.rs");
    assert_eq!(g.path, None);
    let g = decode_glob_input(&json(r#"{"pattern": "*", "path": "/src", "x": 1}"#)).unwrap();
    assert_eq!(g.path.as_deref(), Some("/src"));
    let g = decode_glob_input(&json(r#"{"pattern": "*", "path": null}"#)).unwrap();
    assert_eq!(g.path, None);
    for (bad, message) in [
        (r#"{}"#, "missing field `pattern`"),
        (r#"{"pattern": 1}"#, "invalid type for field `pattern`"),
        (r#"{"pattern": "*", "path": 1}"#, "invalid type for field `path`"),
    ] {
        match decode_glob_input(&json(bad)) {
            Err(ToolError::InvalidInput { tool, message: m }) => {
                assert_eq!(tool, "Glob");
                assert_eq!(m, message);
            }
            other => panic!("unexpected: {other:?}"),
        }
    }
    assert_eq!(search_dir(&Some("/src".into()), "/cwd"), "/src");
    assert_eq!(search_dir(&None, "/cwd"), "/cwd");
}

fn found(path: &str, modified: u64) -> FoundFile {
    FoundFile {
        path: path.to_string(),
        modified,
    }
}

#[test]
fn found_files_are_listed_newest_first() {
    let out = list_found(vec![]);
    assert!(!out.is_error);
    assert_eq!(only_text(&out.content), "No files found");
    let files = vec![
        found("/a", 5),
        found("/b", 9),
        found("/c", 5),
        found("/d", 0),
        found("/e", u64::MAX),
        found("/f", 9),
    ];
    let sorted = sort_newest_first(files.clone());
    let paths: Vec<&str> = sorted.iter().map(|f| f.path.as_str()).collect();
    assert_eq!(paths, vec!["/e", "/b", "/f", "/a", "/c", "/d"]);
    let mut expected = files.clone();
    expected.sort_by(|a, b| b.modified.cmp(&a.modified));
    assert_eq!(sorted, expected);
    let out = list_found(files);
    assert!(!out.is_error);
    assert_eq!(only_text(&out.content), "/e\n/b\n/f\n/a\n/c\n/d");
    assert_eq!(only_text(&list_found(vec![found("/only", 1)]).content), "/only");
}

#[test]
fn search_definitions() {
    let glob = glob_definition();
    assert_eq!(glob.name, "Glob");
    assert!(glob.description.starts_with("Find files matching a glob pattern."));
    assert_eq!(
        glob.input_schema.to_text(),
        "{\"properties\":{\"path\":{\"description\":\"Directory to search in (defaults to cwd)\",\
         \"type\":\"string\"},\"pattern\":{\"description\":\"Glob pattern (e.g. \\\"**/*.rs\\\", \
         \\\"src/**/*.ts\\\")\",\"type\":\"string\"}},\"required\":[\"pattern\"],\"type\":\"object\"}"
    );
    let grep = grep_definition();
    assert_eq!(grep.name, "Grep");
    assert!(grep.description.contains("Defaults to 'files_with_matches'."));
    let properties = grep.input_schema.get("properties").unwrap();
    let names: Vec<&str> = match properties {
        Json::Object(members) => members.iter().map(|(k, _)| k.as_str()).collect(),
        other => panic!("unexpected: {other:?}"),
    };
    assert_eq!(
        names,
        vec!["pattern", "path", "output_mode", "glob", "head_limit", "context", "-i"]
    );
    let mode = properties.get("output_mode").unwrap();
    assert_eq!(
        mode.to_text(),
        r#"{"description":"Output mode (default: files_with_matches)","enum":["content","files_with_matches","count"],"type":"string"}"#
    );
    assert_eq!(
        properties.get("-i").and_then(|p| p.get_str("type")),
        Some("boolean")
    );
}

#[test]
fn grep_input() {
    let g = decode_grep_input(&json(r#"{"pattern": "fn main"}"#)).unwrap();
    assert_eq!(g.pattern, "fn main");
    assert_eq!(g.output_mode, "files_with_matches");
    assert_eq!(g.path, None);
    assert_eq!(g.file_type, None);
    assert_eq!(g.glob, None);
    assert_eq!(g.head_limit, None);
    assert_eq!(g.context, None);
    assert!(!g.case_insensitive);
    let g = decode_grep_input(&json(
        r#"{"pattern": "x", "path": "/p", "output_mode": "count", "type": "rs",
            "glob": "*.rs", "head_limit": 5, "context": 2, "-i": true}"#,
    ))
    .unwrap();
    assert_eq!(g.path.as_deref(), Some("/p"));
    assert_eq!(g.output_mode, "count");
    assert_eq!(g.file_type.as_deref(), Some("rs"));
    assert_eq!(g.glob.as_deref(), Some("*.rs"));
    assert_eq!(g.head_limit, Some(5));
    assert_eq!(g.context, Some(2));
    assert!(g.case_insensitive);
    for (bad, message) in [
        (r#"{}"#, "missing field `pattern`"),
        (r#"{"pattern": "x", "output_mode": null}"#, "invalid type for field `output_mode`"),
        (r#"{"pattern": "x", "head_limit": -1}"#, "invalid type for field `head_limit`"),
        (r#"{"pattern": "x", "-i": "yes"}"#, "invalid type for field `-i`"),
        (r#"{"pattern": "x", "type": 1, "glob": 2}"#, "invalid type for field `type`"),
        (r#"{"pattern": "x", "context": "2"}"#, "invalid type for field `context`"),
    ] {
        match decode_grep_input(&json(bad)) {
            Err(ToolError::InvalidInput { tool, message: m }) => {
                assert_eq!(tool, "Grep");
                assert_eq!(m, message);
            }
            other => panic!("unexpected: {other:?}"),
        }
    }
}

fn hit(line_number: u64, line: &str) -> LineMatch {
    LineMatch {
        line_number,
        line: line.to_string(),
    }
}

#[test]
fn reports_of_a_file() {
    let hits = vec![hit(3, "fn main() {  \n"), hit(10, "\tmain();\r\n")];
    let mut results = vec!["before".to_string()];
    report_file("files_with_matches", "/a.rs", &hits, &mut results);
    assert_eq!(results, vec!["before", "/a.rs"]);
    report_file("files_with_matches", "/b.rs", &[], &mut results);
    assert_eq!(results.len(), 2);
    report_file("count", "/a.rs", &hits, &mut results);
    assert_eq!(results[2], "/a.rs:2");
    report_file("count", "/b.rs", &[], &mut results);
    assert_eq!(results.len(), 3);
    report_file("content", "/a.rs", &hits, &mut results);
    assert_eq!(&results[3..], ["/a.rs:3:fn main() {", "/a.rs:10:\tmain();"]);
    // Every other mode shows the lines too.
    let mut other = Vec::new();
    report_file("anything", "/a.rs", &hits[..1], &mut other);
    assert_eq!(other, vec!["/a.rs:3:fn main() {"]);
    report_file("content", "/b.rs", &[], &mut other);
    assert_eq!(other.len(), 1);
    assert_eq!(trim_end("  a b \t\n"), "  a b");
    assert_eq!(trim_end(" \n"), "");
    assert_eq!(trim_end(""), "");
}

#[test]
fn results_within_the_limit() {
    let all: Vec<String> = (0..5).map(|i| format!("r{i}")).collect();
    let mut results = all.clone();
    assert!(!apply_limit(&mut results, 0));
    assert_eq!(results, all);
    assert!(!apply_limit(&mut results, 6));
    assert_eq!(results, all);
    assert!(apply_limit(&mut results, 5));
    assert_eq!(results, all);
    assert!(apply_limit(&mut results, 2));
    assert_eq!(results, vec!["r0", "r1"]);
    let mut none: Vec<String> = Vec::new();
    assert!(!apply_limit(&mut none, 1));
}

#[test]
fn the_answer_of_a_search() {
    let out = grep_output(&vec![]);
    assert!(!out.is_error);
    assert_eq!(only_text(&out.content), "No matches found");
    assert_eq!(only_text(&grep_output(&vec![String::new()]).content), "No matches found");
    let out = grep_output(&vec!["a:1".to_string(), "b:2".to_string()]);
    assert_eq!(only_text(&out.content), "a:1\nb:2");
    assert_eq!(join_with(&vec!["a".to_string()], ", "), "a");
    assert_eq!(
        join_with(&vec!["a".to_string(), String::new(), "c".to_string()], ", "),
        "a, , c"
    );
    assert_eq!(join_with(&vec![], ", "), "");
}

#[test]
fn session_error_texts() {
    assert_eq!(
        SessionError::NotFound { id: "abc".into() }.to_string(),
        "Session not found: abc"
    );
    assert_eq!(
        SessionError::AmbiguousPrefix {
            prefix: "ab".into(),
            count: 3
        }
        .to_string(),
        "Ambiguous session prefix 'ab': matches 3 sessions"
    );
    assert_eq!(
        SessionError::PrefixNotFound { prefix: "zz".into() }.to_string(),
        "No sessions match prefix 'zz'"
    );
    assert_eq!(SessionError::Io("disk".into()).to_string(), "I/O error: disk");
    assert_eq!(
        SessionError::Serialization("bad".into()).to_string(),
        "Serialization error: bad"
    );
    assert_eq!(
        SessionError::NothingToCompact.to_string(),
        "Nothing to compact: conversation is too short"
    );
}

#[test]
fn file_names() {
    assert_eq!(session_file_name("abc"), "abc.json");
    assert_eq!(archive_file_name("abc", 2), "abc-compact-2.md");
    assert_eq!(archive_file_name("abc", u32::MAX), "abc-compact-4294967295.md");
    assert_eq!(plan_file_name("01234567", "20240102T0304"), "01234567-20240102T0304.md");
}

const FIRST: &str = "0a1b2c3d-0000-4000-8000-000000000001";
const SECOND: &str = "0a1b2c3d-0000-4000-8000-000000000002";
const THIRD: &str = "ffffffff-0000-4000-8000-000000000003";

fn kept() -> Vec<String> {
    vec![
        format!("{FIRST}.json"),
        "notes.txt".to_string(),
        format!("{SECOND}.json"),
        format!("{THIRD}.json"),
        format!("{FIRST}-compact-1.md"),
        "0a1b-not-an-id.json".to_string(),
        format!("{THIRD}.json.tmp"),
    ]
}

#[test]
fn a_prefix_names_one_session() {
    assert_eq!(choose_by_prefix(FIRST, &kept()), Ok(FIRST.to_string()));
    assert_eq!(choose_by_prefix("ffff", &kept()), Ok(THIRD.to_string()));
    assert_eq!(choose_by_prefix("FFFF", &kept()), Ok(THIRD.to_string()));
    assert_eq!(
        choose_by_prefix("0a1b2c3d-0000-4000-8000-000000000002", &kept()),
        Ok(SECOND.to_string())
    );
}

#[test]
fn a_prefix_that_names_none_or_several() {
    assert_eq!(
        choose_by_prefix("eeee", &kept()),
        Err(SessionError::PrefixNotFound {
            prefix: "eeee".into()
        })
    );
    assert_eq!(
        choose_by_prefix("0a1b", &kept()),
        Err(SessionError::AmbiguousPrefix {
            prefix: "0a1b".into(),
            count: 2
        })
    );
    assert_eq!(
        choose_by_prefix("", &kept()),
        Err(SessionError::AmbiguousPrefix {
            prefix: String::new(),
            count: 3
        })
    );
    assert_eq!(
        choose_by_prefix("0A1B", &[]),
        Err(SessionError::PrefixNotFound {
            prefix: "0A1B".into()
        })
    );
    // A file that is no id is no session.
    assert_eq!(
        choose_by_prefix("notes", &["notes.json".to_string()]),
        Err(SessionError::PrefixNotFound {
            prefix: "notes".into()
        })
    );
}

#[test]
fn ids_come_out_in_their_usual_form() {
    let upper = format!("{}.json.json", THIRD.to_uppercase());
    assert_eq!(choose_by_prefix("ffff", &[upper]), Ok(THIRD.to_string()));
    let bare = format!("{}.json", THIRD.replace('-', ""));
    assert_eq!(choose_by_prefix("ffff", &[bare]), Ok(THIRD.to_string()));
}

fn summary(id: &str, updated_at: i64) -> SessionSummary {
    let mut s = Session::new(id.to_string(), 0, "m".into(), "/".into());
    s.updated_at = updated_at;
    s.to_summary()
}

#[test]
fn summaries_are_listed_latest_first() {
    let sorted = sort_summaries(vec![
        summary("a", 5),
        summary("b", -1),
        summary("c", 9),
        summary("d", 5),
        summary("e", i64::MAX),
        summary("f", i64::MIN),
    ]);
    let ids: Vec<&str> = sorted.iter().map(|s| s.id.as_str()).collect();
    assert_eq!(ids, vec!["e", "c", "a", "d", "b", "f"]);
    assert!(sort_summaries(vec![]).is_empty());
}

fn marks() -> Palette {
    Palette {
        reset: "<r>".into(),
        bold: "<b>".into(),
        dim: "<d>".into(),
        italic: "<i>".into(),
        underlined: "<u>".into(),
        fg_reset: "<fr>".into(),
        green: "<green>".into(),
        blue: "<blue>".into(),
        magenta: "<magenta>".into(),
        yellow: "<yellow>".into(),
        dark_yellow: "<dy>".into(),
        cyan: "<cyan>".into(),
        red: "<red>".into(),
    }
}

#[test]
fn what_is_shown_of_a_run() {
    let p = marks();
    let mut display = Display::new();
    assert!(display.first_text);
    assert_eq!(
        display.on_event(&p, &AgentEvent::TextDelta("Hi ".into())),
        vec![DisplayAction::HideSpinner, DisplayAction::Render("Hi ".into())]
    );
    assert!(!display.first_text);
    assert_eq!(
        display.on_event(&p, &AgentEvent::TextDelta("there".into())),
        vec![DisplayAction::Render("there".into())]
    );
    assert_eq!(
        display.on_event(&p, &AgentEvent::ThinkingDelta("hm".into())),
        vec![DisplayAction::Note("\x1b[2mhm\x1b[0m".into())]
    );
    assert_eq!(
        display.on_event(
            &p,
            &AgentEvent::ToolStart {
                name: "Bash".into(),
                input: "{}".into()
            }
        ),
        vec![
            DisplayAction::HideSpinner,
            DisplayAction::FinishRender,
            DisplayAction::NoteLine("  <cyan>\u{26A1}<fr> <b>Bash<r>".into()),
            DisplayAction::ShowSpinner("Running Bash...".into()),
        ]
    );
    assert!(!display.first_text);
    assert_eq!(
        display.on_event(
            &p,
            &AgentEvent::ToolEnd {
                name: "Bash".into(),
                output: "ok".into(),
                is_error: false
            }
        ),
        vec![
            DisplayAction::HideSpinner,
            DisplayAction::NoteLine("  <green>\u{2713}<fr> <b>Bash<r> <d>ok<r>".into()),
            DisplayAction::ShowSpinner("Thinking...".into()),
        ]
    );
    assert!(display.first_text);
    assert_eq!(
        display.on_event(&p, &AgentEvent::ThinkingDelta("hm".into())),
        vec![
            DisplayAction::HideSpinner,
            DisplayAction::Note("\x1b[2mhm\x1b[0m".into())
        ]
    );
    assert_eq!(
        display.on_event(
            &p,
            &AgentEvent::ToolEnd {
                name: "Bash".into(),
                output: "exit 1".into(),
                is_error: true
            }
        ),
        vec![
            DisplayAction::HideSpinner,
            DisplayAction::NoteLine("  <red>\u{2717}<fr> <b>Bash<r> <red>exit 1<fr>".into()),
            DisplayAction::ShowSpinner("Thinking...".into()),
        ]
    );
    assert_eq!(
        display.on_event(
            &p,
            &AgentEvent::ToolBlocked {
                name: "Write".into(),
                reason: "no".into()
            }
        ),
        vec![
            DisplayAction::HideSpinner,
            DisplayAction::NoteLine("  <yellow>\u{2298}<fr> <b>Write<r> <yellow>no<fr>".into()),
        ]
    );
    assert!(display
        .on_event(&p, &AgentEvent::Usage(Usage::default()))
        .is_empty());
    assert_eq!(
        display.on_event(&p, &AgentEvent::Error("boom".into())),
        vec![
            DisplayAction::HideSpinner,
            DisplayAction::NoteLine("Error: boom".into())
        ]
    );
    assert_eq!(
        display.on_event(&p, &AgentEvent::Cancelled),
        vec![
            DisplayAction::HideSpinner,
            DisplayAction::FinishRender,
            DisplayAction::NoteLine("\nCancelled.".into()),
        ]
    );
    assert_eq!(
        display.on_event(&p, &AgentEvent::Done),
        vec![
            DisplayAction::HideSpinner,
            DisplayAction::FinishRender,
            DisplayAction::EndOutput
        ]
    );
    assert!(display.first_text);
}

#[test]
fn rows_of_the_list_of_sessions() {
    assert_eq!(align_right("ab", 4), "  ab");
    assert_eq!(align_right("abcd", 4), "abcd");
    assert_eq!(align_right("abcde", 4), "abcde");
    assert_eq!(align_right("\u{e9}", 3), "  \u{e9}");
    assert_eq!(align_right("", 0), "");
    let mut session = Session::new(
        "0123456789abcdef".into(),
        0,
        "big-model".into(),
        "/work".into(),
    );
    session.updated_at = 1_000;
    assert_eq!(
        session_row(&session.to_summary(), 1_000 + 7200),
        "  01234567   2h ago    0 msgs  big-model  (empty)"
    );
    session.metadata.label = Some("fix".into());
    for i in 0..1234 {
        session.messages.push(chet::conversation::user_message(&format!("message {i}")));
    }
    assert_eq!(
        session_row(&session.to_summary(), 1_000),
        "  01234567 just now  1234 msgs  big-model [fix]  message 0"
    );
    session.metadata.label = Some(String::new());
    assert_eq!(
        session_row(&session.to_summary(), 1_000),
        "  01234567 just now  1234 msgs  big-model  message 0"
    );
}
