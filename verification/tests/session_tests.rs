use chet::compact::{
    build_summary_message, compact, extract_key_facts, find_split_point, messages_to_markdown,
    shorten, KEEP_RECENT_TURNS, MIN_MESSAGES_FOR_COMPACTION,
};
use chet::config::{
    ApiSettings, ChetConfig, CliOverrides, EnvSettings, SettingsFile, DEFAULT_API_BASE_URL,
    DEFAULT_MAX_TOKENS,
};
use chet::context::{
    ContextTracker, DEFAULT_WINDOW, IMAGE_TOKENS, KNOWN_WINDOW, estimate_block_tokens, estimate_message_tokens, window_for,
};
use chet::error::ConfigError;
use chet::json::{Json, JsonNumber};
use chet::message::{
    ContentBlock, ImageSource, ImageSourceType, Message, Role, ToolResultContent, Usage,
};
use chet::permissions::types::{PermissionLevel, PermissionRule};
use chet::session::{Session, SessionSummary};

fn text_msg(role: Role, text: &str) -> Message {
    Message {
        role,
        content: vec![ContentBlock::Text {
            text: text.to_string(),
        }],
    }
}

fn long_conversation() -> Vec<Message> {
    let mut msgs = Vec::new();
    for i in 0..10 {
        msgs.push(text_msg(Role::User, &format!("Question {i}")));
        msgs.push(text_msg(Role::Assistant, &format!("Answer {i}")));
    }
    msgs
}

fn first_text(m: &Message) -> String {
    match &m.content[0] {
        ContentBlock::Text { text } => text.clone(),
        _ => panic!("expected text"),
    }
}

fn tool_use(name: &str, input: &str) -> Message {
    Message {
        role: Role::Assistant,
        content: vec![ContentBlock::ToolUse {
            id: "t1".into(),
            name: name.into(),
            input: Json::parse(input).unwrap(),
        }],
    }
}

fn tool_result(text: &str, is_error: Option<bool>) -> Message {
    Message {
        role: Role::User,
        content: vec![ContentBlock::ToolResult {
            tool_use_id: "t1".into(),
            content: vec![ToolResultContent::Text { text: text.into() }],
            is_error,
        }],
    }
}

fn image() -> ImageSource {
    ImageSource {
        source_type: ImageSourceType::Base64,
        media_type: "image/png".into(),
        data: "AAAA".into(),
    }
}

#[test]
fn short_conversation_returns_none() {
    let msgs = vec![
        text_msg(Role::User, "Hello"),
        text_msg(Role::Assistant, "Hi"),
    ];
    assert!(compact(&msgs).is_none());
}

#[test]
fn preserves_recent_messages() {
    let msgs = long_conversation();
    let result = compact(&msgs).unwrap();
    assert!(result.new_messages.len() < msgs.len());
    let last_orig = msgs.last().unwrap();
    let last_new = result.new_messages.last().unwrap();
    assert_eq!(first_text(last_orig), first_text(last_new));
    assert_eq!(first_text(last_new), "Answer 9");
}

#[test]
fn generates_archive() {
    let msgs = long_conversation();
    let result = compact(&msgs).unwrap();
    assert!(result.archive_markdown.contains("# Conversation Archive"));
    assert!(result.archive_markdown.contains("Question 0"));
}

#[test]
fn extracts_tool_calls() {
    let mut msgs = long_conversation();
    msgs.insert(2, tool_use("Read", r#"{"file_path": "/src/main.rs"}"#));
    msgs.insert(3, tool_result("fn main() {}", None));
    let result = compact(&msgs).unwrap();
    let summary_text = first_text(&result.new_messages[0]);
    assert!(summary_text.contains("Read"));
    assert_eq!(
        summary_text,
        "[This conversation was compacted. Key facts from the earlier conversation:]\n\n\
         - Tools used: Read\n- Files read: /src/main.rs\n"
    );
}

#[test]
fn extracts_errors() {
    let mut msgs = long_conversation();
    msgs.insert(2, tool_result("Permission denied", Some(true)));
    let result = compact(&msgs).unwrap();
    let summary_text = first_text(&result.new_messages[0]);
    assert!(summary_text.contains("Permission denied"));
    assert!(summary_text.contains("- Error encountered: Permission denied\n"));
}

#[test]
fn summary_is_user_role() {
    let msgs = long_conversation();
    let result = compact(&msgs).unwrap();
    assert_eq!(result.new_messages[0].role, Role::User);
}

#[test]
fn messages_removed_count() {
    let msgs = long_conversation();
    let result = compact(&msgs).unwrap();
    assert!(result.messages_removed > 0);
    assert_eq!(
        result.new_messages.len(),
        1 + (msgs.len() - result.messages_removed)
    );
    assert_eq!(result.messages_removed, 10);
    assert_eq!(result.new_messages.len(), 11);
    assert_eq!(first_text(&result.new_messages[1]), "Question 5");
}

#[test]
fn compaction_limits() {
    assert_eq!(MIN_MESSAGES_FOR_COMPACTION, 12);
    assert_eq!(KEEP_RECENT_TURNS, 5);
    let mut msgs = long_conversation();
    msgs.truncate(11);
    assert!(compact(&msgs).is_none());
    msgs.push(text_msg(Role::Assistant, "Answer 5"));
    assert!(compact(&msgs).is_some());
}

#[test]
fn split_point_is_the_fifth_user_message_from_the_end() {
    let msgs = long_conversation();
    assert_eq!(find_split_point(&msgs), 10);
    assert_eq!(find_split_point(&msgs[..12]), 2);
    // Exactly five user messages: the split would stand at the start.
    assert_eq!(find_split_point(&msgs[..10]), 0);
    assert_eq!(find_split_point(&msgs[..4]), 0);
    assert_eq!(find_split_point(&[]), 0);
}

#[test]
fn a_conversation_with_too_few_user_messages_is_not_compacted() {
    let mut msgs = vec![text_msg(Role::User, "go")];
    for i in 0..12 {
        msgs.push(text_msg(Role::Assistant, &format!("step {i}")));
    }
    assert_eq!(find_split_point(&msgs), 0);
    assert!(compact(&msgs).is_none());
}

#[test]
fn shorten_cuts_on_a_character() {
    assert_eq!(shorten("hello", 5, 2), "hello");
    assert_eq!(shorten("hello!", 5, 2), "he...");
    assert_eq!(shorten("h\u{e9}llo!", 5, 2), "h...");
    assert_eq!(shorten("", 0, 0), "");
}

#[test]
fn key_facts_in_order() {
    let long_command = "x".repeat(61);
    let msgs = vec![
        tool_use("Bash", r#"{"command": "ls -la"}"#),
        tool_use("Read", r#"{"file_path": "/a"}"#),
        tool_use("Read", r#"{"file_path": "/a"}"#),
        tool_use("Grep", r#"{"file_path": "/b"}"#),
        tool_use("Edit", r#"{"file_path": "/c"}"#),
        tool_use("Write", r#"{"file_path": "/d"}"#),
        tool_use("Other", r#"{"file_path": "/e"}"#),
        tool_use(
            "Bash",
            &format!(r#"{{"command": "{long_command}"}}"#),
        ),
        tool_result("fine", None),
        tool_result("not an error", Some(false)),
        tool_result("broke", Some(true)),
        tool_result(&"e".repeat(101), Some(true)),
    ];
    let facts = extract_key_facts(&msgs);
    assert_eq!(
        facts,
        vec![
            "Ran command: `ls -la`".to_string(),
            format!("Ran command: `{}...`", "x".repeat(57)),
            "Tools used: Bash, Read, Grep, Edit, Write, Other".to_string(),
            "Files read: /a, /b".to_string(),
            "Files modified: /c, /d".to_string(),
            "Error encountered: broke".to_string(),
            format!("Error encountered: {}...", "e".repeat(97)),
        ]
    );
}

#[test]
fn key_facts_of_plain_talk_are_none() {
    assert!(extract_key_facts(&long_conversation()).is_empty());
    assert!(extract_key_facts(&[]).is_empty());
}

#[test]
fn summary_message_text() {
    let none = build_summary_message(&[]);
    assert_eq!(none.role, Role::User);
    assert_eq!(
        first_text(&none),
        "[This conversation was compacted. Key facts from the earlier conversation:]\n\n\
         - (No specific facts extracted from the compacted portion)\n"
    );
    let two = build_summary_message(&["a".to_string(), "b".to_string()]);
    assert_eq!(two.content.len(), 1);
    assert_eq!(
        first_text(&two),
        "[This conversation was compacted. Key facts from the earlier conversation:]\n\n- a\n- b\n"
    );
}

#[test]
fn archive_text() {
    let msgs = vec![
        text_msg(Role::User, "Hi"),
        Message {
            role: Role::Assistant,
            content: vec![
                ContentBlock::Thinking {
                    thinking: "t".repeat(201),
                    signature: None,
                },
                ContentBlock::ToolUse {
                    id: "t1".into(),
                    name: "Read".into(),
                    input: Json::parse(r#"{ "file_path": "/a", "n": [1, 2] }"#).unwrap(),
                },
                ContentBlock::Image { source: image() },
            ],
        },
        Message {
            role: Role::User,
            content: vec![
                ContentBlock::ToolResult {
                    tool_use_id: "t1".into(),
                    content: vec![
                        ToolResultContent::Text { text: "out".into() },
                        ToolResultContent::Image { source: image() },
                        ToolResultContent::Text {
                            text: "y".repeat(2001),
                        },
                    ],
                    is_error: None,
                },
                ContentBlock::ToolResult {
                    tool_use_id: "t2".into(),
                    content: vec![],
                    is_error: Some(true),
                },
            ],
        },
    ];
    let expected = format!(
        "# Conversation Archive\n\n\
         ## **User**\n\nHi\n\n\
         ## **Assistant**\n\n\
         *Thinking: {}*\n\n\
         **Tool call: Read**\n```json\n{{\"file_path\":\"/a\",\"n\":[1,2]}}\n```\n\n\
         *[Image]*\n\n\
         ## **User**\n\n\
         **Tool result:**\n```\nout\n```\n\n```\n{}...\n(truncated)\n```\n\n\
         **Tool error:**\n",
        "t".repeat(200),
        "y".repeat(2000)
    );
    assert_eq!(messages_to_markdown(&msgs), expected);
    assert_eq!(messages_to_markdown(&[]), "# Conversation Archive\n\n");
}

#[test]
fn compaction_archives_the_whole_conversation() {
    let msgs = long_conversation();
    let result = compact(&msgs).unwrap();
    assert_eq!(result.archive_markdown, messages_to_markdown(&msgs));
    assert!(result.archive_markdown.contains("Answer 9"));
}

#[test]
fn json_text_is_compact() {
    let j = Json::parse(r#" { "b" : [ 1 , -2 , 2.5 , true , null ] , "a" : "x\"y" } "#).unwrap();
    // Members are printed in the order of their keys.
    assert_eq!(j.to_text(), r#"{"a":"x\"y","b":[1,-2,2.5,true,null]}"#);
    assert_eq!(Json::parse("18446744073709551615").unwrap().to_text(), "18446744073709551615");
    assert_eq!(Json::parse("\"\"").unwrap().to_text(), "\"\"");
}

#[test]
fn auto_label_sets_from_first_user_message() {
    let mut session = Session::new("id".into(), 0, "test".into(), "/tmp".into());
    session
        .messages
        .push(text_msg(Role::User, "Fix the auth bug"));
    session.messages.push(text_msg(Role::Assistant, "OK"));
    session.auto_label();
    assert_eq!(session.metadata.label.as_deref(), Some("Fix the auth bug"));
}

#[test]
fn auto_label_truncates_long_messages() {
    let mut session = Session::new("id".into(), 0, "test".into(), "/tmp".into());
    let long_msg = "a".repeat(100);
    session.messages.push(text_msg(Role::User, &long_msg));
    session.auto_label();
    let label = session.metadata.label.as_deref().unwrap();
    assert!(label.len() <= 60);
    assert_eq!(label, "a".repeat(60));
}

#[test]
fn auto_label_noop_if_already_set() {
    let mut session = Session::new("id".into(), 0, "test".into(), "/tmp".into());
    session.metadata.label = Some("Existing label".into());
    session.messages.push(text_msg(Role::User, "New message"));
    session.auto_label();
    assert_eq!(session.metadata.label.as_deref(), Some("Existing label"));
}

#[test]
fn auto_label_noop_if_no_user_messages() {
    let mut session = Session::new("id".into(), 0, "test".into(), "/tmp".into());
    session.auto_label();
    assert!(session.metadata.label.is_none());
    session.messages.push(text_msg(Role::Assistant, "hello"));
    session.auto_label();
    assert!(session.metadata.label.is_none());
}

#[test]
fn auto_label_skips_blank_texts() {
    let mut session = Session::new("id".into(), 0, "test".into(), "/tmp".into());
    session.messages.push(tool_result("ignored", None));
    session.messages.push(Message {
        role: Role::User,
        content: vec![
            ContentBlock::Text { text: "  \n".into() },
            ContentBlock::Text {
                text: "  second \u{e9}t\u{e9} ".into(),
            },
        ],
    });
    session.messages.push(text_msg(Role::User, "third"));
    session.auto_label();
    assert_eq!(session.metadata.label.as_deref(), Some("second \u{e9}t\u{e9}"));
}

#[test]
fn preview_truncates_with_unicode_safety() {
    let mut session = Session::new("id".into(), 0, "test".into(), "/tmp".into());
    let emojis = "\u{1F600}".repeat(82);
    session.messages.push(text_msg(Role::User, &emojis));
    let preview = session.preview();
    assert!(preview.ends_with("..."));
    assert_eq!(preview, format!("{}...", "\u{1F600}".repeat(19)));
}

#[test]
fn preview_of_short_and_missing_text() {
    let mut session = Session::new("id".into(), 0, "test".into(), "/tmp".into());
    assert_eq!(session.preview(), "");
    session.messages.push(text_msg(Role::Assistant, "not this"));
    session.messages.push(tool_result("nor this", None));
    session.messages.push(text_msg(Role::User, "  hello there \n"));
    session.messages.push(text_msg(Role::User, "later"));
    assert_eq!(session.preview(), "hello there");
    let mut exact = Session::new("id".into(), 0, "test".into(), "/tmp".into());
    exact.messages.push(text_msg(Role::User, &"b".repeat(80)));
    assert_eq!(exact.preview(), "b".repeat(80));
    let mut over = Session::new("id".into(), 0, "test".into(), "/tmp".into());
    over.messages.push(text_msg(Role::User, &"b".repeat(81)));
    assert_eq!(over.preview(), format!("{}...", "b".repeat(77)));
}

#[test]
fn preview_takes_the_first_text_even_if_blank() {
    let mut session = Session::new("id".into(), 0, "test".into(), "/tmp".into());
    session.messages.push(text_msg(Role::User, "   "));
    session.messages.push(text_msg(Role::User, "words"));
    assert_eq!(session.preview(), "");
}

#[test]
fn new_session_is_empty() {
    let session = Session::new(
        "0123456789abcdef".into(),
        1_700_000_000,
        "big-model".into(),
        "/work".into(),
    );
    assert_eq!(session.id, "0123456789abcdef");
    assert_eq!(session.created_at, 1_700_000_000);
    assert_eq!(session.updated_at, 1_700_000_000);
    assert!(session.messages.is_empty());
    assert_eq!(session.total_usage, Usage::default());
    assert_eq!(session.metadata.model, "big-model");
    assert_eq!(session.metadata.cwd, "/work");
    assert!(session.metadata.label.is_none());
    assert_eq!(session.compaction_count, 0);
    assert_eq!(session.short_id(), "01234567");
}

#[test]
fn summary_of_a_session() {
    let mut session = Session::new(
        "0123456789abcdef".into(),
        100,
        "big-model".into(),
        "/work".into(),
    );
    session.updated_at = 200;
    session.messages.push(text_msg(Role::User, "Fix it"));
    session.messages.push(text_msg(Role::Assistant, "Done"));
    session.total_usage.input_tokens = 7;
    session.total_usage.output_tokens = 9;
    session.metadata.label = Some("label".into());
    let summary = session.to_summary();
    assert_eq!(summary.id, "0123456789abcdef");
    assert_eq!(summary.created_at, 100);
    assert_eq!(summary.updated_at, 200);
    assert_eq!(summary.model, "big-model");
    assert_eq!(summary.cwd, "/work");
    assert_eq!(summary.message_count, 2);
    assert_eq!(summary.total_input_tokens, 7);
    assert_eq!(summary.total_output_tokens, 9);
    assert_eq!(summary.label.as_deref(), Some("label"));
    assert_eq!(summary.preview, "Fix it");
    assert_eq!(summary.short_id(), "01234567");
}

fn summary_at(updated_at: i64) -> SessionSummary {
    let mut session = Session::new("short".into(), 0, "m".into(), "/".into());
    session.updated_at = updated_at;
    session.to_summary()
}

#[test]
fn age_in_words() {
    let s = summary_at(1_000_000);
    assert_eq!(s.short_id(), "short");
    assert_eq!(s.age(1_000_000), "just now");
    assert_eq!(s.age(1_000_059), "just now");
    assert_eq!(s.age(1_000_060), "1m ago");
    assert_eq!(s.age(1_000_000 + 59 * 60 + 59), "59m ago");
    assert_eq!(s.age(1_000_000 + 3600), "1h ago");
    assert_eq!(s.age(1_000_000 + 23 * 3600 + 3599), "23h ago");
    assert_eq!(s.age(1_000_000 + 86400), "1d ago");
    assert_eq!(s.age(1_000_000 + 30 * 86400), "30d ago");
    // A time before the last change counts as now.
    assert_eq!(s.age(0), "just now");
    assert_eq!(summary_at(i64::MAX).age(i64::MIN), "just now");
    assert_eq!(summary_at(i64::MIN).age(i64::MAX), "213503982334601d ago");
}

#[test]
fn empty_messages() {
    let tracker = ContextTracker::with_window(200_000);
    let info = tracker.estimate(&[], None);
    assert_eq!(info.estimated_tokens, 0);
    assert_eq!(info.context_window, 200_000);
    assert_eq!(tracker.context_window(), 200_000);
}

#[test]
fn single_message() {
    let tracker = ContextTracker::with_window(200_000);
    let msgs = vec![text_msg(Role::User, "Hello world")];
    let info = tracker.estimate(&msgs, None);
    assert!(info.user_tokens > 0);
    assert_eq!(info.assistant_tokens, 0);
    assert_eq!(info.estimated_tokens, info.user_tokens);
    assert_eq!(info.user_tokens, 7);
}

#[test]
fn with_system_prompt() {
    let tracker = ContextTracker::with_window(200_000);
    let msgs = vec![text_msg(Role::User, "Hi")];
    let info = tracker.estimate(&msgs, Some("You are a helpful assistant."));
    assert!(info.system_tokens > 0);
    assert_eq!(info.estimated_tokens, info.system_tokens + info.user_tokens);
    assert_eq!(info.system_tokens, 7);
    assert_eq!(info.user_tokens, 5);
}

#[test]
fn with_tool_use_blocks() {
    let tracker = ContextTracker::with_window(200_000);
    let msgs = vec![tool_use("Read", r#"{"file_path": "/tmp/test.rs"}"#)];
    let info = tracker.estimate(&msgs, None);
    assert!(info.assistant_tokens > 0);
    // 4 for the message, 1 for the name, 7 for the 28 bytes of the input.
    assert_eq!(info.assistant_tokens, 12);
}

#[test]
fn last_turn_tracking() {
    let tracker = ContextTracker::with_window(200_000);
    let msgs = vec![
        text_msg(Role::User, "First question"),
        text_msg(Role::Assistant, "First answer"),
        text_msg(Role::User, "Second question"),
        text_msg(Role::Assistant, "Second answer"),
    ];
    let info = tracker.estimate(&msgs, None);
    assert!(info.last_turn_input_tokens > 0);
    assert!(info.last_turn_output_tokens > 0);
    assert_eq!(info.last_turn_input_tokens, 8);
    assert_eq!(info.last_turn_output_tokens, 8);
    assert_eq!(info.user_tokens, 16);
    assert_eq!(info.assistant_tokens, 15);
    assert_eq!(info.estimated_tokens, 31);
}

#[test]
fn last_turn_takes_the_user_messages_directly_before() {
    let tracker = ContextTracker::with_window(1);
    let msgs = vec![
        text_msg(Role::Assistant, "a"),
        text_msg(Role::User, "12345678"),
        text_msg(Role::User, "1234"),
        text_msg(Role::Assistant, "answer"),
        text_msg(Role::User, "after"),
    ];
    let info = tracker.estimate(&msgs, None);
    assert_eq!(info.last_turn_input_tokens, 6 + 5);
    assert_eq!(info.last_turn_output_tokens, 6);
    let none = tracker.estimate(&msgs[4..], None);
    assert_eq!(none.last_turn_input_tokens, 0);
    assert_eq!(none.last_turn_output_tokens, 0);
    let first = tracker.estimate(&msgs[..1], None);
    assert_eq!(first.last_turn_input_tokens, 0);
    assert_eq!(first.last_turn_output_tokens, 5);
}

#[test]
fn block_and_message_estimates() {
    assert_eq!(IMAGE_TOKENS, 1000);
    assert_eq!(estimate_block_tokens(&ContentBlock::Image { source: image() }), 1000);
    assert_eq!(
        estimate_block_tokens(&ContentBlock::Thinking {
            thinking: "12345".into(),
            signature: Some("ignored".into())
        }),
        2
    );
    let result = ContentBlock::ToolResult {
        tool_use_id: "t".into(),
        content: vec![
            ToolResultContent::Text { text: "123456789".into() },
            ToolResultContent::Image { source: image() },
        ],
        is_error: None,
    };
    assert_eq!(estimate_block_tokens(&result), 1003);
    assert_eq!(estimate_block_tokens(&ContentBlock::Text { text: String::new() }), 0);
    let msg = Message {
        role: Role::User,
        content: vec![result, ContentBlock::Text { text: "\u{1F600}".into() }],
    };
    assert_eq!(estimate_message_tokens(&msg), 4 + 1003 + 1);
    assert_eq!(estimate_message_tokens(&Message { role: Role::User, content: vec![] }), 4);
}

fn no_env() -> EnvSettings {
    EnvSettings {
        api_key: None,
        model: None,
        api_base_url: None,
    }
}

#[test]
fn test_default_settings() {
    let settings = SettingsFile::default();
    assert!(settings.api.api_key.is_none());
    assert!(settings.api.model.is_none());
    assert!(settings.api.max_tokens.is_none());
    assert!(settings.api.base_url.is_none());
    assert!(settings.api.thinking_budget.is_none());
    assert!(settings.permissions.rules.is_empty());
    assert!(settings.hooks.is_empty());
    let api = ApiSettings::default();
    assert!(api.api_key.is_none());
    let overrides = CliOverrides::default();
    assert!(overrides.api_key.is_none() && overrides.model.is_none());
    assert!(overrides.max_tokens.is_none() && overrides.thinking_budget.is_none());
}

#[test]
fn a_missing_key_is_an_error() {
    let r = ChetConfig::resolve(
        CliOverrides::default(),
        no_env(),
        SettingsFile::default(),
        "/home/u/.chet".into(),
        "default-model",
    );
    match r {
        Err(ConfigError::MissingKey { key }) => {
            assert_eq!(
                key,
                "api_key (set ANTHROPIC_API_KEY or add to ~/.chet/config.toml)"
            );
        }
        other => panic!("unexpected: {other:?}"),
    }
}

#[test]
fn defaults_apply_where_nothing_is_set() {
    let mut env = no_env();
    env.api_key = Some("k-env".into());
    let c = ChetConfig::resolve(
        CliOverrides::default(),
        env,
        SettingsFile::default(),
        "/home/u/.chet".into(),
        "default-model",
    )
    .unwrap();
    assert_eq!(c.api_key, "k-env");
    assert_eq!(c.model, "default-model");
    assert_eq!(c.max_tokens, 16384);
    assert_eq!(DEFAULT_MAX_TOKENS, 16384);
    assert_eq!(c.api_base_url, "https://api.anthropic.com");
    assert_eq!(DEFAULT_API_BASE_URL, "https://api.anthropic.com");
    assert_eq!(c.thinking_budget, None);
    assert_eq!(c.config_dir, "/home/u/.chet");
    assert!(c.permission_rules.is_empty());
    assert!(c.hooks.is_empty());
}

fn full_file() -> SettingsFile {
    let mut file = SettingsFile::default();
    file.api.api_key = Some("k-file".into());
    file.api.model = Some("m-file".into());
    file.api.max_tokens = Some(100);
    file.api.base_url = Some("http://file".into());
    file.api.thinking_budget = Some(5);
    file.permissions.rules.push(PermissionRule {
        tool: "Bash".into(),
        args: None,
        level: PermissionLevel::Block,
    });
    file
}

#[test]
fn the_command_line_counts_first() {
    let c = ChetConfig::resolve(
        CliOverrides {
            api_key: Some("k-cli".into()),
            model: Some("m-cli".into()),
            max_tokens: Some(1),
            thinking_budget: Some(2),
        },
        EnvSettings {
            api_key: Some("k-env".into()),
            model: Some("m-env".into()),
            api_base_url: Some("http://env".into()),
        },
        full_file(),
        "/c".into(),
        "default-model",
    )
    .unwrap();
    assert_eq!(c.api_key, "k-cli");
    assert_eq!(c.model, "m-cli");
    assert_eq!(c.max_tokens, 1);
    assert_eq!(c.thinking_budget, Some(2));
    assert_eq!(c.api_base_url, "http://env");
    assert_eq!(c.permission_rules.len(), 1);
    assert_eq!(c.permission_rules[0].tool, "Bash");
}

#[test]
fn the_environment_counts_before_the_file() {
    let c = ChetConfig::resolve(
        CliOverrides::default(),
        EnvSettings {
            api_key: Some("k-env".into()),
            model: Some("m-env".into()),
            api_base_url: None,
        },
        full_file(),
        "/c".into(),
        "default-model",
    )
    .unwrap();
    assert_eq!(c.api_key, "k-env");
    assert_eq!(c.model, "m-env");
    assert_eq!(c.max_tokens, 100);
    assert_eq!(c.thinking_budget, Some(5));
    assert_eq!(c.api_base_url, "http://file");
}

#[test]
fn the_file_counts_before_the_defaults() {
    let c = ChetConfig::resolve(
        CliOverrides::default(),
        no_env(),
        full_file(),
        "/c".into(),
        "default-model",
    )
    .unwrap();
    assert_eq!(c.api_key, "k-file");
    assert_eq!(c.model, "m-file");
    assert_eq!(c.api_base_url, "http://file");
}

fn filed_session() -> Session {
    let mut session = Session::new(
        "0a1b2c3d-0000-4000-8000-000000000001".into(),
        1_700_000_000,
        "big-model".into(),
        "/work".into(),
    );
    session.updated_at = 1_700_000_060;
    session.messages.push(text_msg(Role::User, "Hello"));
    session.messages.push(tool_use("Read", r#"{"file_path": "/a"}"#));
    session.total_usage.input_tokens = 7;
    session.total_usage.cache_read_input_tokens = 3;
    session.compaction_count = 2;
    session
}

#[test]
fn the_file_of_a_session() {
    let session = filed_session();
    assert_eq!(
        session.to_json().to_text(),
        "{\"compaction_count\":2,\"created_at\":\"2023-11-14T22:13:20+00:00\",\
         \"id\":\"0a1b2c3d-0000-4000-8000-000000000001\",\
         \"messages\":[{\"content\":[{\"text\":\"Hello\",\"type\":\"text\"}],\"role\":\"user\"},\
         {\"content\":[{\"id\":\"t1\",\"input\":{\"file_path\":\"/a\"},\"name\":\"Read\",\"type\":\"tool_use\"}],\"role\":\"assistant\"}],\
         \"metadata\":{\"cwd\":\"/work\",\"label\":null,\"model\":\"big-model\"},\
         \"total_usage\":{\"cache_creation_input_tokens\":0,\"cache_read_input_tokens\":3,\"input_tokens\":7,\"output_tokens\":0},\
         \"updated_at\":\"2023-11-14T22:14:20+00:00\"}"
    );
    let mut labelled = filed_session();
    labelled.metadata.label = Some("fix".into());
    assert_eq!(
        labelled.to_json().get("metadata").map(|m| m.to_text()),
        Some(r#"{"cwd":"/work","label":"fix","model":"big-model"}"#.to_string())
    );
    // A time beyond what can be written is written as the epoch.
    let mut far = filed_session();
    far.created_at = i64::MAX;
    assert_eq!(
        far.to_json().get_str("created_at"),
        Some("1970-01-01T00:00:00+00:00")
    );
}

#[test]
fn a_session_comes_back_from_its_file() {
    let mut session = filed_session();
    session.metadata.label = Some("fix".into());
    let back = Session::from_json(&Json::parse(&session.to_json().to_text()).unwrap()).unwrap();
    assert_eq!(back.id, session.id);
    assert_eq!(back.created_at, 1_700_000_000);
    assert_eq!(back.updated_at, 1_700_000_060);
    assert_eq!(back.messages.len(), 2);
    assert_eq!(first_text(&back.messages[0]), "Hello");
    assert_eq!(back.total_usage, session.total_usage);
    assert_eq!(back.metadata.model, "big-model");
    assert_eq!(back.metadata.cwd, "/work");
    assert_eq!(back.metadata.label.as_deref(), Some("fix"));
    assert_eq!(back.compaction_count, 2);
}

#[test]
fn files_that_hold_no_session() {
    let whole = filed_session().to_json().to_text();
    let value = Json::parse(&whole).unwrap();
    let members = match value {
        Json::Object(members) => members,
        other => panic!("unexpected {other:?}"),
    };
    for required in ["id", "created_at", "updated_at", "messages", "total_usage", "metadata"] {
        let without: Vec<(String, Json)> = members
            .iter()
            .filter(|(k, _)| k != required)
            .map(|(k, v)| (k.clone(), v.clone()))
            .collect();
        assert!(Session::from_json(&Json::object(without)).is_none(), "{required}");
    }
    for bad in [
        whole.replace("2023-11-14T22:13:20+00:00", "yesterday"),
        whole.replace(r#""role":"user""#, r#""role":"system""#),
        whole.replace(r#""model":"big-model""#, r#""model":5"#),
        whole.replace(r#""cwd":"/work","#, ""),
        "[]".to_string(),
    ] {
        assert!(Session::from_json(&Json::parse(&bad).unwrap()).is_none(), "{bad}");
    }
}

#[test]
fn counts_and_label_may_be_missing() {
    let text = r#"{"id":"x","created_at":"1970-01-01T00:00:10Z","updated_at":"1970-01-01T01:00:00+01:00",
        "messages":[{"role":"user","content":[{"type":"audio","data":"AAAA"}]}],
        "total_usage":{"input_tokens":5,"output_tokens":"many"},
        "metadata":{"model":"m","cwd":"/","label":7},"compaction_count":4294967296,"more":true}"#;
    let s = Session::from_json(&Json::parse(text).unwrap()).unwrap();
    assert_eq!(s.created_at, 10);
    assert_eq!(s.updated_at, 0);
    assert_eq!(s.total_usage.input_tokens, 5);
    assert_eq!(s.total_usage.output_tokens, 0);
    assert_eq!(s.total_usage.cache_read_input_tokens, 0);
    assert!(s.metadata.label.is_none());
    assert_eq!(s.compaction_count, u32::MAX);
    assert!(matches!(&s.messages[0].content[0], ContentBlock::Unknown { .. }));
    let bare = r#"{"id":"x","created_at":"1970-01-01T00:00:10Z","updated_at":"1970-01-01T00:00:10Z",
        "messages":[],"total_usage":null,"metadata":{"model":"m","cwd":"/"}}"#;
    let s = Session::from_json(&Json::parse(bare).unwrap()).unwrap();
    assert_eq!(s.compaction_count, 0);
    assert_eq!(s.total_usage, Usage::default());
}

#[test]
fn the_window_of_a_model() {
    assert_eq!(KNOWN_WINDOW, 200_000);
    assert_eq!(DEFAULT_WINDOW, 128_000);
    assert_eq!(window_for("big-model-4", "big"), 200_000);
    assert_eq!(window_for("The-BIG-one", "big"), 200_000);
    assert_eq!(window_for("some-unknown-model", "big"), 128_000);
    assert_eq!(window_for("bi-g", "big"), 128_000);
    assert_eq!(window_for("", "big"), 128_000);
    assert_eq!(window_for("anything", ""), 200_000);
    let tracker = ContextTracker::for_model("a-big-model", "big");
    assert_eq!(tracker.context_window(), 200_000);
    assert_eq!(tracker.estimate(&[], None).context_window, 200_000);
}

#[test]
fn a_number_whose_text_is_no_number_prints_as_null() {
    assert_eq!(Json::Number(JsonNumber::Float("[1]".into())).to_text(), "null");
    assert_eq!(Json::Number(JsonNumber::Float("oops".into())).to_text(), "null");
    assert_eq!(Json::Number(JsonNumber::Float("2.5".into())).to_text(), "2.5");
    assert_eq!(Json::Number(JsonNumber::Float("1e3".into())).to_text(), "1000.0");
}
