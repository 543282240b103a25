use chet::json::{Json, JsonNumber};
use chet::message::{
    CacheControl, ContentBlock, CreateMessageRequest, ImageSource, ImageSourceType, Message, Role,
    SystemContent, ThinkingConfig, ToolDefinition, ToolResultContent,
};
use chet::permissions::types::{HookEvent, HookInput};
use chet::sse::SseParser;
use chet::sse_render::render_record;
use chet::wire::{hook_event_name, temperature_to_json};

fn sample_message() -> Message {
    Message {
        role: Role::Assistant,
        content: vec![
            ContentBlock::Text {
                text: "hello \u{1F600}".to_string(),
            },
            ContentBlock::Thinking {
                thinking: "hm".to_string(),
                signature: Some("sig".to_string()),
            },
            ContentBlock::Thinking {
                thinking: "bare".to_string(),
                signature: None,
            },
            ContentBlock::ToolUse {
                id: "t1".to_string(),
                name: "Echo".to_string(),
                input: Json::parse(r#"{"msg":"hi","deep":[1,{"x":null}],"n":-3,"f":2.5}"#)
                    .unwrap(),
            },
            ContentBlock::ToolResult {
                tool_use_id: "t1".to_string(),
                content: vec![
                    ToolResultContent::Text {
                        text: "out".to_string(),
                    },
                    ToolResultContent::Image {
                        source: ImageSource {
                            source_type: ImageSourceType::Url,
                            media_type: "image/png".to_string(),
                            data: "http://x/y.png".to_string(),
                        },
                    },
                ],
                is_error: Some(false),
            },
            ContentBlock::ToolResult {
                tool_use_id: "t2".to_string(),
                content: Vec::new(),
                is_error: None,
            },
            ContentBlock::Image {
                source: ImageSource {
                    source_type: ImageSourceType::Base64,
                    media_type: "image/jpeg".to_string(),
                    data: "AAAA".to_string(),
                },
            },
        ],
    }
}

#[test]
fn message_survives_json() {
    let message = sample_message();
    let json = message.to_json();
    let back = Message::from_json(&json).expect("the JSON of a message is a message");
    assert_eq!(format!("{back:?}"), format!("{message:?}"));
    let again = back.to_json();
    assert_eq!(format!("{again:?}"), format!("{json:?}"));
}

#[test]
fn message_json_has_the_wire_shape() {
    let json = sample_message().to_json();
    assert_eq!(json.get_str("role"), Some("assistant"));
    match json.get("content") {
        Some(Json::Array(items)) => {
            assert_eq!(items.len(), 7);
            assert_eq!(items[0].get_str("type"), Some("text"));
            assert_eq!(items[0].get_str("text"), Some("hello \u{1F600}"));
            assert_eq!(items[1].get_str("signature"), Some("sig"));
            assert!(items[2].get("signature").is_none());
            assert_eq!(items[3].get_str("type"), Some("tool_use"));
            assert_eq!(
                items[3].get("input").and_then(|i| i.get_str("msg")),
                Some("hi")
            );
            assert_eq!(items[4].get_str("tool_use_id"), Some("t1"));
            assert_eq!(items[4].get("is_error").and_then(|b| b.as_bool()), Some(false));
            assert!(items[5].get("is_error").is_none());
            assert_eq!(
                items[6].get("source").and_then(|s| s.get_str("type")),
                Some("base64")
            );
        }
        other => panic!("unexpected {other:?}"),
    }
}

#[test]
fn values_that_are_no_message_are_refused() {
    for text in [
        "[]",
        "{}",
        r#"{"role":"user"}"#,
        r#"{"role":"system","content":[]}"#,
        r#"{"role":"user","content":{}}"#,
        r#"{"role":"user","content":[5]}"#,
        r#"{"role":"user","content":[{"type":"text","text":"x"},"y"]}"#,
    ] {
        assert!(
            Message::from_json(&Json::parse(text).unwrap()).is_none(),
            "{text}"
        );
    }
}

fn stored(content: &str) -> Message {
    let text = format!(r#"{{"role":"assistant","content":[{content}]}}"#);
    Message::from_json(&Json::parse(&text).unwrap()).unwrap()
}

fn written(m: &Message) -> String {
    match m.to_json().get("content") {
        Some(Json::Array(items)) => items
            .iter()
            .map(|b| b.to_text())
            .collect::<Vec<_>>()
            .join(","),
        other => panic!("unexpected {other:?}"),
    }
}

#[test]
fn unknown_blocks_are_kept_as_they_are() {
    let blocks = [
        r#"{"data":"AAAA","rate":8000,"type":"audio"}"#,
        r#"{"type":"server_tool_use"}"#,
        r#"{"type":5}"#,
        r#"{"untagged":[1,{"a":null}]}"#,
        r#"{}"#,
    ];
    let m = stored(&blocks.join(","));
    assert_eq!(m.content.len(), 5);
    for block in &m.content {
        assert!(matches!(block, ContentBlock::Unknown { .. }), "{block:?}");
    }
    assert_eq!(written(&m), blocks.join(","));
    // Read again, the message is the same.
    let again = Message::from_json(&m.to_json()).unwrap();
    assert_eq!(written(&again), blocks.join(","));
}

#[test]
fn members_that_a_known_block_does_not_hold_are_kept() {
    let blocks = [
        r#"{"citations":null,"text":"x","type":"text"}"#,
        r#"{"cache_control":{"type":"ephemeral"},"id":"t1","input":{},"name":"Echo","type":"tool_use"}"#,
        r#"{"content":[{"more":1,"text":"out","type":"text"}],"tool_use_id":"t1","type":"tool_result"}"#,
        r#"{"content":[],"is_error":null,"tool_use_id":"t1","type":"tool_result"}"#,
        r#"{"source":{"data":"AAAA","detail":"low","media_type":"image/png","type":"base64"},"type":"image"}"#,
        r#"{"signature":"s","thinking":"hm","type":"thinking","weight":2}"#,
        r#"{"text":5,"type":"text"}"#,
    ];
    let m = stored(&blocks.join(","));
    assert_eq!(m.content.len(), blocks.len());
    for block in &m.content {
        assert!(matches!(block, ContentBlock::Unknown { .. }), "{block:?}");
    }
    assert_eq!(written(&m), blocks.join(","));
}

#[test]
fn blocks_that_hold_no_more_than_their_kind_are_read() {
    let blocks = [
        r#"{"text":"x","type":"text"}"#,
        r#"{"id":"t1","input":{"any":[1,2]},"name":"Echo","type":"tool_use"}"#,
        r#"{"content":[{"text":"out","type":"text"},{"source":{"data":"AAAA","media_type":"image/png","type":"base64"},"type":"image"}],"is_error":true,"tool_use_id":"t1","type":"tool_result"}"#,
        r#"{"content":[],"tool_use_id":"t1","type":"tool_result"}"#,
        r#"{"signature":"s","thinking":"hm","type":"thinking"}"#,
        r#"{"thinking":"hm","type":"thinking"}"#,
        r#"{"source":{"data":"http://x","media_type":"image/png","type":"url"},"type":"image"}"#,
    ];
    let m = stored(&blocks.join(","));
    assert!(matches!(&m.content[0], ContentBlock::Text { text } if text == "x"));
    assert!(matches!(&m.content[1], ContentBlock::ToolUse { id, .. } if id == "t1"));
    assert!(matches!(&m.content[2], ContentBlock::ToolResult { is_error: Some(true), content, .. } if content.len() == 2));
    assert!(matches!(&m.content[3], ContentBlock::ToolResult { is_error: None, .. }));
    assert!(matches!(&m.content[4], ContentBlock::Thinking { signature: Some(_), .. }));
    assert!(matches!(&m.content[5], ContentBlock::Thinking { signature: None, .. }));
    assert!(matches!(&m.content[6], ContentBlock::Image { .. }));
    assert_eq!(written(&m), blocks.join(","));
}

#[test]
fn request_body_omits_what_is_not_set() {
    let bare = CreateMessageRequest {
        model: "test".to_string(),
        max_tokens: 4096,
        messages: vec![],
        system: None,
        tools: None,
        stop_sequences: None,
        temperature_tenths: None,
        thinking: None,
        stream: true,
    };
    let json = bare.to_json();
    assert_eq!(json.get_str("model"), Some("test"));
    assert_eq!(json.get("max_tokens").and_then(|n| n.as_u64()), Some(4096));
    assert!(matches!(json.get("messages"), Some(Json::Array(m)) if m.is_empty()));
    assert_eq!(json.get("stream").and_then(|b| b.as_bool()), Some(true));
    for absent in ["system", "tools", "stop_sequences", "temperature", "thinking"] {
        assert!(json.get(absent).is_none(), "{absent}");
    }
}

#[test]
fn request_body_with_thinking_and_system() {
    let request = CreateMessageRequest {
        model: "big-model".to_string(),
        max_tokens: 4096,
        messages: vec![sample_message()],
        system: Some(vec![SystemContent {
            content_type: "text".to_string(),
            text: "system".to_string(),
            cache_control: Some(CacheControl::ephemeral()),
        }]),
        tools: Some(vec![
            ToolDefinition {
                name: "Read".to_string(),
                description: "Read a file".to_string(),
                input_schema: Json::parse(r#"{"type":"object"}"#).unwrap(),
                cache_control: None,
            },
            ToolDefinition {
                name: "Grep".to_string(),
                description: "Search".to_string(),
                input_schema: Json::parse(r#"{"type":"object"}"#).unwrap(),
                cache_control: Some(CacheControl::ephemeral()),
            },
        ]),
        stop_sequences: Some(vec!["STOP".to_string()]),
        temperature_tenths: Some(10),
        thinking: Some(ThinkingConfig {
            thinking_type: "enabled".to_string(),
            budget_tokens: Some(5000),
        }),
        stream: true,
    };
    let json = request.to_json();
    match json.get("system") {
        Some(Json::Array(items)) => {
            assert_eq!(items[0].get_str("type"), Some("text"));
            assert_eq!(items[0].get_str("text"), Some("system"));
            assert_eq!(
                items[0].get("cache_control").and_then(|c| c.get_str("type")),
                Some("ephemeral")
            );
        }
        other => panic!("unexpected {other:?}"),
    }
    match json.get("tools") {
        Some(Json::Array(items)) => {
            assert_eq!(items.len(), 2);
            assert_eq!(items[0].get_str("name"), Some("Read"));
            assert!(items[0].get("cache_control").is_none());
            assert_eq!(
                items[0].get("input_schema").and_then(|c| c.get_str("type")),
                Some("object")
            );
            assert_eq!(
                items[1].get("cache_control").and_then(|c| c.get_str("type")),
                Some("ephemeral")
            );
        }
        other => panic!("unexpected {other:?}"),
    }
    let thinking = json.get("thinking").unwrap();
    assert_eq!(thinking.get_str("type"), Some("enabled"));
    assert_eq!(thinking.get("budget_tokens").and_then(|n| n.as_u64()), Some(5000));
    assert!(
        matches!(json.get("temperature"), Some(Json::Number(JsonNumber::Float(t))) if t == "1.0")
    );
    assert!(matches!(json.get("stop_sequences"), Some(Json::Array(s)) if s.len() == 1));
    assert!(matches!(json.get("messages"), Some(Json::Array(m)) if m.len() == 1));
}

#[test]
fn temperatures_in_tenths() {
    let text = |tenths| match temperature_to_json(tenths) {
        Json::Number(JsonNumber::Float(t)) => t,
        other => panic!("unexpected {other:?}"),
    };
    assert_eq!(text(10), "1.0");
    assert_eq!(text(7), "0.7");
    assert_eq!(text(0), "0.0");
    assert_eq!(text(125), "12.5");
}

#[test]
fn hook_input_is_written_with_the_fields_that_are_set() {
    let input = HookInput {
        event: HookEvent::WorktreeCreate,
        tool_name: None,
        tool_input: None,
        tool_output: None,
        is_error: None,
        worktree_path: Some("/tmp/worktree-abc".to_string()),
        worktree_source: Some("/home/user/repo".to_string()),
    };
    let json = input.to_json();
    assert_eq!(json.get_str("event"), Some("worktree_create"));
    assert_eq!(json.get_str("worktree_path"), Some("/tmp/worktree-abc"));
    assert_eq!(json.get_str("worktree_source"), Some("/home/user/repo"));
    assert!(json.get("tool_name").is_none());

    let input = HookInput {
        event: HookEvent::AfterTool,
        tool_name: Some("Read".to_string()),
        tool_input: Some(Json::parse(r#"{"file_path":"/tmp/x"}"#).unwrap()),
        tool_output: Some("contents".to_string()),
        is_error: Some(false),
        worktree_path: None,
        worktree_source: None,
    };
    let json = input.to_json();
    assert_eq!(json.get_str("event"), Some("after_tool"));
    assert_eq!(json.get_str("tool_name"), Some("Read"));
    assert_eq!(
        json.get("tool_input").and_then(|i| i.get_str("file_path")),
        Some("/tmp/x")
    );
    assert_eq!(json.get_str("tool_output"), Some("contents"));
    assert_eq!(json.get("is_error").and_then(|b| b.as_bool()), Some(false));
    assert!(json.get("worktree_path").is_none());
    assert!(json.get("worktree_source").is_none());
}

#[test]
fn hook_event_names() {
    let names: Vec<&str> = [
        HookEvent::BeforeTool,
        HookEvent::AfterTool,
        HookEvent::BeforeInput,
        HookEvent::OnExit,
        HookEvent::OnSessionStart,
        HookEvent::OnSessionEnd,
        HookEvent::WorktreeCreate,
        HookEvent::WorktreeRemove,
    ]
    .into_iter()
    .map(hook_event_name)
    .collect();
    assert_eq!(
        names,
        vec![
            "before_tool",
            "after_tool",
            "before_input",
            "on_exit",
            "on_session_start",
            "on_session_end",
            "worktree_create",
            "worktree_remove"
        ]
    );
}

#[test]
fn records_written_as_text_read_back() {
    let records: Vec<(Option<&str>, &str)> = vec![
        (Some("message_start"), r#"{"type":"message_start"}"#),
        (None, "no type"),
        (Some(""), ""),
        (Some("multi"), "line one\nline two\n\nline four\n"),
        (Some("a:b"), " leading space and : colon"),
        (Some("caf\u{e9}"), "\u{4e16}\u{754c}"),
    ];
    let mut text: Vec<u8> = Vec::new();
    for (event_type, data) in &records {
        text.extend(render_record(event_type.map(|t| t.as_bytes()), data.as_bytes()));
    }
    assert!(text.starts_with(b"event: message_start\ndata: {\"type\":\"message_start\"}\n\ndata: no type\n\n"));
    let mut parser = SseParser::new();
    let events = parser.feed_bytes(&text);
    assert_eq!(events.len(), records.len());
    for (event, (event_type, data)) in events.iter().zip(&records) {
        assert_eq!(event.event_type.as_deref(), *event_type);
        assert_eq!(event.data, *data);
    }
    assert!(parser.feed_bytes(b"").is_empty());

    // Parsing, writing and parsing again changes nothing.
    let mut rewritten: Vec<u8> = Vec::new();
    for event in &events {
        rewritten.extend(render_record(
            event.event_type.as_deref().map(|t| t.as_bytes()),
            event.data.as_bytes(),
        ));
    }
    assert_eq!(rewritten, text);
}

#[test]
fn a_carriage_return_at_the_end_of_a_line_does_not_read_back() {
    let text = render_record(Some(b"x\r"), b"y");
    let mut parser = SseParser::new();
    let events = parser.feed_bytes(&text);
    assert_eq!(events.len(), 1);
    assert_eq!(events[0].event_type.as_deref(), Some("x"));
    // But the parser itself keeps a carriage return that ends a block.
    let events = parser.feed("data: x\r\n\n");
    assert_eq!(events[0].data, "x\r");
    let events = parser.feed("data: x\r\ndata: y\n\n");
    assert_eq!(events[0].data, "x\ny");
}
