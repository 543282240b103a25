use chet::error::ApiError;
use chet::json::{Json, JsonNumber};
use chet::message::{
    ContentBlock, ContentDelta, ImageSourceType, Role, StopReason, StreamEvent, ToolResultContent,
    Usage,
};
use chet::sse::SseParser;
use chet::stream::{parse_stream_event, read_content_block, MessageStream};

fn drain(stream: &mut MessageStream) -> Vec<Result<StreamEvent, ApiError>> {
    let mut out = Vec::new();
    while let Some(item) = stream.next_event() {
        out.push(item);
    }
    out
}

fn stream_from_chunks(chunks: Vec<&str>) -> Vec<Result<StreamEvent, ApiError>> {
    let mut stream = MessageStream::new();
    let mut out = Vec::new();
    for chunk in chunks {
        stream.push_chunk(chunk.as_bytes());
        out.extend(drain(&mut stream));
    }
    assert!(stream.is_idle());
    out
}

#[test]
fn test_single_event_per_chunk() {
    let events = stream_from_chunks(vec!["event: ping\ndata: {}\n\n"]);
    assert_eq!(events.len(), 1);
    assert!(matches!(events[0], Ok(StreamEvent::Ping)));
}

#[test]
fn test_multiple_events_in_one_chunk() {
    let events =
        stream_from_chunks(vec!["event: ping\ndata: {}\n\nevent: message_stop\ndata: {}\n\n"]);
    assert_eq!(events.len(), 2);
    assert!(matches!(events[0], Ok(StreamEvent::Ping)));
    assert!(matches!(events[1], Ok(StreamEvent::MessageStop)));
}

#[test]
fn test_event_split_across_chunks() {
    let events = stream_from_chunks(vec!["event: ping\n", "data: {}\n\n"]);
    assert_eq!(events.len(), 1);
    assert!(matches!(events[0], Ok(StreamEvent::Ping)));
}

#[test]
fn test_content_block_delta_text() {
    let data = r#"{"index":0,"delta":{"type":"text_delta","text":"Hello"}}"#;
    let events = stream_from_chunks(vec![&format!(
        "event: content_block_delta\ndata: {data}\n\n"
    )]);
    match &events[0] {
        Ok(StreamEvent::ContentBlockDelta {
            index,
            delta: ContentDelta::TextDelta { text },
        }) => {
            assert_eq!(*index, 0);
            assert_eq!(text, "Hello");
        }
        other => panic!("Expected ContentBlockDelta, got {other:?}"),
    }
}

#[test]
fn test_three_events_in_one_chunk() {
    let events = stream_from_chunks(vec![
        "event: ping\ndata: {}\n\nevent: ping\ndata: {}\n\nevent: message_stop\ndata: {}\n\n",
    ]);
    assert_eq!(events.len(), 3);
    assert!(matches!(events[0], Ok(StreamEvent::Ping)));
    assert!(matches!(events[1], Ok(StreamEvent::Ping)));
    assert!(matches!(events[2], Ok(StreamEvent::MessageStop)));
}

#[test]
fn ping_then_stop_with_a_leading_space() {
    // The second record starts with a space, so its first field is not
    // `event`: the record has data but no type and stands for no event.
    let mut parser = SseParser::new();
    let records = parser.feed("event: ping\ndata: {}\n\n event: message_stop\ndata: {}\n\n");
    assert_eq!(records.len(), 2);
    assert_eq!(records[0].event_type.as_deref(), Some("ping"));
    assert_eq!(records[1].event_type, None);
    let events = stream_from_chunks(vec![
        "event: ping\ndata: {}\n\nevent: message_stop\ndata: {}\n\n",
    ]);
    assert!(matches!(events[0], Ok(StreamEvent::Ping)));
    assert!(matches!(events[1], Ok(StreamEvent::MessageStop)));
}

#[test]
fn chunking_does_not_change_the_events() {
    let text = concat_stream();
    let whole = describe(stream_from_chunks(vec![&text]));
    assert_eq!(whole.len(), 7);
    let bytes = text.as_bytes();
    for cut in 0..=bytes.len() {
        let mut stream = MessageStream::new();
        let mut seen = Vec::new();
        stream.push_chunk(&bytes[..cut]);
        seen.extend(drain(&mut stream));
        stream.push_chunk(&bytes[cut..]);
        seen.extend(drain(&mut stream));
        assert_eq!(describe(seen), whole, "cut at {cut}");
    }
    let mut stream = MessageStream::new();
    let mut seen = Vec::new();
    for b in bytes {
        stream.push_chunk(&[*b]);
        seen.extend(drain(&mut stream));
    }
    assert_eq!(describe(seen), whole);
}

fn describe(items: Vec<Result<StreamEvent, ApiError>>) -> Vec<String> {
    items.iter().map(|i| format!("{i:?}")).collect()
}

fn concat_stream() -> String {
    let mut s = String::new();
    s.push_str("event: message_start\ndata: {\"message\":{\"id\":\"m1\",\"type\":\"message\",\"role\":\"assistant\",\"content\":[],\"model\":\"x\",\"stop_reason\":null,\"usage\":{\"input_tokens\":3}}}\n\n");
    s.push_str("event: content_block_start\ndata: {\"index\":0,\"content_block\":{\"type\":\"text\",\"text\":\"\"}}\n\n");
    s.push_str("event: content_block_delta\ndata: {\"index\":0,\"delta\":{\"type\":\"text_delta\",\"text\":\"H\u{e9}llo \u{1F600}\"}}\n\n");
    s.push_str(": keep-alive\n\n");
    s.push_str("event: content_block_stop\ndata: {\"index\":0}\n\n");
    s.push_str("event: message_delta\ndata: {\"delta\":{\"stop_reason\":\"end_turn\"},\"usage\":{\"output_tokens\":5}}\n\n");
    s.push_str("event: unknown_kind\ndata: {}\n\n");
    s.push_str("event: message_stop\ndata: {}\n\n");
    s.push_str("event: error\ndata: {\"error\":{\"type\":\"overloaded_error\",\"message\":\"busy\"}}\n\n");
    s.push_str("event: ping\ndata: trailing");
    s
}

#[test]
fn multi_byte_characters_survive_a_cut() {
    let text = "event: content_block_delta\ndata: {\"index\":2,\"delta\":{\"type\":\"text_delta\",\"text\":\"\u{4e16}\u{754c}\"}}\n\n";
    let bytes = text.as_bytes();
    let cut = text.find('\u{754c}').unwrap() + 1;
    let mut stream = MessageStream::new();
    stream.push_chunk(&bytes[..cut]);
    assert!(stream.is_idle());
    stream.push_chunk(&bytes[cut..]);
    match stream.next_event() {
        Some(Ok(StreamEvent::ContentBlockDelta {
            index: 2,
            delta: ContentDelta::TextDelta { text },
        })) => assert_eq!(text, "\u{4e16}\u{754c}"),
        other => panic!("unexpected {other:?}"),
    }
}

#[test]
fn message_start_is_decoded_in_full() {
    let data = r#"{"type":"message_start","message":{"id":"msg_1","type":"message","role":"assistant","content":[{"type":"text","text":"hi"},{"type":"tool_use","id":"t1","name":"Echo","input":{"msg":"hi","n":[1,-2,1.5,true,null]}}],"model":"big-model","stop_reason":"tool_use","stop_sequence":null,"usage":{"input_tokens":10,"output_tokens":2,"cache_read_input_tokens":7}}}"#;
    let event = parse_stream_event(&Some("message_start".to_string()), data)
        .unwrap()
        .unwrap();
    match event {
        StreamEvent::MessageStart { message } => {
            assert_eq!(message.id, "msg_1");
            assert_eq!(message.response_type, "message");
            assert_eq!(message.role, Role::Assistant);
            assert_eq!(message.model, "big-model");
            assert_eq!(message.stop_reason, Some(StopReason::ToolUse));
            assert_eq!(
                message.usage,
                Usage {
                    input_tokens: 10,
                    output_tokens: 2,
                    cache_creation_input_tokens: 0,
                    cache_read_input_tokens: 7
                }
            );
            assert_eq!(message.content.len(), 2);
            match &message.content[1] {
                ContentBlock::ToolUse { id, name, input } => {
                    assert_eq!(id, "t1");
                    assert_eq!(name, "Echo");
                    assert_eq!(input.get_str("msg"), Some("hi"));
                    match input.get("n") {
                        Some(Json::Array(items)) => {
                            assert_eq!(items.len(), 5);
                            assert_eq!(items[0].as_u64(), Some(1));
                            assert!(matches!(items[1], Json::Number(JsonNumber::NegInt(-2))));
                            assert!(
                                matches!(&items[2], Json::Number(JsonNumber::Float(t)) if t == "1.5")
                            );
                            assert_eq!(items[3].as_bool(), Some(true));
                            assert!(items[4].is_null());
                        }
                        other => panic!("unexpected {other:?}"),
                    }
                }
                other => panic!("unexpected {other:?}"),
            }
        }
        other => panic!("unexpected {other:?}"),
    }
}

#[test]
fn every_kind_of_block_and_delta() {
    let block = |text: &str| read_content_block(&Json::parse(text).unwrap());
    assert!(matches!(
        block(r#"{"type":"thinking","thinking":"hm","signature":"sig"}"#),
        Some(ContentBlock::Thinking { thinking, signature: Some(s) }) if thinking == "hm" && s == "sig"
    ));
    assert!(matches!(
        block(r#"{"type":"thinking","thinking":"hm","signature":null}"#),
        Some(ContentBlock::Thinking { signature: None, .. })
    ));
    assert!(matches!(
        block(r#"{"type":"thinking","thinking":"hm"}"#),
        Some(ContentBlock::Thinking { signature: None, .. })
    ));
    assert!(block(r#"{"type":"thinking","thinking":"hm","signature":5}"#).is_none());
    match block(
        r#"{"type":"tool_result","tool_use_id":"t1","is_error":true,"content":[{"type":"text","text":"out"},{"type":"image","source":{"type":"base64","media_type":"image/png","data":"AAAA"}}]}"#,
    ) {
        Some(ContentBlock::ToolResult {
            tool_use_id,
            content,
            is_error,
        }) => {
            assert_eq!(tool_use_id, "t1");
            assert_eq!(is_error, Some(true));
            assert_eq!(content.len(), 2);
            assert!(matches!(&content[0], ToolResultContent::Text { text } if text == "out"));
            match &content[1] {
                ToolResultContent::Image { source } => {
                    assert_eq!(source.source_type, ImageSourceType::Base64);
                    assert_eq!(source.media_type, "image/png");
                    assert_eq!(source.data, "AAAA");
                }
                other => panic!("unexpected {other:?}"),
            }
        }
        other => panic!("unexpected {other:?}"),
    }
    assert!(matches!(
        block(r#"{"type":"image","source":{"type":"url","media_type":"image/png","data":"http://x"}}"#),
        Some(ContentBlock::Image { .. })
    ));
    assert!(block(r#"{"type":"tool_use","id":"t1","name":"Echo"}"#).is_none());
    // A block of a type that the protocol does not know is kept whole.
    match block(r#"{"type":"audio","data":"AAAA","rate":8000}"#) {
        Some(ContentBlock::Unknown { value }) => {
            assert_eq!(value.to_text(), r#"{"data":"AAAA","rate":8000,"type":"audio"}"#)
        }
        other => panic!("unexpected {other:?}"),
    }
    assert!(block(r#"{"text":"untagged"}"#).is_none());
    assert!(block(r#"[1,2]"#).is_none());

    let delta = |text: &str| {
        parse_stream_event(
            &Some("content_block_delta".to_string()),
            &format!(r#"{{"index":1,"delta":{text}}}"#),
        )
    };
    assert!(matches!(
        delta(r#"{"type":"input_json_delta","partial_json":"{\"a\":"}"#),
        Ok(Some(StreamEvent::ContentBlockDelta { index: 1, delta: ContentDelta::InputJsonDelta { partial_json } })) if partial_json == "{\"a\":"
    ));
    assert!(matches!(
        delta(r#"{"type":"thinking_delta","thinking":"..."}"#),
        Ok(Some(StreamEvent::ContentBlockDelta {
            delta: ContentDelta::ThinkingDelta { .. },
            ..
        }))
    ));
    assert!(matches!(
        delta(r#"{"type":"signature_delta","signature":"s"}"#),
        Ok(Some(StreamEvent::ContentBlockDelta {
            delta: ContentDelta::SignatureDelta { .. },
            ..
        }))
    ));
    assert!(delta(r#"{"type":"other_delta"}"#).is_err());
}

#[test]
fn malformed_data_is_a_stream_parse_error() {
    for (kind, data) in [
        ("message_start", "{"),
        ("message_start", "{}"),
        ("content_block_start", r#"{"index":-1,"content_block":{"type":"text","text":""}}"#),
        ("content_block_stop", r#"{"index":1.5}"#),
        ("content_block_stop", r#"{"index":"0"}"#),
        ("message_delta", r#"{"usage":{}}"#),
        ("message_delta", r#"{"delta":{"stop_reason":"tired"}}"#),
        ("message_delta", r#"{"delta":{},"usage":{"input_tokens":-1}}"#),
        ("error", r#"{"error":{"type":"x"}}"#),
    ] {
        match parse_stream_event(&Some(kind.to_string()), data) {
            Err(ApiError::StreamParse(message)) => {
                assert_eq!(message, format!("{kind}: malformed event data"))
            }
            other => panic!("{kind} {data}: unexpected {other:?}"),
        }
    }
    let mut stream = MessageStream::new();
    stream.push_chunk(b"event: message_start\ndata: nonsense\n\nevent: ping\ndata: {}\n\n");
    assert!(matches!(stream.next_event(), Some(Err(ApiError::StreamParse(_)))));
    assert!(matches!(stream.next_event(), Some(Ok(StreamEvent::Ping))));
    assert!(stream.next_event().is_none());
}

#[test]
fn records_without_type_or_of_unknown_type_give_no_event() {
    assert!(matches!(parse_stream_event(&None, "{}"), Ok(None)));
    assert!(matches!(
        parse_stream_event(&Some("future_event".to_string()), "not json"),
        Ok(None)
    ));
    assert!(matches!(
        parse_stream_event(&Some("ping".to_string()), "not json"),
        Ok(Some(StreamEvent::Ping))
    ));
    assert!(matches!(
        parse_stream_event(&Some("message_delta".to_string()), r#"{"delta":{}}"#),
        Ok(Some(StreamEvent::MessageDelta { usage: None, .. }))
    ));
}
