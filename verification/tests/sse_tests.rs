use chet::sse::SseParser;

#[test]
fn test_simple_event() {
    let mut parser = SseParser::new();
    let events = parser.feed("event: message_start\ndata: {\"type\":\"message_start\"}\n\n");
    assert_eq!(events.len(), 1);
    assert_eq!(events[0].event_type.as_deref(), Some("message_start"));
    assert_eq!(events[0].data, "{\"type\":\"message_start\"}");
}

#[test]
fn test_multiple_events() {
    let mut parser = SseParser::new();
    let events = parser.feed(
        "event: ping\ndata: {}\n\nevent: message_start\ndata: {\"type\":\"message_start\"}\n\n",
    );
    assert_eq!(events.len(), 2);
    assert_eq!(events[0].event_type.as_deref(), Some("ping"));
    assert_eq!(events[1].event_type.as_deref(), Some("message_start"));
}

#[test]
fn test_partial_event() {
    let mut parser = SseParser::new();
    let events = parser.feed("event: ping\n");
    assert_eq!(events.len(), 0);
    let events = parser.feed("data: {}\n\n");
    assert_eq!(events.len(), 1);
    assert_eq!(events[0].event_type.as_deref(), Some("ping"));
}

#[test]
fn test_comment_lines_ignored() {
    let mut parser = SseParser::new();
    let events = parser.feed(": comment\nevent: ping\ndata: {}\n\n");
    assert_eq!(events.len(), 1);
    assert_eq!(events[0].event_type.as_deref(), Some("ping"));
}

#[test]
fn test_data_with_leading_space() {
    let mut parser = SseParser::new();
    let events = parser.feed("data: hello world\n\n");
    assert_eq!(events.len(), 1);
    assert_eq!(events[0].data, "hello world");
}
