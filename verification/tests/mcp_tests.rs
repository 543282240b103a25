use chet::json::Json;
use chet::mcp::{
    default_timeout, interpret_call, interpret_tools_list, make_call_params,
    make_initialize_params, namespaced_name, read_call_result, read_tools_list, to_tool_output,
    tool_definition, tool_description, JsonRpcNotification, JsonRpcRequest, JsonRpcResponse,
    McpConfig, McpError, McpServerConfig, McpToolContent, McpToolInfo, McpToolResult,
    PROTOCOL_VERSION,
};
use chet::message::ImageSourceType;
use chet::tool::ToolOutputContent;

fn json(text: &str) -> Json {
    Json::parse(text).expect("test input is well-formed JSON")
}

fn response(text: &str) -> JsonRpcResponse {
    JsonRpcResponse::from_json(&json(text)).expect("test input is an answer")
}

#[test]
fn serialize_request_with_params() {
    let req = JsonRpcRequest::new(
        1,
        "tools/call",
        Some(json(r#"{"name": "read", "arguments": {}}"#)),
    );
    let json = req.to_json();
    assert_eq!(json.get_str("jsonrpc"), Some("2.0"));
    assert_eq!(json.get("id").and_then(|i| i.as_u64()), Some(1));
    assert_eq!(json.get_str("method"), Some("tools/call"));
    assert!(matches!(json.get("params"), Some(Json::Object(_))));
}

#[test]
fn serialize_request_without_params() {
    let req = JsonRpcRequest::new(2, "tools/list", None);
    let json = req.to_json();
    assert_eq!(json.get("id").and_then(|i| i.as_u64()), Some(2));
    assert_eq!(json.get_str("method"), Some("tools/list"));
    assert!(json.get("params").is_none());
}

#[test]
fn deserialize_response_with_result() {
    let resp = response(r#"{"jsonrpc":"2.0","id":1,"result":{"tools":[]}}"#);
    assert_eq!(resp.id, Some(1));
    assert!(resp.result.is_some());
    assert!(resp.error.is_none());
}

#[test]
fn deserialize_response_with_error() {
    let resp =
        response(r#"{"jsonrpc":"2.0","id":1,"error":{"code":-32601,"message":"Method not found"}}"#);
    assert_eq!(resp.id, Some(1));
    assert!(resp.result.is_none());
    let err = resp.error.unwrap();
    assert_eq!(err.code, -32601);
    assert_eq!(err.message, "Method not found");
    assert!(err.data.is_none());
}

#[test]
fn deserialize_response_with_error_data() {
    let resp = response(
        r#"{"jsonrpc":"2.0","id":1,"error":{"code":-32600,"message":"Invalid","data":"extra info"}}"#,
    );
    let err = resp.error.unwrap();
    assert_eq!(err.data.unwrap().as_str(), Some("extra info"));
}

#[test]
fn responses_that_are_malformed_are_refused() {
    for text in [
        "[]",
        r#"{"id":"one"}"#,
        r#"{"id":-1}"#,
        r#"{"id":1,"error":"broken"}"#,
        r#"{"id":1,"error":{"code":"x","message":"m"}}"#,
        r#"{"id":1,"error":{"code":1}}"#,
        r#"{"id":1,"error":{"code":1.5,"message":"m"}}"#,
    ] {
        assert!(JsonRpcResponse::from_json(&json(text)).is_none(), "{text}");
    }
    let bare = response("{}");
    assert_eq!(bare.id, None);
    assert!(bare.result.is_none() && bare.error.is_none());
    let nulls = response(r#"{"id":null,"result":null,"error":null}"#);
    assert_eq!(nulls.id, None);
    assert!(nulls.result.is_none() && nulls.error.is_none());
}

#[test]
fn serialize_notification() {
    let notif = JsonRpcNotification::new("notifications/initialized", Some(json("{}")));
    let json = notif.to_json();
    assert_eq!(json.get_str("jsonrpc"), Some("2.0"));
    assert_eq!(json.get_str("method"), Some("notifications/initialized"));
    assert!(json.get("id").is_none());
}

#[test]
fn serialize_notification_without_params() {
    let notif = JsonRpcNotification::new("notifications/initialized", None);
    let json = notif.to_json();
    assert!(json.get("params").is_none());
}

#[test]
fn request_roundtrip() {
    let req = JsonRpcRequest::new(42, "test/method", Some(json(r#"{"key": "val"}"#)));
    let parsed = req.to_json();
    assert_eq!(parsed.get("id").and_then(|i| i.as_u64()), Some(42));
    assert_eq!(parsed.get_str("method"), Some("test/method"));
    assert_eq!(
        parsed.get("params").and_then(|p| p.get_str("key")),
        Some("val")
    );
}

#[test]
fn deserialize_tool_entry() {
    let list = json(
        r#"{"tools":[{
            "name": "read_file",
            "description": "Read a file",
            "inputSchema": {
                "type": "object",
                "properties": {
                    "path": {"type": "string"}
                },
                "required": ["path"]
            }
        }]}"#,
    );
    let tools = read_tools_list(&list).unwrap();
    assert_eq!(tools[0].name, "read_file");
    assert_eq!(tools[0].description, "Read a file");
    assert!(tools[0].input_schema.get("required").is_some());
}

#[test]
fn deserialize_tool_entry_without_description() {
    let list = json(r#"{"tools":[{"name": "list", "inputSchema": {"type": "object"}}]}"#);
    let tools = read_tools_list(&list).unwrap();
    assert_eq!(tools[0].name, "list");
    assert_eq!(tools[0].description, "");
}

#[test]
fn deserialize_tool_call_result_text() {
    let result = read_call_result(&json(
        r#"{
            "content": [{"type": "text", "text": "file contents here"}],
            "isError": false
        }"#,
    ))
    .unwrap();
    assert_eq!(result.content.len(), 1);
    assert!(!result.is_error);
    match &result.content[0] {
        McpToolContent::Text { text } => assert_eq!(text, "file contents here"),
        _ => panic!("Expected text content"),
    }
}

#[test]
fn deserialize_tool_call_result_error() {
    let result = read_call_result(&json(
        r#"{
            "content": [{"type": "text", "text": "not found"}],
            "isError": true
        }"#,
    ))
    .unwrap();
    assert!(result.is_error);
}

#[test]
fn deserialize_tool_call_result_image() {
    let result = read_call_result(&json(
        r#"{
            "content": [{"type": "image", "data": "base64data", "mimeType": "image/png"}],
            "isError": false
        }"#,
    ))
    .unwrap();
    match &result.content[0] {
        McpToolContent::Image { data, mime_type } => {
            assert_eq!(data, "base64data");
            assert_eq!(mime_type, "image/png");
        }
        _ => panic!("Expected image content"),
    }
}

#[test]
fn deserialize_tools_list_result() {
    let tools = read_tools_list(&json(
        r#"{
            "tools": [
                {"name": "a", "description": "Tool A", "inputSchema": {"type": "object"}},
                {"name": "b", "inputSchema": {"type": "object"}}
            ]
        }"#,
    ))
    .unwrap();
    assert_eq!(tools.len(), 2);
    assert_eq!(tools[0].name, "a");
    assert_eq!(tools[1].description, "");
}

#[test]
fn tool_lists_and_results_that_are_malformed_are_refused() {
    assert!(read_tools_list(&json("{}")).is_none());
    assert!(read_tools_list(&json(r#"{"tools":{}}"#)).is_none());
    assert!(read_tools_list(&json(r#"{"tools":[{"description":"nameless"}]}"#)).is_none());
    assert!(read_tools_list(&json(r#"{"tools":[{"name":"a","description":5}]}"#)).is_none());
    let defaulted = read_tools_list(&json(r#"{"tools":[{"name":"a","description":null}]}"#)).unwrap();
    assert_eq!(defaulted[0].input_schema.get_str("type"), Some("object"));
    assert!(matches!(
        defaulted[0].input_schema.get("properties"),
        Some(Json::Object(p)) if p.is_empty()
    ));
    assert!(read_call_result(&json("{}")).is_none());
    assert!(read_call_result(&json(r#"{"content":[{"type":"audio"}]}"#)).is_none());
    assert!(read_call_result(&json(r#"{"content":[],"isError":null}"#)).is_none());
    assert!(read_call_result(&json(r#"{"content":[{"type":"image","data":"x"}]}"#)).is_none());
    let plain = read_call_result(&json(r#"{"content":[]}"#)).unwrap();
    assert!(plain.content.is_empty() && !plain.is_error);
}

#[test]
fn answers_are_interpreted() {
    match interpret_call("fs", response(r#"{"id":1,"error":{"code":-5,"message":"boom"}}"#)) {
        Err(McpError::JsonRpc {
            server,
            code,
            message,
        }) => {
            assert_eq!((server.as_str(), code, message.as_str()), ("fs", -5, "boom"));
        }
        other => panic!("unexpected {other:?}"),
    }
    match interpret_call("fs", response(r#"{"id":1}"#)) {
        Err(McpError::Protocol(message)) => {
            assert_eq!(message, "tools/call response has neither result nor error")
        }
        other => panic!("unexpected {other:?}"),
    }
    match interpret_call("fs", response(r#"{"id":1,"result":{"content":7}}"#)) {
        Err(McpError::Protocol(message)) => {
            assert_eq!(message, "Failed to parse tools/call result")
        }
        other => panic!("unexpected {other:?}"),
    }
    let ok = interpret_call(
        "fs",
        response(r#"{"id":1,"result":{"content":[{"type":"text","text":"hi"}]}}"#),
    )
    .unwrap();
    assert_eq!(ok.content.len(), 1);

    assert!(interpret_tools_list("fs", response(r#"{"id":2}"#))
        .unwrap()
        .is_empty());
    assert!(matches!(
        interpret_tools_list("fs", response(r#"{"id":2,"error":{"code":1,"message":"no"}}"#)),
        Err(McpError::JsonRpc { .. })
    ));
    assert!(matches!(
        interpret_tools_list("fs", response(r#"{"id":2,"result":{"tools":3}}"#)),
        Err(McpError::Protocol(m)) if m == "Failed to parse tools/list response"
    ));
    let tools = interpret_tools_list(
        "fs",
        response(r#"{"id":2,"result":{"tools":[{"name":"a"}]},"error":{"code":1,"message":"ignored"}}"#),
    )
    .unwrap();
    assert_eq!(tools.len(), 1);
}

#[test]
fn default_config_is_empty() {
    let config = McpConfig::default();
    assert!(config.servers.is_empty());
}

#[test]
fn server_configuration_defaults() {
    assert_eq!(default_timeout(), 30000);
    let server = McpServerConfig {
        command: "npx".to_string(),
        args: vec!["-y".to_string()],
        env: vec![("TOKEN".to_string(), "SECRET-REDACTED".to_string())],
        timeout_ms: default_timeout(),
    };
    assert_eq!(server.timeout_ms, 30000);
    assert_eq!(PROTOCOL_VERSION, "2024-11-05");
}

#[test]
fn namespaced_name_format() {
    let name = namespaced_name("filesystem", "read_file");
    assert_eq!(name, "mcp__filesystem__read_file");
}

#[test]
fn definition_includes_server_prefix() {
    let desc = tool_description("github", "List repositories");
    assert!(desc.starts_with("[MCP: github]"));
    assert!(desc.contains("List repositories"));
    let info = McpToolInfo {
        name: "list".to_string(),
        description: "List repositories".to_string(),
        input_schema: json(r#"{"type":"object"}"#),
    };
    let definition = tool_definition("github", &info);
    assert_eq!(definition.name, "mcp__github__list");
    assert_eq!(definition.description, "[MCP: github] List repositories");
    assert_eq!(definition.input_schema.get_str("type"), Some("object"));
    assert!(definition.cache_control.is_none());
}

#[test]
fn tool_results_become_tool_output() {
    let out = to_tool_output(McpToolResult {
        content: vec![
            McpToolContent::Text {
                text: "hello".to_string(),
            },
            McpToolContent::Image {
                data: "AAAA".to_string(),
                mime_type: "image/png".to_string(),
            },
        ],
        is_error: true,
    });
    assert!(out.is_error);
    assert!(matches!(&out.content[0], ToolOutputContent::Text { text } if text == "hello"));
    match &out.content[1] {
        ToolOutputContent::Image { source } => {
            assert_eq!(source.source_type, ImageSourceType::Base64);
            assert_eq!(source.media_type, "image/png");
            assert_eq!(source.data, "AAAA");
        }
        other => panic!("unexpected {other:?}"),
    }
}

#[test]
fn protocol_parameters() {
    let params = make_call_params("read_file", json(r#"{"path":"/x"}"#));
    assert_eq!(params.get_str("name"), Some("read_file"));
    assert_eq!(
        params.get("arguments").and_then(|a| a.get_str("path")),
        Some("/x")
    );
    let init = make_initialize_params("chet", "0.1.0");
    assert_eq!(init.get_str("protocolVersion"), Some("2024-11-05"));
    assert!(matches!(init.get("capabilities"), Some(Json::Object(c)) if c.is_empty()));
    assert_eq!(
        init.get("clientInfo").and_then(|c| c.get_str("name")),
        Some("chet")
    );
    assert_eq!(
        init.get("clientInfo").and_then(|c| c.get_str("version")),
        Some("0.1.0")
    );
}

#[test]
fn server_error_texts() {
    assert_eq!(
        McpError::JsonRpc {
            server: "fs".to_string(),
            code: -32601,
            message: "Method not found".to_string()
        }
        .to_string(),
        "JSON-RPC error from 'fs' (code -32601): Method not found"
    );
    assert_eq!(
        McpError::Timeout {
            name: "fs".to_string(),
            timeout_ms: 30000
        }
        .to_string(),
        "MCP server 'fs' timed out after 30000ms"
    );
    assert_eq!(
        McpError::ServerNotRunning {
            name: "fs".to_string()
        }
        .to_string(),
        "MCP server 'fs' is not running"
    );
    assert_eq!(
        McpError::SpawnFailed {
            name: "fs".to_string(),
            source: "not found".to_string()
        }
        .to_string(),
        "Failed to spawn MCP server 'fs': not found"
    );
    assert_eq!(
        McpError::Protocol("bad".to_string()).to_string(),
        "MCP protocol error: bad"
    );
}
