//! The protocol of tool servers: their configuration, the framing of
//! requests, and the reading of answers.
//!
//! Starting a server and passing lines to and from it is the caller's
//! part.

use crate::json::{lemma_array_view, member_views, Json, JsonNumber, JsonNumberView, JsonView};
use crate::message::{
    ImageSource, ImageSourceType, ImageSourceView, ToolDefinition, ToolDefinitionView,
};
use crate::stream::present;
use crate::text::{decimal, i64_to_string, join2, join3, join4, signed_decimal, u64_to_string};
use crate::tool::{ToolOutput, ToolOutputContent, ToolOutputContentView};
use vstd::prelude::*;
use vstd::string::*;

verus! {

/// The version of the protocol that is spoken.
pub const PROTOCOL_VERSION: &'static str = "2024-11-05";

/// The time that a server may take to answer where its configuration
/// names none, in milliseconds.
pub fn default_timeout() -> (t: u64)
    ensures
        t == 30000,
{
    30000
}

/// The configuration of one server: the command that starts it, its
/// arguments, its environment as names and values, and the time it may
/// take to answer.
#[derive(Debug, Clone)]
pub struct McpServerConfig {
    pub command: String,
    pub args: Vec<String>,
    pub env: Vec<(String, String)>,
    pub timeout_ms: u64,
}

/// The configured servers, by name.
#[derive(Debug, Clone)]
pub struct McpConfig {
    pub servers: Vec<(String, McpServerConfig)>,
}

impl Default for McpConfig {
    fn default() -> (c: Self)
        ensures
            c.servers@.len() == 0,
    {
        McpConfig { servers: Vec::new() }
    }
}

/// A tool that a server offers.
#[derive(Debug, Clone)]
pub struct McpToolInfo {
    pub name: String,
    pub description: String,
    pub input_schema: Json,
}

pub struct McpToolInfoView {
    pub name: Seq<char>,
    pub description: Seq<char>,
    pub input_schema: JsonView,
}

impl View for McpToolInfo {
    type V = McpToolInfoView;

    open spec fn view(&self) -> McpToolInfoView {
        McpToolInfoView {
            name: self.name@,
            description: self.description@,
            input_schema: self.input_schema@,
        }
    }
}

/// One item of what a tool of a server hands back.
#[derive(Debug, Clone)]
pub enum McpToolContent {
    Text { text: String },
    Image { data: String, mime_type: String },
}

pub enum McpToolContentView {
    Text { text: Seq<char> },
    Image { data: Seq<char>, mime_type: Seq<char> },
}

impl View for McpToolContent {
    type V = McpToolContentView;

    open spec fn view(&self) -> McpToolContentView {
        match self {
            McpToolContent::Text { text } => McpToolContentView::Text { text: text@ },
            McpToolContent::Image { data, mime_type } => McpToolContentView::Image {
                data: data@,
                mime_type: mime_type@,
            },
        }
    }
}

/// What a tool of a server hands back.
#[derive(Debug, Clone)]
pub struct McpToolResult {
    pub content: Vec<McpToolContent>,
    pub is_error: bool,
}

/// The views of a run of items.
pub open spec fn content_views(items: Seq<McpToolContent>) -> Seq<McpToolContentView> {
    items.map_values(|c: McpToolContent| c@)
}

/// The views of a list of tools.
pub open spec fn tool_views(tools: Seq<McpToolInfo>) -> Seq<McpToolInfoView> {
    tools.map_values(|t: McpToolInfo| t@)
}

/// What can go wrong with a server.
#[derive(Debug, Clone)]
pub enum McpError {
    SpawnFailed { name: String, source: String },
    ServerNotRunning { name: String },
    JsonRpc { server: String, code: i64, message: String },
    Protocol(String),
    Timeout { name: String, timeout_ms: u64 },
    Io(String),
    Json(String),
}

/// The text that an error shows.
pub open spec fn mcp_error_text(e: McpError) -> Seq<char> {
    match e {
        McpError::SpawnFailed { name, source } => "Failed to spawn MCP server '"@ + name@
            + "': "@ + source@,
        McpError::ServerNotRunning { name } => "MCP server '"@ + name@ + "' is not running"@,
        McpError::JsonRpc { server, code, message } => "JSON-RPC error from '"@ + server@
            + "' (code "@ + signed_decimal(code as int) + "): "@ + message@,
        McpError::Protocol(m) => "MCP protocol error: "@ + m@,
        McpError::Timeout { name, timeout_ms } => "MCP server '"@ + name@ + "' timed out after "@
            + decimal(timeout_ms as nat) + "ms"@,
        McpError::Io(m) => "I/O error: "@ + m@,
        McpError::Json(m) => "JSON error: "@ + m@,
    }
}

impl McpError {
    /// The text that the error shows.
    pub fn to_string(&self) -> (r: String)
        ensures
            r@ == mcp_error_text(*self),
    {
        match self {
            McpError::SpawnFailed { name, source } => join4(
                "Failed to spawn MCP server '",
                name.as_str(),
                "': ",
                source.as_str(),
            ),
            McpError::ServerNotRunning { name } => join3(
                "MCP server '",
                name.as_str(),
                "' is not running",
            ),
            McpError::JsonRpc { server, code, message } => {
                let head = join4(
                    "JSON-RPC error from '",
                    server.as_str(),
                    "' (code ",
                    i64_to_string(*code).as_str(),
                );
                join3(head.as_str(), "): ", message.as_str())
            },
            McpError::Protocol(m) => join2("MCP protocol error: ", m.as_str()),
            McpError::Timeout { name, timeout_ms } => {
                let head = join3("MCP server '", name.as_str(), "' timed out after ");
                join3(head.as_str(), u64_to_string(*timeout_ms).as_str(), "ms")
            },
            McpError::Io(m) => join2("I/O error: ", m.as_str()),
            McpError::Json(m) => join2("JSON error: ", m.as_str()),
        }
    }
}

/// The members that an optional member adds to an object.
pub open spec fn optional(key: Seq<char>, value: Option<JsonView>) -> Seq<(Seq<char>, JsonView)> {
    match value {
        Some(v) => seq![(key, v)],
        None => Seq::empty(),
    }
}

/// The view of an optional JSON value.
pub open spec fn opt_view(o: Option<Json>) -> Option<JsonView> {
    match o {
        Some(j) => Some(j@),
        None => None,
    }
}

/// A request: the version of the framing, which is `2.0`, the id under
/// which the answer comes back, the method, and its parameters where it
/// has any.
pub open spec fn request_frame(
    version: Seq<char>,
    id: u64,
    method: Seq<char>,
    params: Option<JsonView>,
) -> JsonView {
    JsonView::Object(
        seq![
            ("jsonrpc"@, JsonView::String(version)),
            ("id"@, JsonView::Number(JsonNumberView::PosInt(id))),
            ("method"@, JsonView::String(method)),
        ] + optional("params"@, params),
    )
}

/// A notification: like a request, but without an id, for no answer comes
/// back.
pub open spec fn notification_frame(
    version: Seq<char>,
    method: Seq<char>,
    params: Option<JsonView>,
) -> JsonView {
    JsonView::Object(
        seq![("jsonrpc"@, JsonView::String(version)), ("method"@, JsonView::String(method))]
            + optional("params"@, params),
    )
}

/// A request to a server.
#[derive(Debug, Clone)]
pub struct JsonRpcRequest {
    pub jsonrpc: String,
    pub id: u64,
    pub method: String,
    pub params: Option<Json>,
}

/// A notification to a server.
#[derive(Debug, Clone)]
pub struct JsonRpcNotification {
    pub jsonrpc: String,
    pub method: String,
    pub params: Option<Json>,
}

/// The error that an answer reports.
#[derive(Debug, Clone)]
pub struct JsonRpcError {
    pub code: i64,
    pub message: String,
    pub data: Option<Json>,
}

/// An answer of a server.
#[derive(Debug, Clone)]
pub struct JsonRpcResponse {
    pub id: Option<u64>,
    pub result: Option<Json>,
    pub error: Option<JsonRpcError>,
}

pub struct JsonRpcErrorView {
    pub code: i64,
    pub message: Seq<char>,
    pub data: Option<JsonView>,
}

pub struct JsonRpcResponseView {
    pub id: Option<u64>,
    pub result: Option<JsonView>,
    pub error: Option<JsonRpcErrorView>,
}

impl View for JsonRpcError {
    type V = JsonRpcErrorView;

    open spec fn view(&self) -> JsonRpcErrorView {
        JsonRpcErrorView { code: self.code, message: self.message@, data: opt_view(self.data) }
    }
}

impl View for JsonRpcResponse {
    type V = JsonRpcResponseView;

    open spec fn view(&self) -> JsonRpcResponseView {
        JsonRpcResponseView {
            id: self.id,
            result: opt_view(self.result),
            error: match self.error {
                Some(e) => Some(e@),
                None => None,
            },
        }
    }
}

fn push_member(members: &mut Vec<(String, Json)>, key: &str, value: Json)
    ensures
        member_views(final(members)@) == member_views(old(members)@).push((key@, value@)),
{
    let ghost before = member_views(members@);
    members.push((key.to_owned(), value));
    assert(member_views(members@) =~= before.push((key@, value@)));
}

fn push_optional(members: &mut Vec<(String, Json)>, key: &str, value: &Option<Json>)
    ensures
        member_views(final(members)@) == member_views(old(members)@) + optional(
            key@,
            opt_view(*value),
        ),
{
    let ghost before = member_views(members@);
    match value {
        Some(v) => {
            members.push((key.to_owned(), v.duplicate()));
            assert(member_views(members@) =~= before + seq![(key@, v@)]);
        },
        None => {
            assert(before + Seq::<(Seq<char>, JsonView)>::empty() =~= before);
        },
    }
}

impl JsonRpcRequest {
    /// A request for `method` under the id `id`.
    pub fn new(id: u64, method: &str, params: Option<Json>) -> (r: Self)
        ensures
            r.jsonrpc@ == "2.0"@,
            r.id == id,
            r.method@ == method@,
            r.params == params,
    {
        JsonRpcRequest { jsonrpc: "2.0".to_owned(), id, method: method.to_owned(), params }
    }

    /// The JSON form of the request.
    pub fn to_json(&self) -> (j: Json)
        ensures
            j@ == request_frame(self.jsonrpc@, self.id, self.method@, opt_view(self.params)),
    {
        let mut members: Vec<(String, Json)> = Vec::new();
        assert(member_views(members@) =~= Seq::<(Seq<char>, JsonView)>::empty());
        push_member(&mut members, "jsonrpc", Json::text(self.jsonrpc.as_str()));
        push_member(&mut members, "id", Json::unsigned(self.id));
        push_member(&mut members, "method", Json::text(self.method.as_str()));
        push_optional(&mut members, "params", &self.params);
        let j = Json::object(members);
        assert(j@->Object_0 == request_frame(
            self.jsonrpc@,
            self.id,
            self.method@,
            opt_view(self.params),
        )->Object_0);
        j
    }
}

impl JsonRpcNotification {
    /// A notification of `method`.
    pub fn new(method: &str, params: Option<Json>) -> (r: Self)
        ensures
            r.jsonrpc@ == "2.0"@,
            r.method@ == method@,
            r.params == params,
    {
        JsonRpcNotification { jsonrpc: "2.0".to_owned(), method: method.to_owned(), params }
    }

    /// The JSON form of the notification.
    pub fn to_json(&self) -> (j: Json)
        ensures
            j@ == notification_frame(self.jsonrpc@, self.method@, opt_view(self.params)),
    {
        let mut members: Vec<(String, Json)> = Vec::new();
        assert(member_views(members@) =~= Seq::<(Seq<char>, JsonView)>::empty());
        push_member(&mut members, "jsonrpc", Json::text(self.jsonrpc.as_str()));
        push_member(&mut members, "method", Json::text(self.method.as_str()));
        push_optional(&mut members, "params", &self.params);
        let j = Json::object(members);
        assert(j@->Object_0 == notification_frame(
            self.jsonrpc@,
            self.method@,
            opt_view(self.params),
        )->Object_0);
        j
    }
}

/// The signed integer that a JSON value holds.
pub open spec fn signed_value(j: JsonView) -> Option<i64> {
    match j {
        JsonView::Number(JsonNumberView::PosInt(u)) => if u <= i64::MAX {
            Some(u as i64)
        } else {
            None
        },
        JsonView::Number(JsonNumberView::NegInt(i)) => Some(i),
        _ => None,
    }
}

/// The error object that a JSON value stands for.
pub open spec fn decode_rpc_error(j: JsonView) -> Option<JsonRpcErrorView> {
    match (j.field("code"@), j.text_field("message"@)) {
        (Some(c), Some(message)) => match signed_value(c) {
            Some(code) => Some(JsonRpcErrorView { code, message, data: present(j, "data"@) }),
            None => None,
        },
        _ => None,
    }
}

/// The id of an answer: none where it is missing or `null`; malformed
/// where it is there and no non-negative integer.
pub open spec fn decode_id(j: JsonView) -> Option<Option<u64>> {
    match present(j, "id"@) {
        None => Some(None),
        Some(v) => match v.unsigned() {
            Some(id) => Some(Some(id)),
            None => None,
        },
    }
}

/// The error of an answer: none where it is missing or `null`; malformed
/// where it is there and no error object.
pub open spec fn decode_opt_error(j: JsonView) -> Option<Option<JsonRpcErrorView>> {
    match present(j, "error"@) {
        None => Some(None),
        Some(v) => match decode_rpc_error(v) {
            Some(e) => Some(Some(e)),
            None => None,
        },
    }
}

/// The answer that a JSON value stands for; none where it has not the
/// shape of an answer.
pub open spec fn decode_response(j: JsonView) -> Option<JsonRpcResponseView> {
    if !(j is Object) {
        None
    } else {
        match (decode_id(j), decode_opt_error(j)) {
            (Some(id), Some(error)) => Some(
                JsonRpcResponseView { id, result: present(j, "result"@), error },
            ),
            _ => None,
        }
    }
}

fn read_signed(j: &Json) -> (r: Option<i64>)
    ensures
        r == signed_value(j@),
{
    match j {
        Json::Number(JsonNumber::PosInt(u)) => if *u <= i64::MAX as u64 {
            Some(*u as i64)
        } else {
            None
        },
        Json::Number(JsonNumber::NegInt(i)) => Some(*i),
        _ => None,
    }
}

fn read_present(j: &Json, key: &str) -> (r: Option<Json>)
    ensures
        opt_view(r) == present(j@, key@),
{
    match j.get(key) {
        Some(v) => if v.is_null() {
            None
        } else {
            Some(v.duplicate())
        },
        None => None,
    }
}

fn read_rpc_error(j: &Json) -> (r: Option<JsonRpcError>)
    ensures
        match r {
            Some(e) => decode_rpc_error(j@) == Some(e@),
            None => decode_rpc_error(j@) is None,
        },
{
    match (j.get("code"), j.get_str("message")) {
        (Some(c), Some(message)) => match read_signed(c) {
            Some(code) => Some(
                JsonRpcError { code, message: message.to_owned(), data: read_present(j, "data") },
            ),
            None => None,
        },
        _ => None,
    }
}

impl JsonRpcResponse {
    /// Reads an answer from its JSON form.
    pub fn from_json(j: &Json) -> (r: Option<JsonRpcResponse>)
        ensures
            match r {
                Some(a) => decode_response(j@) == Some(a@),
                None => decode_response(j@) is None,
            },
    {
        match j {
            Json::Object(_) => {},
            _ => {
                return None;
            },
        }
        let id = match j.get("id") {
            None => None,
            Some(v) => if v.is_null() {
                None
            } else {
                match v.as_u64() {
                    Some(id) => Some(id),
                    None => {
                        return None;
                    },
                }
            },
        };
        let error = match j.get("error") {
            None => None,
            Some(v) => if v.is_null() {
                None
            } else {
                match read_rpc_error(v) {
                    Some(e) => Some(e),
                    None => {
                        return None;
                    },
                }
            },
        };
        Some(JsonRpcResponse { id, result: read_present(j, "result"), error })
    }
}

/// The schema of a tool that names none: an object without properties.
pub open spec fn default_schema() -> JsonView {
    JsonView::Object(
        seq![
            ("type"@, JsonView::String("object"@)),
            ("properties"@, JsonView::Object(Seq::empty())),
        ],
    )
}

/// The tool that an entry of a tool list stands for: its name, its
/// description, empty where there is none, and its input schema, the
/// default where there is none.
pub open spec fn decode_tool_entry(j: JsonView) -> Option<McpToolInfoView> {
    match j.text_field("name"@) {
        None => None,
        Some(name) => {
            let description = match present(j, "description"@) {
                None => Some(Seq::<char>::empty()),
                Some(d) => d.text(),
            };
            let schema = match j.field("inputSchema"@) {
                None => default_schema(),
                Some(s) => s,
            };
            match description {
                Some(description) => Some(
                    McpToolInfoView { name, description, input_schema: schema },
                ),
                None => None,
            }
        },
    }
}

/// The first `n` entries of a tool list, decoded.
pub open spec fn decode_tool_entries(items: Seq<JsonView>, n: int) -> Option<Seq<McpToolInfoView>>
    decreases n,
{
    if n <= 0 {
        Some(Seq::empty())
    } else {
        match (decode_tool_entries(items, n - 1), decode_tool_entry(items[n - 1])) {
            (Some(head), Some(last)) => Some(head.push(last)),
            _ => None,
        }
    }
}

/// The tools that the result of `tools/list` names.
pub open spec fn decode_tools_list(j: JsonView) -> Option<Seq<McpToolInfoView>> {
    match j.field("tools"@) {
        Some(JsonView::Array(items)) => decode_tool_entries(items, items.len() as int),
        _ => None,
    }
}

pub proof fn lemma_tool_entries_stay_malformed(items: Seq<JsonView>, n: int, m: int)
    requires
        n <= m,
        decode_tool_entries(items, n) is None,
    ensures
        decode_tool_entries(items, m) is None,
    decreases m - n,
{
    if n < m {
        lemma_tool_entries_stay_malformed(items, n, m - 1);
    }
}

fn make_default_schema() -> (j: Json)
    ensures
        j@ == default_schema(),
{
    let mut members: Vec<(String, Json)> = Vec::new();
    assert(member_views(members@) =~= Seq::<(Seq<char>, JsonView)>::empty());
    push_member(&mut members, "type", Json::text("object"));
    let none: Vec<(String, Json)> = Vec::new();
    let empty = Json::object(none);
    assert(empty@->Object_0 =~= Seq::<(Seq<char>, JsonView)>::empty());
    push_member(&mut members, "properties", empty);
    let j = Json::object(members);
    assert(j@->Object_0 =~= default_schema()->Object_0);
    j
}

fn read_tool_entry(j: &Json) -> (r: Option<McpToolInfo>)
    ensures
        match r {
            Some(t) => decode_tool_entry(j@) == Some(t@),
            None => decode_tool_entry(j@) is None,
        },
{
    let name = match j.get_str("name") {
        Some(n) => n.to_owned(),
        None => {
            return None;
        },
    };
    let description = match j.get("description") {
        None => String::new(),
        Some(d) => if d.is_null() {
            String::new()
        } else {
            match d.as_str() {
                Some(t) => t.to_owned(),
                None => {
                    return None;
                },
            }
        },
    };
    let input_schema = match j.get("inputSchema") {
        None => make_default_schema(),
        Some(s) => s.duplicate(),
    };
    Some(McpToolInfo { name, description, input_schema })
}

/// Reads the tools that the result of `tools/list` names.
pub fn read_tools_list(result: &Json) -> (r: Option<Vec<McpToolInfo>>)
    ensures
        match r {
            Some(tools) => decode_tools_list(result@) == Some(tool_views(tools@)),
            None => decode_tools_list(result@) is None,
        },
{
    let list = match result.get("tools") {
        Some(l) => l,
        None => {
            return None;
        },
    };
    match list {
        Json::Array(items) => {
            proof {
                lemma_array_view(*list);
            }
            let ghost views = list@->Array_0;
            let mut out: Vec<McpToolInfo> = Vec::new();
            let mut i: usize = 0;
            assert(tool_views(out@) =~= Seq::<McpToolInfoView>::empty());
            while i < items.len()
                invariant
                    i <= items.len(),
                    views == list@->Array_0,
                    result@.field("tools"@) == Some(list@),
                    list@ is Array,
                    views.len() == items@.len(),
                    forall|k: int| 0 <= k < items@.len() ==> views[k] == items@[k]@,
                    decode_tool_entries(views, i as int) == Some(tool_views(out@)),
                decreases items.len() - i,
            {
                match read_tool_entry(&items[i]) {
                    Some(t) => {
                        let ghost before = tool_views(out@);
                        out.push(t);
                        assert(tool_views(out@) =~= before.push(t@));
                    },
                    None => {
                        proof {
                            assert(decode_tool_entries(views, i + 1) is None);
                            lemma_tool_entries_stay_malformed(views, i + 1, views.len() as int);
                        }
                        return None;
                    },
                }
                i += 1;
            }
            Some(out)
        },
        _ => None,
    }
}

/// The item that a JSON value of a tool result stands for.
pub open spec fn decode_content(j: JsonView) -> Option<McpToolContentView> {
    match j.text_field("type"@) {
        Some(t) => if t == "text"@ {
            match j.text_field("text"@) {
                Some(text) => Some(McpToolContentView::Text { text }),
                None => None,
            }
        } else if t == "image"@ {
            match (j.text_field("data"@), j.text_field("mimeType"@)) {
                (Some(data), Some(mime_type)) => Some(McpToolContentView::Image { data, mime_type }),
                _ => None,
            }
        } else {
            None
        },
        None => None,
    }
}

/// The first `n` items of a tool result, decoded.
pub open spec fn decode_contents(items: Seq<JsonView>, n: int) -> Option<Seq<McpToolContentView>>
    decreases n,
{
    if n <= 0 {
        Some(Seq::empty())
    } else {
        match (decode_contents(items, n - 1), decode_content(items[n - 1])) {
            (Some(head), Some(last)) => Some(head.push(last)),
            _ => None,
        }
    }
}

/// Whether the result of a tool call reports an error: false where the
/// member is missing, malformed where it is no boolean.
pub open spec fn decode_is_error(j: JsonView) -> Option<bool> {
    match j.field("isError"@) {
        None => Some(false),
        Some(v) => v.boolean(),
    }
}

/// What the result of `tools/call` holds: the items and whether the call
/// failed.
pub open spec fn decode_call_result(j: JsonView) -> Option<(Seq<McpToolContentView>, bool)> {
    match (j.field("content"@), decode_is_error(j)) {
        (Some(JsonView::Array(items)), Some(is_error)) => match decode_contents(
            items,
            items.len() as int,
        ) {
            Some(content) => Some((content, is_error)),
            None => None,
        },
        _ => None,
    }
}

pub proof fn lemma_contents_stay_malformed(items: Seq<JsonView>, n: int, m: int)
    requires
        n <= m,
        decode_contents(items, n) is None,
    ensures
        decode_contents(items, m) is None,
    decreases m - n,
{
    if n < m {
        lemma_contents_stay_malformed(items, n, m - 1);
    }
}

fn read_content(j: &Json) -> (r: Option<McpToolContent>)
    ensures
        match r {
            Some(c) => decode_content(j@) == Some(c@),
            None => decode_content(j@) is None,
        },
{
    match j.get_str("type") {
        Some(t) => if crate::text::str_eq(t, "text") {
            match j.get_str("text") {
                Some(text) => Some(McpToolContent::Text { text: text.to_owned() }),
                None => None,
            }
        } else if crate::text::str_eq(t, "image") {
            match (j.get_str("data"), j.get_str("mimeType")) {
                (Some(data), Some(mime_type)) => Some(
                    McpToolContent::Image { data: data.to_owned(), mime_type: mime_type.to_owned() },
                ),
                _ => None,
            }
        } else {
            None
        },
        None => None,
    }
}

/// Reads the result of `tools/call`.
pub fn read_call_result(result: &Json) -> (r: Option<McpToolResult>)
    ensures
        match r {
            Some(t) => decode_call_result(result@) == Some((content_views(t.content@), t.is_error)),
            None => decode_call_result(result@) is None,
        },
{
    let is_error = match result.get("isError") {
        None => false,
        Some(v) => match v.as_bool() {
            Some(b) => b,
            None => {
                return None;
            },
        },
    };
    let list = match result.get("content") {
        Some(l) => l,
        None => {
            return None;
        },
    };
    match list {
        Json::Array(items) => {
            proof {
                lemma_array_view(*list);
            }
            let ghost views = list@->Array_0;
            let mut out: Vec<McpToolContent> = Vec::new();
            let mut i: usize = 0;
            assert(content_views(out@) =~= Seq::<McpToolContentView>::empty());
            while i < items.len()
                invariant
                    i <= items.len(),
                    views == list@->Array_0,
                    result@.field("content"@) == Some(list@),
                    decode_is_error(result@) == Some(is_error),
                    list@ is Array,
                    views.len() == items@.len(),
                    forall|k: int| 0 <= k < items@.len() ==> views[k] == items@[k]@,
                    decode_contents(views, i as int) == Some(content_views(out@)),
                decreases items.len() - i,
            {
                match read_content(&items[i]) {
                    Some(c) => {
                        let ghost before = content_views(out@);
                        out.push(c);
                        assert(content_views(out@) =~= before.push(c@));
                    },
                    None => {
                        proof {
                            assert(decode_contents(views, i + 1) is None);
                            lemma_contents_stay_malformed(views, i + 1, views.len() as int);
                        }
                        return None;
                    },
                }
                i += 1;
            }
            Some(McpToolResult { content: out, is_error })
        },
        _ => None,
    }
}

/// True when `e` is the error that the server `server` reported with
/// `error`.
pub open spec fn is_rpc_error(e: McpError, server: Seq<char>, error: JsonRpcErrorView) -> bool {
    e matches McpError::JsonRpc { server: s, code, message } && s@ == server && code
        == error.code && message@ == error.message
}

/// True when `e` is the protocol error with the message `message`.
pub open spec fn is_protocol_error(e: McpError, message: Seq<char>) -> bool {
    e matches McpError::Protocol(m) && m@ == message
}

/// What the answer to `tools/call` means: the error that the server
/// reports; else the result, which must be there and well-formed.
pub fn interpret_call(server: &str, response: JsonRpcResponse) -> (r: Result<McpToolResult, McpError>)
    ensures
        match response@.error {
            Some(error) => r is Err && is_rpc_error(r->Err_0, server@, error),
            None => match response@.result {
                None => r is Err && is_protocol_error(
                    r->Err_0,
                    "tools/call response has neither result nor error"@,
                ),
                Some(result) => match decode_call_result(result) {
                    Some((content, is_error)) => r is Ok && content_views((r->Ok_0).content@)
                        == content && (r->Ok_0).is_error == is_error,
                    None => r is Err && is_protocol_error(
                        r->Err_0,
                        "Failed to parse tools/call result"@,
                    ),
                },
            },
        },
{
    match response.error {
        Some(error) => {
            return Err(
                McpError::JsonRpc {
                    server: server.to_owned(),
                    code: error.code,
                    message: error.message,
                },
            );
        },
        None => {},
    }
    let result = match response.result {
        Some(r) => r,
        None => {
            return Err(
                McpError::Protocol(
                    "tools/call response has neither result nor error".to_owned(),
                ),
            );
        },
    };
    match read_call_result(&result) {
        Some(t) => Ok(t),
        None => Err(McpError::Protocol("Failed to parse tools/call result".to_owned())),
    }
}

/// What the answer to `tools/list` means: the tools of the result, which
/// must be well-formed; else the error that the server reports; else no
/// tools.
pub fn interpret_tools_list(server: &str, response: JsonRpcResponse) -> (r: Result<
    Vec<McpToolInfo>,
    McpError,
>)
    ensures
        match response@.result {
            Some(result) => match decode_tools_list(result) {
                Some(tools) => r is Ok && tool_views((r->Ok_0)@) == tools,
                None => r is Err && is_protocol_error(
                    r->Err_0,
                    "Failed to parse tools/list response"@,
                ),
            },
            None => match response@.error {
                Some(error) => r is Err && is_rpc_error(r->Err_0, server@, error),
                None => r is Ok && (r->Ok_0)@.len() == 0,
            },
        },
{
    match response.result {
        Some(result) => match read_tools_list(&result) {
            Some(tools) => Ok(tools),
            None => Err(McpError::Protocol("Failed to parse tools/list response".to_owned())),
        },
        None => match response.error {
            Some(error) => Err(
                McpError::JsonRpc {
                    server: server.to_owned(),
                    code: error.code,
                    message: error.message,
                },
            ),
            None => Ok(Vec::new()),
        },
    }
}

/// The parameters of `tools/call`.
pub open spec fn call_params(tool: Seq<char>, arguments: JsonView) -> JsonView {
    JsonView::Object(seq![("name"@, JsonView::String(tool)), ("arguments"@, arguments)])
}

/// Writes the parameters of `tools/call`.
pub fn make_call_params(tool: &str, arguments: Json) -> (j: Json)
    ensures
        j@ == call_params(tool@, arguments@),
{
    let mut members: Vec<(String, Json)> = Vec::new();
    assert(member_views(members@) =~= Seq::<(Seq<char>, JsonView)>::empty());
    push_member(&mut members, "name", Json::text(tool));
    push_member(&mut members, "arguments", arguments);
    let j = Json::object(members);
    assert(j@->Object_0 =~= call_params(tool@, arguments@)->Object_0);
    j
}

/// The parameters of `initialize`: the version of the protocol, no
/// capabilities, and the name and version of the client.
pub open spec fn initialize_params(client: Seq<char>, version: Seq<char>) -> JsonView {
    JsonView::Object(
        seq![
            ("protocolVersion"@, JsonView::String(PROTOCOL_VERSION@)),
            ("capabilities"@, JsonView::Object(Seq::empty())),
            (
                "clientInfo"@,
                JsonView::Object(
                    seq![
                        ("name"@, JsonView::String(client)),
                        ("version"@, JsonView::String(version)),
                    ],
                ),
            ),
        ],
    )
}

/// Writes the parameters of `initialize`.
pub fn make_initialize_params(client: &str, version: &str) -> (j: Json)
    ensures
        j@ == initialize_params(client@, version@),
{
    let mut info: Vec<(String, Json)> = Vec::new();
    assert(member_views(info@) =~= Seq::<(Seq<char>, JsonView)>::empty());
    push_member(&mut info, "name", Json::text(client));
    push_member(&mut info, "version", Json::text(version));
    let info = Json::object(info);
    let none: Vec<(String, Json)> = Vec::new();
    let capabilities = Json::object(none);
    assert(capabilities@->Object_0 =~= Seq::<(Seq<char>, JsonView)>::empty());
    let mut members: Vec<(String, Json)> = Vec::new();
    assert(member_views(members@) =~= Seq::<(Seq<char>, JsonView)>::empty());
    push_member(&mut members, "protocolVersion", Json::text(PROTOCOL_VERSION));
    push_member(&mut members, "capabilities", capabilities);
    push_member(&mut members, "clientInfo", info);
    let j = Json::object(members);
    assert(info@->Object_0 =~= seq![
        ("name"@, JsonView::String(client@)),
        ("version"@, JsonView::String(version@)),
    ]);
    assert(j@->Object_0 =~= initialize_params(client@, version@)->Object_0);
    j
}

/// The name under which the tool `tool` of the server `server` is
/// announced, so that it clashes with no other tool.
pub open spec fn namespaced(server: Seq<char>, tool: Seq<char>) -> Seq<char> {
    "mcp__"@ + server + "__"@ + tool
}

/// The name under which a tool of a server is announced.
pub fn namespaced_name(server: &str, tool: &str) -> (n: String)
    ensures
        n@ == namespaced(server@, tool@),
{
    join4("mcp__", server, "__", tool)
}

/// The description under which a tool of a server is announced.
pub fn tool_description(server: &str, description: &str) -> (d: String)
    ensures
        d@ == "[MCP: "@ + server@ + "] "@ + description@,
{
    join4("[MCP: ", server, "] ", description)
}

/// What is announced of the tool `info` of the server `server`.
pub fn tool_definition(server: &str, info: &McpToolInfo) -> (d: ToolDefinition)
    ensures
        d@ == (ToolDefinitionView {
            name: namespaced(server@, info@.name),
            description: "[MCP: "@ + server@ + "] "@ + info@.description,
            input_schema: info@.input_schema,
            cache_control: None,
        }),
{
    ToolDefinition {
        name: namespaced_name(server, info.name.as_str()),
        description: tool_description(server, info.description.as_str()),
        input_schema: info.input_schema.duplicate(),
        cache_control: None,
    }
}

/// The output item that an item of a server's tool stands for: texts stay
/// texts, images come as base64 data of their media type.
pub open spec fn as_output_item(c: McpToolContentView) -> ToolOutputContentView {
    match c {
        McpToolContentView::Text { text } => ToolOutputContentView::Text { text },
        McpToolContentView::Image { data, mime_type } => ToolOutputContentView::Image {
            source: ImageSourceView {
                source_type: ImageSourceType::Base64,
                media_type: mime_type,
                data,
            },
        },
    }
}

/// Turns what a tool of a server handed back into the output of a tool.
pub fn to_tool_output(result: McpToolResult) -> (out: ToolOutput)
    ensures
        out@.content == content_views(result.content@).map_values(|c| as_output_item(c)),
        out@.is_error == result.is_error,
{
    let mut content: Vec<ToolOutputContent> = Vec::new();
    let mut i: usize = 0;
    while i < result.content.len()
        invariant
            i <= result.content@.len(),
            content@.len() == i,
            forall|k: int| 0 <= k < i ==> content@[k]@ == as_output_item(result.content@[k]@),
        decreases result.content.len() - i,
    {
        let item = match &result.content[i] {
            McpToolContent::Text { text } => ToolOutputContent::Text { text: text.clone() },
            McpToolContent::Image { data, mime_type } => ToolOutputContent::Image {
                source: ImageSource {
                    source_type: ImageSourceType::Base64,
                    media_type: mime_type.clone(),
                    data: data.clone(),
                },
            },
        };
        content.push(item);
        i += 1;
    }
    let out = ToolOutput { content, is_error: result.is_error };
    assert(out@.content =~= content_views(result.content@).map_values(|c| as_output_item(c)));
    out
}

} // verus!
