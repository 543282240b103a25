//! Decoding of stream records into typed events.
//!
//! Each record names its kind in the event type and carries a JSON object
//! as data. A member that may be missing counts as absent when it is not
//! there or is `null`; every other member must be there and of the right
//! shape, else the record is malformed. Members that the protocol does not
//! know are ignored.

use crate::error::ApiError;
use crate::json::{json_parse, lemma_array_view, Json, JsonView};
use crate::message::{
    blocks, result_items, ApiErrorResponse, ApiErrorResponseView, ContentBlock, ContentBlockView,
    ContentDelta, ContentDeltaView, CreateMessageResponse, CreateMessageResponseView, ImageSource,
    ImageSourceType, ImageSourceView, MessageDelta, Role, StopReason, StreamEvent,
    StreamEventView, ToolResultContent, ToolResultContentView, Usage,
};
use crate::sse::{records, SseParser, SseRecord};
use crate::text::{join2, str_eq};
use vstd::prelude::*;
use vstd::string::*;

verus! {

/// The member `key` of `j` where it is there and not `null`.
pub open spec fn present(j: JsonView, key: Seq<char>) -> Option<JsonView> {
    match j.field(key) {
        Some(v) => if v is Null {
            None
        } else {
            Some(v)
        },
        None => None,
    }
}

/// A token count: absent counts as zero, a non-negative integer as
/// itself, anything else is malformed.
pub open spec fn decode_count(j: JsonView, key: Seq<char>) -> Option<u64> {
    match j.field(key) {
        None => Some(0),
        Some(v) => v.unsigned(),
    }
}

pub open spec fn decode_usage(j: JsonView) -> Option<Usage> {
    if !(j is Object) {
        None
    } else {
        match (
            decode_count(j, "input_tokens"@),
            decode_count(j, "output_tokens"@),
            decode_count(j, "cache_creation_input_tokens"@),
            decode_count(j, "cache_read_input_tokens"@),
        ) {
            (Some(a), Some(b), Some(c), Some(d)) => Some(
                Usage {
                    input_tokens: a,
                    output_tokens: b,
                    cache_creation_input_tokens: c,
                    cache_read_input_tokens: d,
                },
            ),
            _ => None,
        }
    }
}

pub open spec fn decode_stop_reason(j: JsonView) -> Option<StopReason> {
    match j.text() {
        Some(t) => if t == "end_turn"@ {
            Some(StopReason::EndTurn)
        } else if t == "max_tokens"@ {
            Some(StopReason::MaxTokens)
        } else if t == "stop_sequence"@ {
            Some(StopReason::StopSequence)
        } else if t == "tool_use"@ {
            Some(StopReason::ToolUse)
        } else {
            None
        },
        None => None,
    }
}

/// The stop reason at `key`: none when absent, malformed when it is there
/// and no known reason.
pub open spec fn decode_opt_stop_reason(j: JsonView, key: Seq<char>) -> Option<Option<StopReason>> {
    match present(j, key) {
        None => Some(None),
        Some(v) => match decode_stop_reason(v) {
            Some(r) => Some(Some(r)),
            None => None,
        },
    }
}

pub open spec fn decode_role(j: JsonView) -> Option<Role> {
    match j.text() {
        Some(t) => if t == "user"@ {
            Some(Role::User)
        } else if t == "assistant"@ {
            Some(Role::Assistant)
        } else {
            None
        },
        None => None,
    }
}

pub open spec fn decode_image_source(j: JsonView) -> Option<ImageSourceView> {
    match (j.text_field("type"@), j.text_field("media_type"@), j.text_field("data"@)) {
        (Some(t), Some(media_type), Some(data)) => if t == "base64"@ {
            Some(ImageSourceView { source_type: ImageSourceType::Base64, media_type, data })
        } else if t == "url"@ {
            Some(ImageSourceView { source_type: ImageSourceType::Url, media_type, data })
        } else {
            None
        },
        _ => None,
    }
}

/// The image source at the member `source`.
pub open spec fn decode_source_member(j: JsonView) -> Option<ImageSourceView> {
    match j.field("source"@) {
        Some(s) => decode_image_source(s),
        None => None,
    }
}

pub open spec fn decode_result_item(j: JsonView) -> Option<ToolResultContentView> {
    match j.text_field("type"@) {
        Some(t) => if t == "text"@ {
            match j.text_field("text"@) {
                Some(text) => Some(ToolResultContentView::Text { text }),
                None => None,
            }
        } else if t == "image"@ {
            match decode_source_member(j) {
                Some(source) => Some(ToolResultContentView::Image { source }),
                None => None,
            }
        } else {
            None
        },
        None => None,
    }
}

/// The first `n` items decoded; malformed as soon as one of them is.
pub open spec fn decode_result_items(items: Seq<JsonView>, n: int) -> Option<
    Seq<ToolResultContentView>,
>
    decreases n,
{
    if n <= 0 {
        Some(Seq::empty())
    } else {
        match (decode_result_items(items, n - 1), decode_result_item(items[n - 1])) {
            (Some(head), Some(last)) => Some(head.push(last)),
            _ => None,
        }
    }
}

/// An optional text: none when absent, malformed when it is there and no
/// string.
pub open spec fn decode_opt_text(j: JsonView, key: Seq<char>) -> Option<Option<Seq<char>>> {
    match present(j, key) {
        None => Some(None),
        Some(v) => match v.text() {
            Some(t) => Some(Some(t)),
            None => None,
        },
    }
}

/// An optional flag: none when absent, malformed when it is there and no
/// boolean.
pub open spec fn decode_opt_bool(j: JsonView, key: Seq<char>) -> Option<Option<bool>> {
    match present(j, key) {
        None => Some(None),
        Some(v) => match v.boolean() {
            Some(b) => Some(Some(b)),
            None => None,
        },
    }
}

pub open spec fn decode_tool_use(j: JsonView) -> Option<ContentBlockView> {
    match (j.text_field("id"@), j.text_field("name"@), j.field("input"@)) {
        (Some(id), Some(name), Some(input)) => Some(ContentBlockView::ToolUse { id, name, input }),
        _ => None,
    }
}

pub open spec fn decode_tool_result(j: JsonView) -> Option<ContentBlockView> {
    match (j.text_field("tool_use_id"@), j.field("content"@), decode_opt_bool(j, "is_error"@)) {
        (Some(tool_use_id), Some(JsonView::Array(items)), Some(is_error)) => {
            match decode_result_items(items, items.len() as int) {
                Some(content) => Some(
                    ContentBlockView::ToolResult { tool_use_id, content, is_error },
                ),
                None => None,
            }
        },
        _ => None,
    }
}

pub open spec fn decode_thinking(j: JsonView) -> Option<ContentBlockView> {
    match (j.text_field("thinking"@), decode_opt_text(j, "signature"@)) {
        (Some(thinking), Some(signature)) => Some(
            ContentBlockView::Thinking { thinking, signature },
        ),
        _ => None,
    }
}

/// The block that a value of the stream stands for. A block of one of the
/// five known types is read by its members and is malformed where they
/// do not fit. A block of any other type is kept whole, as an unknown
/// block. A value without a `type` is no block.
pub open spec fn decode_content_block(j: JsonView) -> Option<ContentBlockView> {
    match j.text_field("type"@) {
        Some(t) => if t == "text"@ {
            match j.text_field("text"@) {
                Some(text) => Some(ContentBlockView::Text { text }),
                None => None,
            }
        } else if t == "tool_use"@ {
            decode_tool_use(j)
        } else if t == "tool_result"@ {
            decode_tool_result(j)
        } else if t == "thinking"@ {
            decode_thinking(j)
        } else if t == "image"@ {
            match decode_source_member(j) {
                Some(source) => Some(ContentBlockView::Image { source }),
                None => None,
            }
        } else {
            Some(ContentBlockView::Unknown { value: j })
        },
        None => None,
    }
}

/// The first `n` blocks decoded; malformed as soon as one of them is.
pub open spec fn decode_blocks(items: Seq<JsonView>, n: int) -> Option<Seq<ContentBlockView>>
    decreases n,
{
    if n <= 0 {
        Some(Seq::empty())
    } else {
        match (decode_blocks(items, n - 1), decode_content_block(items[n - 1])) {
            (Some(head), Some(last)) => Some(head.push(last)),
            _ => None,
        }
    }
}

pub open spec fn decode_delta(j: JsonView) -> Option<ContentDeltaView> {
    match j.text_field("type"@) {
        Some(t) => if t == "text_delta"@ {
            match j.text_field("text"@) {
                Some(text) => Some(ContentDeltaView::TextDelta { text }),
                None => None,
            }
        } else if t == "input_json_delta"@ {
            match j.text_field("partial_json"@) {
                Some(partial_json) => Some(ContentDeltaView::InputJsonDelta { partial_json }),
                None => None,
            }
        } else if t == "thinking_delta"@ {
            match j.text_field("thinking"@) {
                Some(thinking) => Some(ContentDeltaView::ThinkingDelta { thinking }),
                None => None,
            }
        } else if t == "signature_delta"@ {
            match j.text_field("signature"@) {
                Some(signature) => Some(ContentDeltaView::SignatureDelta { signature }),
                None => None,
            }
        } else {
            None
        },
        None => None,
    }
}

/// The content blocks at the member `content`.
pub open spec fn decode_content_member(j: JsonView) -> Option<Seq<ContentBlockView>> {
    match j.field("content"@) {
        Some(JsonView::Array(items)) => decode_blocks(items, items.len() as int),
        _ => None,
    }
}

/// The role at the member `role`.
pub open spec fn decode_role_member(j: JsonView) -> Option<Role> {
    match j.field("role"@) {
        Some(r) => decode_role(r),
        None => None,
    }
}

/// The usage at the member `usage`, which must be there.
pub open spec fn decode_usage_member(j: JsonView) -> Option<Usage> {
    match j.field("usage"@) {
        Some(u) => decode_usage(u),
        None => None,
    }
}

pub open spec fn decode_response(j: JsonView) -> Option<CreateMessageResponseView> {
    match (
        j.text_field("id"@),
        j.text_field("type"@),
        decode_role_member(j),
        decode_content_member(j),
        j.text_field("model"@),
        decode_opt_stop_reason(j, "stop_reason"@),
        decode_usage_member(j),
    ) {
        (
            Some(id),
            Some(response_type),
            Some(role),
            Some(content),
            Some(model),
            Some(stop_reason),
            Some(usage),
        ) => Some(
            CreateMessageResponseView {
                id,
                response_type,
                role,
                content,
                model,
                stop_reason,
                usage,
            },
        ),
        _ => None,
    }
}

pub open spec fn decode_error_body(j: JsonView) -> Option<ApiErrorResponseView> {
    match (j.text_field("type"@), j.text_field("message"@)) {
        (Some(error_type), Some(message)) => Some(ApiErrorResponseView { error_type, message }),
        _ => None,
    }
}

/// The block index at the member `index`: a non-negative integer that
/// fits the machine's index type.
pub open spec fn decode_index(j: JsonView) -> Option<usize> {
    match j.field("index"@) {
        Some(v) => match v.unsigned() {
            Some(u) => if u <= usize::MAX {
                Some(u as usize)
            } else {
                None
            },
            None => None,
        },
        None => None,
    }
}

/// The usage at the member `usage`, which may be missing.
pub open spec fn decode_opt_usage(j: JsonView) -> Option<Option<Usage>> {
    match present(j, "usage"@) {
        None => Some(None),
        Some(u) => match decode_usage(u) {
            Some(usage) => Some(Some(usage)),
            None => None,
        },
    }
}

pub open spec fn decode_message_start(j: JsonView) -> Option<StreamEventView> {
    match j.field("message"@) {
        Some(m) => match decode_response(m) {
            Some(message) => Some(StreamEventView::MessageStart { message }),
            None => None,
        },
        None => None,
    }
}

pub open spec fn decode_block_start(j: JsonView) -> Option<StreamEventView> {
    match (decode_index(j), j.field("content_block"@)) {
        (Some(index), Some(b)) => match decode_content_block(b) {
            Some(content_block) => Some(StreamEventView::ContentBlockStart { index, content_block }),
            None => None,
        },
        _ => None,
    }
}

pub open spec fn decode_block_delta(j: JsonView) -> Option<StreamEventView> {
    match (decode_index(j), j.field("delta"@)) {
        (Some(index), Some(d)) => match decode_delta(d) {
            Some(delta) => Some(StreamEventView::ContentBlockDelta { index, delta }),
            None => None,
        },
        _ => None,
    }
}

pub open spec fn decode_block_stop(j: JsonView) -> Option<StreamEventView> {
    match decode_index(j) {
        Some(index) => Some(StreamEventView::ContentBlockStop { index }),
        None => None,
    }
}

pub open spec fn decode_message_delta(j: JsonView) -> Option<StreamEventView> {
    match j.field("delta"@) {
        Some(d) => if !(d is Object) {
            None
        } else {
            match (decode_opt_stop_reason(d, "stop_reason"@), decode_opt_usage(j)) {
                (Some(stop_reason), Some(usage)) => Some(
                    StreamEventView::MessageDelta { delta: MessageDelta { stop_reason }, usage },
                ),
                _ => None,
            }
        },
        None => None,
    }
}

pub open spec fn decode_error_event(j: JsonView) -> Option<StreamEventView> {
    match j.field("error"@) {
        Some(e) => match decode_error_body(e) {
            Some(error) => Some(StreamEventView::Error { error }),
            None => None,
        },
        None => None,
    }
}

/// True for the event types whose data is read as JSON.
pub open spec fn carries_json(t: Seq<char>) -> bool {
    t == "message_start"@ || t == "content_block_start"@ || t == "content_block_delta"@ || t
        == "content_block_stop"@ || t == "message_delta"@ || t == "error"@
}

/// The event that the JSON value `j` of a record of type `t` stands for.
pub open spec fn decode_json_event(t: Seq<char>, j: JsonView) -> Option<StreamEventView> {
    if t == "message_start"@ {
        decode_message_start(j)
    } else if t == "content_block_start"@ {
        decode_block_start(j)
    } else if t == "content_block_delta"@ {
        decode_block_delta(j)
    } else if t == "content_block_stop"@ {
        decode_block_stop(j)
    } else if t == "message_delta"@ {
        decode_message_delta(j)
    } else {
        decode_error_event(j)
    }
}

/// What a record decodes to.
pub enum Decoded {
    /// The record is a typed event.
    Event(StreamEventView),
    /// The record has no event type, or one that the protocol does not
    /// know: it is passed over.
    Skipped,
    /// The data of the record does not have the shape of its type.
    Malformed,
}

/// The meaning of a record with event type `event_type` and data `data`.
/// `message_stop` and `ping` carry no data that is read.
pub open spec fn decode_record(event_type: Option<Seq<char>>, data: Seq<char>) -> Decoded {
    match event_type {
        None => Decoded::Skipped,
        Some(t) => if carries_json(t) {
            match json_parse(data) {
                Some(j) => match decode_json_event(t, j) {
                    Some(e) => Decoded::Event(e),
                    None => Decoded::Malformed,
                },
                None => Decoded::Malformed,
            }
        } else if t == "message_stop"@ {
            Decoded::Event(StreamEventView::MessageStop)
        } else if t == "ping"@ {
            Decoded::Event(StreamEventView::Ping)
        } else {
            Decoded::Skipped
        },
    }
}


/// Once a prefix of the items is malformed, so is every longer one.
pub proof fn lemma_result_items_stay_malformed(items: Seq<JsonView>, n: int, m: int)
    requires
        n <= m,
        decode_result_items(items, n) is None,
    ensures
        decode_result_items(items, m) is None,
    decreases m - n,
{
    if n < m {
        lemma_result_items_stay_malformed(items, n, m - 1);
    }
}

/// Once a prefix of the blocks is malformed, so is every longer one.
pub proof fn lemma_blocks_stay_malformed(items: Seq<JsonView>, n: int, m: int)
    requires
        n <= m,
        decode_blocks(items, n) is None,
    ensures
        decode_blocks(items, m) is None,
    decreases m - n,
{
    if n < m {
        lemma_blocks_stay_malformed(items, n, m - 1);
    }
}

fn read_present<'a>(j: &'a Json, key: &str) -> (r: Option<&'a Json>)
    ensures
        match r {
            Some(v) => present(j@, key@) == Some(v@),
            None => present(j@, key@) is None,
        },
{
    match j.get(key) {
        Some(v) => if v.is_null() {
            None
        } else {
            Some(v)
        },
        None => None,
    }
}

fn read_text(j: &Json, key: &str) -> (r: Option<String>)
    ensures
        match r {
            Some(t) => j@.text_field(key@) == Some(t@),
            None => j@.text_field(key@) is None,
        },
{
    match j.get_str(key) {
        Some(t) => Some(t.to_owned()),
        None => None,
    }
}

fn read_count(j: &Json, key: &str) -> (r: Option<u64>)
    ensures
        r == decode_count(j@, key@),
{
    match j.get(key) {
        None => Some(0),
        Some(v) => v.as_u64(),
    }
}

fn read_usage(j: &Json) -> (r: Option<Usage>)
    ensures
        r == decode_usage(j@),
{
    match j {
        Json::Object(_) => {},
        _ => {
            return None;
        },
    }
    let a = read_count(j, "input_tokens");
    let b = read_count(j, "output_tokens");
    let c = read_count(j, "cache_creation_input_tokens");
    let d = read_count(j, "cache_read_input_tokens");
    match (a, b, c, d) {
        (Some(a), Some(b), Some(c), Some(d)) => Some(
            Usage {
                input_tokens: a,
                output_tokens: b,
                cache_creation_input_tokens: c,
                cache_read_input_tokens: d,
            },
        ),
        _ => None,
    }
}

fn read_stop_reason(j: &Json) -> (r: Option<StopReason>)
    ensures
        r == decode_stop_reason(j@),
{
    match j.as_str() {
        Some(t) => if str_eq(t, "end_turn") {
            Some(StopReason::EndTurn)
        } else if str_eq(t, "max_tokens") {
            Some(StopReason::MaxTokens)
        } else if str_eq(t, "stop_sequence") {
            Some(StopReason::StopSequence)
        } else if str_eq(t, "tool_use") {
            Some(StopReason::ToolUse)
        } else {
            None
        },
        None => None,
    }
}

fn read_opt_stop_reason(j: &Json, key: &str) -> (r: Option<Option<StopReason>>)
    ensures
        r == decode_opt_stop_reason(j@, key@),
{
    match read_present(j, key) {
        None => Some(None),
        Some(v) => match read_stop_reason(v) {
            Some(r) => Some(Some(r)),
            None => None,
        },
    }
}

fn read_role(j: &Json) -> (r: Option<Role>)
    ensures
        r == decode_role(j@),
{
    match j.as_str() {
        Some(t) => if str_eq(t, "user") {
            Some(Role::User)
        } else if str_eq(t, "assistant") {
            Some(Role::Assistant)
        } else {
            None
        },
        None => None,
    }
}

fn read_image_source(j: &Json) -> (r: Option<ImageSource>)
    ensures
        match r {
            Some(s) => decode_image_source(j@) == Some(s@),
            None => decode_image_source(j@) is None,
        },
{
    let t = read_text(j, "type");
    let media_type = read_text(j, "media_type");
    let data = read_text(j, "data");
    match (t, media_type, data) {
        (Some(t), Some(media_type), Some(data)) => if str_eq(t.as_str(), "base64") {
            Some(ImageSource { source_type: ImageSourceType::Base64, media_type, data })
        } else if str_eq(t.as_str(), "url") {
            Some(ImageSource { source_type: ImageSourceType::Url, media_type, data })
        } else {
            None
        },
        _ => None,
    }
}

fn read_source_member(j: &Json) -> (r: Option<ImageSource>)
    ensures
        match r {
            Some(s) => decode_source_member(j@) == Some(s@),
            None => decode_source_member(j@) is None,
        },
{
    match j.get("source") {
        Some(s) => read_image_source(s),
        None => None,
    }
}

fn read_result_item(j: &Json) -> (r: Option<ToolResultContent>)
    ensures
        match r {
            Some(c) => decode_result_item(j@) == Some(c@),
            None => decode_result_item(j@) is None,
        },
{
    match j.get_str("type") {
        Some(t) => if str_eq(t, "text") {
            match read_text(j, "text") {
                Some(text) => Some(ToolResultContent::Text { text }),
                None => None,
            }
        } else if str_eq(t, "image") {
            match read_source_member(j) {
                Some(source) => Some(ToolResultContent::Image { source }),
                None => None,
            }
        } else {
            None
        },
        None => None,
    }
}

fn read_result_items(j: &Json) -> (r: Option<Vec<ToolResultContent>>)
    requires
        j is Array,
    ensures
        match r {
            Some(v) => decode_result_items(j@->Array_0, j@->Array_0.len() as int) == Some(
                result_items(v@),
            ),
            None => decode_result_items(j@->Array_0, j@->Array_0.len() as int) is None,
        },
{
    proof {
        lemma_array_view(*j);
    }
    let ghost views = j@->Array_0;
    match j {
        Json::Array(items) => {
            let mut out: Vec<ToolResultContent> = Vec::new();
            let mut i: usize = 0;
            while i < items.len()
                invariant
                    i <= items.len(),
                    views == j@->Array_0,
                    views.len() == items@.len(),
                    forall|k: int| 0 <= k < items@.len() ==> views[k] == items@[k]@,
                    decode_result_items(views, i as int) == Some(result_items(out@)),
                decreases items.len() - i,
            {
                match read_result_item(&items[i]) {
                    Some(c) => {
                        let ghost before = result_items(out@);
                        out.push(c);
                        assert(result_items(out@) =~= before.push(c@));
                    },
                    None => {
                        proof {
                            assert(decode_result_items(views, i + 1) is None);
                            lemma_result_items_stay_malformed(
                                views,
                                i + 1,
                                views.len() as int,
                            );
                        }
                        return None;
                    },
                }
                i += 1;
            }
            Some(out)
        },
        _ => None,
    }
}

pub(crate) fn read_opt_text(j: &Json, key: &str) -> (r: Option<Option<String>>)
    ensures
        match r {
            Some(Some(t)) => decode_opt_text(j@, key@) == Some(Some(t@)),
            Some(None) => decode_opt_text(j@, key@) == Some(None::<Seq<char>>),
            None => decode_opt_text(j@, key@) is None,
        },
{
    match read_present(j, key) {
        None => Some(None),
        Some(v) => match v.as_str() {
            Some(t) => Some(Some(t.to_owned())),
            None => None,
        },
    }
}

pub(crate) fn read_opt_bool(j: &Json, key: &str) -> (r: Option<Option<bool>>)
    ensures
        r == decode_opt_bool(j@, key@),
{
    match read_present(j, key) {
        None => Some(None),
        Some(v) => match v.as_bool() {
            Some(b) => Some(Some(b)),
            None => None,
        },
    }
}

fn read_tool_use(j: &Json) -> (r: Option<ContentBlock>)
    ensures
        match r {
            Some(b) => decode_tool_use(j@) == Some(b@),
            None => decode_tool_use(j@) is None,
        },
{
    let id = read_text(j, "id");
    let name = read_text(j, "name");
    let input = j.get("input");
    match (id, name, input) {
        (Some(id), Some(name), Some(input)) => Some(
            ContentBlock::ToolUse { id, name, input: input.duplicate() },
        ),
        _ => None,
    }
}

fn read_tool_result(j: &Json) -> (r: Option<ContentBlock>)
    ensures
        match r {
            Some(b) => decode_tool_result(j@) == Some(b@),
            None => decode_tool_result(j@) is None,
        },
{
    let tool_use_id = read_text(j, "tool_use_id");
    let content = j.get("content");
    let is_error = read_opt_bool(j, "is_error");
    match (tool_use_id, content, is_error) {
        (Some(tool_use_id), Some(content), Some(is_error)) => {
            match content {
                Json::Array(_) => {},
                _ => {
                    return None;
                },
            }
            match read_result_items(content) {
                Some(content) => Some(ContentBlock::ToolResult { tool_use_id, content, is_error }),
                None => None,
            }
        },
        _ => None,
    }
}

fn read_thinking(j: &Json) -> (r: Option<ContentBlock>)
    ensures
        match r {
            Some(b) => decode_thinking(j@) == Some(b@),
            None => decode_thinking(j@) is None,
        },
{
    let thinking = read_text(j, "thinking");
    let signature = read_opt_text(j, "signature");
    match (thinking, signature) {
        (Some(thinking), Some(signature)) => Some(ContentBlock::Thinking { thinking, signature }),
        _ => None,
    }
}

/// Decodes a content block.
pub fn read_content_block(j: &Json) -> (r: Option<ContentBlock>)
    ensures
        match r {
            Some(b) => decode_content_block(j@) == Some(b@),
            None => decode_content_block(j@) is None,
        },
{
    match j.get_str("type") {
        Some(t) => if str_eq(t, "text") {
            match read_text(j, "text") {
                Some(text) => Some(ContentBlock::Text { text }),
                None => None,
            }
        } else if str_eq(t, "tool_use") {
            read_tool_use(j)
        } else if str_eq(t, "tool_result") {
            read_tool_result(j)
        } else if str_eq(t, "thinking") {
            read_thinking(j)
        } else if str_eq(t, "image") {
            match read_source_member(j) {
                Some(source) => Some(ContentBlock::Image { source }),
                None => None,
            }
        } else {
            Some(ContentBlock::Unknown { value: j.duplicate() })
        },
        None => None,
    }
}

fn read_blocks(j: &Json) -> (r: Option<Vec<ContentBlock>>)
    requires
        j is Array,
    ensures
        match r {
            Some(v) => decode_blocks(j@->Array_0, j@->Array_0.len() as int) == Some(blocks(v@)),
            None => decode_blocks(j@->Array_0, j@->Array_0.len() as int) is None,
        },
{
    proof {
        lemma_array_view(*j);
    }
    let ghost views = j@->Array_0;
    match j {
        Json::Array(items) => {
            let mut out: Vec<ContentBlock> = Vec::new();
            let mut i: usize = 0;
            while i < items.len()
                invariant
                    i <= items.len(),
                    views == j@->Array_0,
                    views.len() == items@.len(),
                    forall|k: int| 0 <= k < items@.len() ==> views[k] == items@[k]@,
                    decode_blocks(views, i as int) == Some(blocks(out@)),
                decreases items.len() - i,
            {
                match read_content_block(&items[i]) {
                    Some(b) => {
                        let ghost before = blocks(out@);
                        out.push(b);
                        assert(blocks(out@) =~= before.push(b@));
                    },
                    None => {
                        proof {
                            assert(decode_blocks(views, i + 1) is None);
                            lemma_blocks_stay_malformed(views, i + 1, views.len() as int);
                        }
                        return None;
                    },
                }
                i += 1;
            }
            Some(out)
        },
        _ => None,
    }
}

fn read_delta(j: &Json) -> (r: Option<ContentDelta>)
    ensures
        match r {
            Some(d) => decode_delta(j@) == Some(d@),
            None => decode_delta(j@) is None,
        },
{
    match j.get_str("type") {
        Some(t) => if str_eq(t, "text_delta") {
            match read_text(j, "text") {
                Some(text) => Some(ContentDelta::TextDelta { text }),
                None => None,
            }
        } else if str_eq(t, "input_json_delta") {
            match read_text(j, "partial_json") {
                Some(partial_json) => Some(ContentDelta::InputJsonDelta { partial_json }),
                None => None,
            }
        } else if str_eq(t, "thinking_delta") {
            match read_text(j, "thinking") {
                Some(thinking) => Some(ContentDelta::ThinkingDelta { thinking }),
                None => None,
            }
        } else if str_eq(t, "signature_delta") {
            match read_text(j, "signature") {
                Some(signature) => Some(ContentDelta::SignatureDelta { signature }),
                None => None,
            }
        } else {
            None
        },
        None => None,
    }
}

pub fn read_content_member(j: &Json) -> (r: Option<Vec<ContentBlock>>)
    ensures
        match r {
            Some(v) => decode_content_member(j@) == Some(blocks(v@)),
            None => decode_content_member(j@) is None,
        },
{
    match j.get("content") {
        Some(c) => match c {
            Json::Array(_) => read_blocks(c),
            _ => None,
        },
        None => None,
    }
}

pub fn read_role_member(j: &Json) -> (r: Option<Role>)
    ensures
        r == decode_role_member(j@),
{
    match j.get("role") {
        Some(r) => read_role(r),
        None => None,
    }
}

fn read_usage_member(j: &Json) -> (r: Option<Usage>)
    ensures
        r == decode_usage_member(j@),
{
    match j.get("usage") {
        Some(u) => read_usage(u),
        None => None,
    }
}

fn read_response(j: &Json) -> (r: Option<CreateMessageResponse>)
    ensures
        match r {
            Some(m) => decode_response(j@) == Some(m@),
            None => decode_response(j@) is None,
        },
{
    let id = read_text(j, "id");
    let response_type = read_text(j, "type");
    let role = read_role_member(j);
    let content = read_content_member(j);
    let model = read_text(j, "model");
    let stop_reason = read_opt_stop_reason(j, "stop_reason");
    let usage = read_usage_member(j);
    match (id, response_type, role, content, model, stop_reason, usage) {
        (
            Some(id),
            Some(response_type),
            Some(role),
            Some(content),
            Some(model),
            Some(stop_reason),
            Some(usage),
        ) => Some(
            CreateMessageResponse { id, response_type, role, content, model, stop_reason, usage },
        ),
        _ => None,
    }
}

fn read_error_body(j: &Json) -> (r: Option<ApiErrorResponse>)
    ensures
        match r {
            Some(e) => decode_error_body(j@) == Some(e@),
            None => decode_error_body(j@) is None,
        },
{
    let error_type = read_text(j, "type");
    let message = read_text(j, "message");
    match (error_type, message) {
        (Some(error_type), Some(message)) => Some(ApiErrorResponse { error_type, message }),
        _ => None,
    }
}

fn read_index(j: &Json) -> (r: Option<usize>)
    ensures
        r == decode_index(j@),
{
    match j.get("index") {
        Some(v) => match v.as_u64() {
            Some(u) => if u <= usize::MAX as u64 {
                Some(u as usize)
            } else {
                None
            },
            None => None,
        },
        None => None,
    }
}

fn read_opt_usage(j: &Json) -> (r: Option<Option<Usage>>)
    ensures
        r == decode_opt_usage(j@),
{
    match read_present(j, "usage") {
        None => Some(None),
        Some(u) => match read_usage(u) {
            Some(usage) => Some(Some(usage)),
            None => None,
        },
    }
}

/// Decodes the JSON value of a record of type `t`.
fn read_json_event(t: &str, j: &Json) -> (r: Option<StreamEvent>)
    requires
        carries_json(t@),
    ensures
        match r {
            Some(e) => decode_json_event(t@, j@) == Some(e@),
            None => decode_json_event(t@, j@) is None,
        },
{
    if str_eq(t, "message_start") {
        match j.get("message") {
            Some(m) => match read_response(m) {
                Some(message) => Some(StreamEvent::MessageStart { message }),
                None => None,
            },
            None => None,
        }
    } else if str_eq(t, "content_block_start") {
        match (read_index(j), j.get("content_block")) {
            (Some(index), Some(b)) => match read_content_block(b) {
                Some(content_block) => Some(StreamEvent::ContentBlockStart { index, content_block }),
                None => None,
            },
            _ => None,
        }
    } else if str_eq(t, "content_block_delta") {
        match (read_index(j), j.get("delta")) {
            (Some(index), Some(d)) => match read_delta(d) {
                Some(delta) => Some(StreamEvent::ContentBlockDelta { index, delta }),
                None => None,
            },
            _ => None,
        }
    } else if str_eq(t, "content_block_stop") {
        match read_index(j) {
            Some(index) => Some(StreamEvent::ContentBlockStop { index }),
            None => None,
        }
    } else if str_eq(t, "message_delta") {
        match j.get("delta") {
            Some(d) => {
                match d {
                    Json::Object(_) => {},
                    _ => {
                        return None;
                    },
                }
                match (read_opt_stop_reason(d, "stop_reason"), read_opt_usage(j)) {
                    (Some(stop_reason), Some(usage)) => Some(
                        StreamEvent::MessageDelta { delta: MessageDelta { stop_reason }, usage },
                    ),
                    _ => None,
                }
            },
            None => None,
        }
    } else {
        match j.get("error") {
            Some(e) => match read_error_body(e) {
                Some(error) => Some(StreamEvent::Error { error }),
                None => None,
            },
            None => None,
        }
    }
}

/// True for the event types whose data is read as JSON.
fn has_json_data(t: &str) -> (r: bool)
    ensures
        r == carries_json(t@),
{
    str_eq(t, "message_start") || str_eq(t, "content_block_start") || str_eq(
        t,
        "content_block_delta",
    ) || str_eq(t, "content_block_stop") || str_eq(t, "message_delta") || str_eq(t, "error")
}

/// The message of the error that a malformed record of type `t` raises.
pub open spec fn malformed_text(t: Seq<char>) -> Seq<char> {
    t + ": malformed event data"@
}

/// Decodes one record of the stream. A record without an event type, or
/// with one that the protocol does not know, gives no event. A record
/// whose data does not fit its type gives a stream parse error.
pub fn parse_stream_event(event_type: &Option<String>, data: &str) -> (r: Result<
    Option<StreamEvent>,
    ApiError,
>)
    ensures
        match r {
            Ok(Some(e)) => decode_record(opt_type(*event_type), data@) == Decoded::Event(e@),
            Ok(None) => decode_record(opt_type(*event_type), data@) is Skipped,
            Err(e) => decode_record(opt_type(*event_type), data@) is Malformed && (
            e matches ApiError::StreamParse(m) && event_type matches Some(t) && m@
                == malformed_text(t@)),
        },
{
    let t = match event_type {
        Some(t) => t.as_str(),
        None => {
            return Ok(None);
        },
    };
    if has_json_data(t) {
        let decoded = match Json::parse(data) {
            Some(j) => read_json_event(t, &j),
            None => None,
        };
        match decoded {
            Some(e) => Ok(Some(e)),
            None => Err(ApiError::StreamParse(join2(t, ": malformed event data"))),
        }
    } else if str_eq(t, "message_stop") {
        Ok(Some(StreamEvent::MessageStop))
    } else if str_eq(t, "ping") {
        Ok(Some(StreamEvent::Ping))
    } else {
        Ok(None)
    }
}

/// The view of an optional event type.
pub open spec fn opt_type(o: Option<String>) -> Option<Seq<char>> {
    match o {
        Some(s) => Some(s@),
        None => None,
    }
}


/// An item that waits in the queue of a stream: an event, or the stream
/// parse error of a malformed record with its message.
pub enum Waiting {
    Event(StreamEventView),
    ParseError(Seq<char>),
    /// Any other error; no record gives one.
    OtherError,
}

/// What a record leaves in the queue: its event; for a malformed record
/// the stream parse error that names its type; nothing for a record that
/// is passed over.
pub open spec fn queued(r: SseRecord) -> Option<Waiting> {
    match decode_record(r.event_type, r.data) {
        Decoded::Event(e) => Some(Waiting::Event(e)),
        Decoded::Malformed => Some(
            Waiting::ParseError(
                malformed_text(
                    match r.event_type {
                        Some(t) => t,
                        None => Seq::empty(),
                    },
                ),
            ),
        ),
        Decoded::Skipped => None,
    }
}

/// What the first `n` records leave in the queue, in order; records that
/// are passed over leave no trace.
pub open spec fn decoded_items(recs: Seq<SseRecord>, n: int) -> Seq<Waiting>
    decreases n,
{
    if n <= 0 {
        Seq::empty()
    } else {
        let head = decoded_items(recs, n - 1);
        match queued(recs[n - 1]) {
            Some(w) => head.push(w),
            None => head,
        }
    }
}

/// What an item of the queue stands for.
pub open spec fn item_view(item: Result<StreamEvent, ApiError>) -> Waiting {
    match item {
        Ok(e) => Waiting::Event(e@),
        Err(ApiError::StreamParse(m)) => Waiting::ParseError(m@),
        Err(_) => Waiting::OtherError,
    }
}

/// What the items of the queue stand for.
pub open spec fn item_views(items: Seq<Result<StreamEvent, ApiError>>) -> Seq<Waiting> {
    items.map_values(|r: Result<StreamEvent, ApiError>| item_view(r))
}

/// The typed events of a response stream: takes the body in as chunks of
/// bytes and hands the decoded events out one by one, in the order of the
/// stream.
pub struct MessageStream {
    parser: SseParser,
    pending: Vec<Result<StreamEvent, ApiError>>,
}

impl MessageStream {
    /// The bytes that no blank line has completed yet.
    pub closed spec fn buffered(&self) -> Seq<u8> {
        self.parser@
    }

    /// The decoded items that wait to be handed out, oldest first.
    pub closed spec fn queue(&self) -> Seq<Waiting> {
        item_views(self.pending@)
    }

    /// A stream that has received nothing.
    pub fn new() -> (s: Self)
        ensures
            s.buffered() == Seq::<u8>::empty(),
            s.queue() == Seq::<Waiting>::empty(),
    {
        let s = MessageStream { parser: SseParser::new(), pending: Vec::new() };
        assert(s.queue() =~= Seq::<Waiting>::empty());
        s
    }

    /// Takes in the next chunk of the body. Every record that it completes
    /// is decoded and queued behind what waits already.
    pub fn push_chunk(&mut self, chunk: &[u8])
        ensures
            final(self).buffered() == crate::sse::rest_of(old(self).buffered() + chunk@),
            final(self).queue() == old(self).queue() + decoded_items(
                crate::sse::events_of(old(self).buffered() + chunk@),
                crate::sse::events_of(old(self).buffered() + chunk@).len() as int,
            ),
    {
        let events = self.parser.feed_bytes(chunk);
        let ghost recs = records(events@);
        let ghost before = item_views(self.pending@);
        let ghost rest = self.parser@;
        let mut i: usize = 0;
        assert(before + decoded_items(recs, 0) =~= before);
        while i < events.len()
            invariant
                i <= events.len(),
                recs == records(events@),
                self.parser@ == rest,
                item_views(self.pending@) == before + decoded_items(recs, i as int),
            decreases events.len() - i,
        {
            let ghost queue = item_views(self.pending@);
            assert(recs[i as int] == events@[i as int]@);
            match parse_stream_event(&events[i].event_type, events[i].data.as_str()) {
                Ok(Some(e)) => {
                    self.pending.push(Ok(e));
                    assert(item_views(self.pending@) =~= queue.push(Waiting::Event(e@)));
                },
                Ok(None) => {},
                Err(e) => {
                    self.pending.push(Err(e));
                    assert(e matches ApiError::StreamParse(m) && m@ == malformed_text(
                        recs[i as int].event_type->0,
                    ));
                    assert(item_views(self.pending@) =~= queue.push(
                        Waiting::ParseError(malformed_text(recs[i as int].event_type->0)),
                    ));
                },
            }
            assert(item_views(self.pending@) =~= before + decoded_items(recs, i + 1));
            i += 1;
        }
    }

    /// Hands out the oldest item that waits, if any.
    pub fn next_event(&mut self) -> (r: Option<Result<StreamEvent, ApiError>>)
        ensures
            final(self).buffered() == old(self).buffered(),
            match r {
                Some(item) => old(self).queue().len() > 0 && item_view(item) == old(
                    self,
                ).queue()[0] && final(self).queue() == old(self).queue().drop_first(),
                None => old(self).queue().len() == 0 && final(self).queue() == old(self).queue(),
            },
    {
        if self.pending.len() == 0 {
            None
        } else {
            let ghost before = self.pending@;
            let item = self.pending.remove(0);
            assert(item_views(self.pending@) =~= item_views(before).drop_first());
            Some(item)
        }
    }

    /// True when no decoded item waits.
    pub fn is_idle(&self) -> (r: bool)
        ensures
            r == (self.queue().len() == 0),
    {
        self.pending.len() == 0
    }
}

} // verus!
