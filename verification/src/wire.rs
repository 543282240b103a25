//! The JSON form of messages and requests, and the proof that a message
//! survives the way to JSON and back.

use crate::json::{member_views, Json, JsonNumber, JsonNumberView, JsonView};
use crate::message::{
    blocks, opt_text, result_items, CacheControl, ContentBlock, ContentBlockView,
    CreateMessageRequest, ImageSource, ImageSourceType, ImageSourceView, Message, MessageView,
    Role, SystemContent, ThinkingConfig, ToolDefinition, ToolResultContent,
    ToolResultContentView,
};
use crate::agent::model::HookInputView;
use crate::permissions::types::{HookEvent, HookInput};
use crate::stream::{
    decode_content_block, decode_image_source,
    decode_opt_bool, decode_opt_text, decode_result_item, decode_result_items, decode_role_member,
    decode_source_member, decode_thinking, decode_tool_result, decode_tool_use, present,
    read_content_block, read_opt_bool, read_opt_text,
};
use vstd::prelude::*;
use vstd::string::*;

verus! {

/// A JSON string.
pub open spec fn text_value(s: Seq<char>) -> JsonView {
    JsonView::String(s)
}

pub open spec fn encode_source_type(t: ImageSourceType) -> Seq<char> {
    match t {
        ImageSourceType::Base64 => "base64"@,
        ImageSourceType::Url => "url"@,
    }
}

pub open spec fn encode_image_source(s: ImageSourceView) -> JsonView {
    JsonView::Object(
        seq![
            ("type"@, text_value(encode_source_type(s.source_type))),
            ("media_type"@, text_value(s.media_type)),
            ("data"@, text_value(s.data)),
        ],
    )
}

pub open spec fn encode_result_item(c: ToolResultContentView) -> JsonView {
    match c {
        ToolResultContentView::Text { text } => JsonView::Object(
            seq![("type"@, text_value("text"@)), ("text"@, text_value(text))],
        ),
        ToolResultContentView::Image { source } => JsonView::Object(
            seq![("type"@, text_value("image"@)), ("source"@, encode_image_source(source))],
        ),
    }
}

/// The members that an optional member adds to an object: none when it is
/// absent.
pub open spec fn optional_member(key: Seq<char>, value: Option<JsonView>) -> Seq<
    (Seq<char>, JsonView),
> {
    match value {
        Some(v) => seq![(key, v)],
        None => Seq::empty(),
    }
}

pub open spec fn encode_opt_bool(b: Option<bool>) -> Option<JsonView> {
    match b {
        Some(v) => Some(JsonView::Bool(v)),
        None => None,
    }
}

pub open spec fn encode_opt_text(t: Option<Seq<char>>) -> Option<JsonView> {
    match t {
        Some(v) => Some(text_value(v)),
        None => None,
    }
}

pub open spec fn encode_block(b: ContentBlockView) -> JsonView {
    match b {
        ContentBlockView::Text { text } => JsonView::Object(
            seq![("type"@, text_value("text"@)), ("text"@, text_value(text))],
        ),
        ContentBlockView::ToolUse { id, name, input } => JsonView::Object(
            seq![
                ("type"@, text_value("tool_use"@)),
                ("id"@, text_value(id)),
                ("name"@, text_value(name)),
                ("input"@, input),
            ],
        ),
        ContentBlockView::ToolResult { tool_use_id, content, is_error } => JsonView::Object(
            seq![
                ("type"@, text_value("tool_result"@)),
                ("tool_use_id"@, text_value(tool_use_id)),
                ("content"@, JsonView::Array(content.map_values(|c| encode_result_item(c)))),
            ] + optional_member("is_error"@, encode_opt_bool(is_error)),
        ),
        ContentBlockView::Thinking { thinking, signature } => JsonView::Object(
            seq![("type"@, text_value("thinking"@)), ("thinking"@, text_value(thinking))]
                + optional_member("signature"@, encode_opt_text(signature)),
        ),
        ContentBlockView::Image { source } => JsonView::Object(
            seq![("type"@, text_value("image"@)), ("source"@, encode_image_source(source))],
        ),
        ContentBlockView::Unknown { value } => value,
    }
}

/// The number of the members of an object; -1 for any other value.
pub open spec fn member_total(j: JsonView) -> int {
    match j {
        JsonView::Object(members) => members.len() as int,
        _ => -1,
    }
}

/// True when an image source holds its three members and no other.
pub open spec fn source_is_plain(j: JsonView) -> bool {
    member_total(j) == 3
}

/// True when an item of a tool result holds the two members of its kind
/// and no other, and its source, where it has one, likewise.
pub open spec fn item_is_plain(j: JsonView) -> bool {
    member_total(j) == 2 && match j.field("source"@) {
        Some(s) => source_is_plain(s),
        None => true,
    }
}

/// True when the value `j`, which reads as the block `b`, holds the
/// members of `b` and no other, down to the items of a tool result and
/// the source of an image: nothing of `j` is lost in `b`.
pub open spec fn block_is_plain(j: JsonView, b: ContentBlockView) -> bool {
    match b {
        ContentBlockView::Text { .. } => member_total(j) == 2,
        ContentBlockView::ToolUse { .. } => member_total(j) == 4,
        ContentBlockView::ToolResult { is_error, .. } => member_total(j) == (if is_error
            is Some {
            4int
        } else {
            3int
        }) && match j.field("content"@) {
            Some(JsonView::Array(items)) => forall|k: int|
                0 <= k < items.len() ==> item_is_plain(#[trigger] items[k]),
            _ => false,
        },
        ContentBlockView::Thinking { signature, .. } => member_total(j) == (if signature
            is Some {
            3int
        } else {
            2int
        }),
        ContentBlockView::Image { .. } => member_total(j) == 2 && match j.field("source"@) {
            Some(s) => source_is_plain(s),
            None => false,
        },
        ContentBlockView::Unknown { .. } => true,
    }
}

/// The block that a stored value stands for. Every object is a block and
/// nothing of it is dropped: where it reads as a known block and holds
/// no more than that block, it is that block; any other object is kept
/// whole, as an unknown block. A value that is no object is no block.
pub open spec fn decode_stored_block(j: JsonView) -> Option<ContentBlockView> {
    if j is Object {
        match decode_content_block(j) {
            Some(b) => if block_is_plain(j, b) {
                Some(b)
            } else {
                Some(ContentBlockView::Unknown { value: j })
            },
            None => Some(ContentBlockView::Unknown { value: j }),
        }
    } else {
        None
    }
}

/// The first `n` stored blocks; none as soon as one of them is no block.
pub open spec fn decode_stored_blocks(items: Seq<JsonView>, n: int) -> Option<
    Seq<ContentBlockView>,
>
    decreases n,
{
    if n <= 0 {
        Some(Seq::empty())
    } else {
        match (decode_stored_blocks(items, n - 1), decode_stored_block(items[n - 1])) {
            (Some(head), Some(last)) => Some(head.push(last)),
            _ => None,
        }
    }
}

/// The stored content blocks at the member `content`.
pub open spec fn decode_stored_content(j: JsonView) -> Option<Seq<ContentBlockView>> {
    match j.field("content"@) {
        Some(JsonView::Array(items)) => decode_stored_blocks(items, items.len() as int),
        _ => None,
    }
}

/// True when a block can be stored and read back: an unknown block holds
/// a value that is read as that unknown block. Every block that was read
/// from storage is such a block.
pub open spec fn block_wf(b: ContentBlockView) -> bool {
    match b {
        ContentBlockView::Unknown { value } => decode_stored_block(value) == Some(b),
        _ => true,
    }
}

pub open spec fn encode_role(r: Role) -> Seq<char> {
    match r {
        Role::User => "user"@,
        Role::Assistant => "assistant"@,
    }
}

pub open spec fn encode_blocks(items: Seq<ContentBlockView>) -> Seq<JsonView> {
    items.map_values(|b| encode_block(b))
}

/// The JSON form of a message.
pub open spec fn encode_message(m: MessageView) -> JsonView {
    JsonView::Object(
        seq![
            ("role"@, text_value(encode_role(m.role))),
            ("content"@, JsonView::Array(encode_blocks(m.content))),
        ],
    )
}

/// The message that a JSON value stands for; none where the value has not
/// the shape of a message.
pub open spec fn decode_message(j: JsonView) -> Option<MessageView> {
    match (decode_role_member(j), decode_stored_content(j)) {
        (Some(role), Some(content)) => Some(MessageView { role, content }),
        _ => None,
    }
}


/// The words of the wire format are pairwise different where the format
/// relies on it.
pub proof fn lemma_wire_words()
    ensures
        "type"@.len() == 4,
        "text"@.len() == 4,
        "id"@.len() == 2,
        "name"@.len() == 4,
        "input"@.len() == 5,
        "tool_use_id"@.len() == 11,
        "content"@.len() == 7,
        "is_error"@.len() == 8,
        "thinking"@.len() == 8,
        "signature"@.len() == 9,
        "source"@.len() == 6,
        "media_type"@.len() == 10,
        "data"@.len() == 4,
        "role"@.len() == 4,
        "tool_use"@.len() == 8,
        "tool_result"@.len() == 11,
        "image"@.len() == 5,
        "base64"@.len() == 6,
        "url"@.len() == 3,
        "user"@.len() == 4,
        "assistant"@.len() == 9,
        "text"@ != "type"@,
        "name"@ != "type"@,
        "data"@ != "type"@,
        "thinking"@ != "tool_use"@,
{
    reveal_strlit("type");
    reveal_strlit("text");
    reveal_strlit("id");
    reveal_strlit("name");
    reveal_strlit("input");
    reveal_strlit("tool_use_id");
    reveal_strlit("content");
    reveal_strlit("is_error");
    reveal_strlit("thinking");
    reveal_strlit("signature");
    reveal_strlit("source");
    reveal_strlit("media_type");
    reveal_strlit("data");
    reveal_strlit("role");
    reveal_strlit("tool_use");
    reveal_strlit("tool_result");
    reveal_strlit("image");
    reveal_strlit("base64");
    reveal_strlit("url");
    reveal_strlit("user");
    reveal_strlit("assistant");
    assert("text"@[1] != "type"@[1]);
    assert("name"@[0] != "type"@[0]);
    assert("data"@[0] != "type"@[0]);
    assert("thinking"@[1] != "tool_use"@[1]);
}

/// An image source survives the way to JSON and back.
pub proof fn lemma_source_round_trip(s: ImageSourceView)
    ensures
        decode_image_source(encode_image_source(s)) == Some(s),
{
    lemma_wire_words();
    reveal_with_fuel(crate::json::member_from, 4);
}

/// An item of a tool result survives the way to JSON and back.
pub proof fn lemma_result_item_round_trip(c: ToolResultContentView)
    ensures
        decode_result_item(encode_result_item(c)) == Some(c),
{
    lemma_wire_words();
    reveal_with_fuel(crate::json::member_from, 4);
    match c {
        ToolResultContentView::Text { .. } => {},
        ToolResultContentView::Image { source } => {
            lemma_source_round_trip(source);
        },
    }
}

/// The items of a tool result survive the way to JSON and back.
pub proof fn lemma_result_items_round_trip(items: Seq<ToolResultContentView>, n: int)
    requires
        0 <= n <= items.len(),
    ensures
        decode_result_items(items.map_values(|c| encode_result_item(c)), n) == Some(
            items.subrange(0, n),
        ),
    decreases n,
{
    let encoded = items.map_values(|c| encode_result_item(c));
    if n > 0 {
        lemma_result_items_round_trip(items, n - 1);
        lemma_result_item_round_trip(items[n - 1]);
        assert(encoded[n - 1] == encode_result_item(items[n - 1]));
        assert(items.subrange(0, n - 1).push(items[n - 1]) =~= items.subrange(0, n));
    } else {
        assert(items.subrange(0, 0) =~= Seq::<ToolResultContentView>::empty());
    }
}

/// The JSON form of an item of a tool result holds no more than the
/// item.
proof fn lemma_encoded_item_is_plain(c: ToolResultContentView)
    ensures
        item_is_plain(encode_result_item(c)),
{
    lemma_wire_words();
    reveal_with_fuel(crate::json::member_from, 4);
}

/// A known block survives the way to JSON and back on the stream.
pub proof fn lemma_known_block_round_trip(b: ContentBlockView)
    requires
        !(b is Unknown),
    ensures
        decode_content_block(encode_block(b)) == Some(b),
        block_is_plain(encode_block(b), b),
{
    lemma_wire_words();
    reveal_with_fuel(crate::json::member_from, 5);
    let j = encode_block(b);
    match b {
        ContentBlockView::Text { .. } => {},
        ContentBlockView::ToolUse { .. } => {
            assert(decode_tool_use(j) == Some(b));
        },
        ContentBlockView::ToolResult { tool_use_id, content, is_error } => {
            lemma_result_items_round_trip(content, content.len() as int);
            assert(content.subrange(0, content.len() as int) =~= content);
            let encoded = content.map_values(|c| encode_result_item(c));
            assert(j.field("content"@) == Some(JsonView::Array(encoded)));
            assert(decode_opt_bool(j, "is_error"@) == Some(is_error));
            assert(decode_tool_result(j) == Some(b));
            assert forall|k: int| 0 <= k < encoded.len() implies item_is_plain(
                #[trigger] encoded[k],
            ) by {
                lemma_encoded_item_is_plain(content[k]);
            }
        },
        ContentBlockView::Thinking { thinking, signature } => {
            assert(decode_opt_text(j, "signature"@) == Some(signature));
            assert(decode_thinking(j) == Some(b));
        },
        ContentBlockView::Image { source } => {
            lemma_source_round_trip(source);
            assert(decode_source_member(j) == Some(source));
        },
        ContentBlockView::Unknown { .. } => {},
    }
}

/// A content block survives the way to storage and back: a known block
/// with everything it holds, an unknown block as the value that it is.
pub proof fn lemma_block_round_trip(b: ContentBlockView)
    requires
        block_wf(b),
    ensures
        decode_stored_block(encode_block(b)) == Some(b),
{
    if !(b is Unknown) {
        lemma_known_block_round_trip(b);
    }
}

/// Nothing of a stored object is dropped: it is read as a block, and
/// where that block is an unknown block, writing it gives the object
/// back unchanged.
pub proof fn lemma_stored_object_is_kept(j: JsonView)
    requires
        j is Object,
    ensures
        decode_stored_block(j) matches Some(b) && block_wf(b) && (b is Unknown ==> encode_block(b)
            == j) && (!(b is Unknown) ==> decode_content_block(j) == Some(b) && block_is_plain(
            j,
            b,
        )),
{
}

/// A run of content blocks survives the way to storage and back.
pub proof fn lemma_blocks_round_trip(items: Seq<ContentBlockView>, n: int)
    requires
        0 <= n <= items.len(),
        forall|k: int| 0 <= k < items.len() ==> block_wf(#[trigger] items[k]),
    ensures
        decode_stored_blocks(encode_blocks(items), n) == Some(items.subrange(0, n)),
    decreases n,
{
    if n > 0 {
        lemma_blocks_round_trip(items, n - 1);
        lemma_block_round_trip(items[n - 1]);
        assert(encode_blocks(items)[n - 1] == encode_block(items[n - 1]));
        assert(items.subrange(0, n - 1).push(items[n - 1]) =~= items.subrange(0, n));
    } else {
        assert(items.subrange(0, 0) =~= Seq::<ContentBlockView>::empty());
    }
}

/// A message turned into JSON and read back is the same message: its
/// role, and its content blocks with everything they hold, in order; an
/// unknown block comes back as the value that it holds.
pub proof fn lemma_message_round_trip(m: MessageView)
    requires
        forall|k: int| 0 <= k < m.content.len() ==> block_wf(#[trigger] m.content[k]),
    ensures
        decode_message(encode_message(m)) == Some(m),
{
    lemma_wire_words();
    reveal_with_fuel(crate::json::member_from, 3);
    lemma_blocks_round_trip(m.content, m.content.len() as int);
    assert(m.content.subrange(0, m.content.len() as int) =~= m.content);
    let j = encode_message(m);
    assert(j.field("content"@) == Some(JsonView::Array(encode_blocks(m.content))));
    assert(decode_stored_content(j) == Some(m.content));
    assert(decode_role_member(j) == Some(m.role));
}

/// Once a prefix of the stored items holds a value that is no block, so
/// does every longer one.
proof fn lemma_stored_blocks_stay_none(items: Seq<JsonView>, n: int, m: int)
    requires
        n <= m,
        decode_stored_blocks(items, n) is None,
    ensures
        decode_stored_blocks(items, m) is None,
    decreases m - n,
{
    if n < m {
        lemma_stored_blocks_stay_none(items, n, m - 1);
    }
}

/// The number of the members of an object.
fn count_members(j: &Json) -> (r: Option<usize>)
    ensures
        match r {
            Some(n) => member_total(j@) == n,
            None => member_total(j@) == -1,
        },
{
    match j {
        Json::Object(members) => {
            proof {
                crate::json::lemma_object_view(*j);
            }
            Some(members.len())
        },
        _ => None,
    }
}

/// Tells whether a value is an object of `n` members.
fn has_members(j: &Json, n: usize) -> (r: bool)
    ensures
        r == (member_total(j@) == n),
{
    match count_members(j) {
        Some(m) => m == n,
        None => false,
    }
}

fn item_plain(j: &Json) -> (r: bool)
    ensures
        r == item_is_plain(j@),
{
    has_members(j, 2) && match j.get("source") {
        Some(s) => has_members(s, 3),
        None => true,
    }
}

fn items_plain(j: &Json) -> (r: bool)
    ensures
        r == match j@ {
            JsonView::Array(items) => forall|k: int|
                0 <= k < items.len() ==> item_is_plain(#[trigger] items[k]),
            _ => false,
        },
{
    match j {
        Json::Array(items) => {
            proof {
                crate::json::lemma_array_view(*j);
            }
            let ghost views = j@->Array_0;
            let mut i: usize = 0;
            while i < items.len()
                invariant
                    i <= items@.len(),
                    views.len() == items@.len(),
                    forall|k: int| 0 <= k < items@.len() ==> views[k] == items@[k]@,
                    forall|k: int| 0 <= k < i ==> item_is_plain(#[trigger] views[k]),
                    j@ is Array,
                    views == j@->Array_0,
                decreases items.len() - i,
            {
                if !item_plain(&items[i]) {
                    assert(!item_is_plain(views[i as int]));
                    return false;
                }
                i += 1;
            }
            true
        },
        _ => false,
    }
}

/// Tells whether the value `j`, read as the block `b`, holds no more
/// than `b`.
fn block_plain(j: &Json, b: &ContentBlock) -> (r: bool)
    ensures
        r == block_is_plain(j@, b@),
{
    match b {
        ContentBlock::Text { .. } => has_members(j, 2),
        ContentBlock::ToolUse { .. } => has_members(j, 4),
        ContentBlock::ToolResult { is_error, .. } => {
            let n: usize = if is_error.is_some() {
                4
            } else {
                3
            };
            has_members(j, n) && match j.get("content") {
                Some(items) => items_plain(items),
                None => false,
            }
        },
        ContentBlock::Thinking { signature, .. } => {
            let n: usize = if signature.is_some() {
                3
            } else {
                2
            };
            has_members(j, n)
        },
        ContentBlock::Image { .. } => has_members(j, 2) && match j.get("source") {
            Some(s) => has_members(s, 3),
            None => false,
        },
        ContentBlock::Unknown { .. } => true,
    }
}

/// Reads a stored content block: every object is a block, and nothing
/// of it is dropped.
pub fn read_stored_block(j: &Json) -> (r: Option<ContentBlock>)
    ensures
        match r {
            Some(b) => decode_stored_block(j@) == Some(b@),
            None => decode_stored_block(j@) is None,
        },
{
    if count_members(j).is_none() {
        return None;
    }
    match read_content_block(j) {
        Some(b) => if block_plain(j, &b) {
            Some(b)
        } else {
            Some(ContentBlock::Unknown { value: j.duplicate() })
        },
        None => Some(ContentBlock::Unknown { value: j.duplicate() }),
    }
}

/// Reads the stored content blocks at the member `content`.
pub fn read_stored_content(j: &Json) -> (r: Option<Vec<ContentBlock>>)
    ensures
        match r {
            Some(v) => decode_stored_content(j@) == Some(blocks(v@)),
            None => decode_stored_content(j@) is None,
        },
{
    let list = match j.get("content") {
        Some(c) => c,
        None => {
            return None;
        },
    };
    match list {
        Json::Array(items) => {
            proof {
                crate::json::lemma_array_view(*list);
            }
            let ghost views = list@->Array_0;
            let mut out: Vec<ContentBlock> = Vec::new();
            let mut i: usize = 0;
            assert(blocks(out@) =~= Seq::<ContentBlockView>::empty());
            while i < items.len()
                invariant
                    i <= items@.len(),
                    views.len() == items@.len(),
                    forall|k: int| 0 <= k < items@.len() ==> views[k] == items@[k]@,
                    decode_stored_blocks(views, i as int) == Some(blocks(out@)),
                    decode_stored_content(j@) == decode_stored_blocks(views, views.len() as int),
                decreases items.len() - i,
            {
                match read_stored_block(&items[i]) {
                    Some(b) => {
                        let ghost before = blocks(out@);
                        out.push(b);
                        assert(blocks(out@) =~= before.push(b@));
                    },
                    None => {
                        proof {
                            assert(decode_stored_blocks(views, i + 1) is None);
                            lemma_stored_blocks_stay_none(views, i + 1, views.len() as int);
                        }
                        return None;
                    },
                }
                i += 1;
            }
            Some(out)
        },
        _ => None,
    }
}

/// Adds the member `key` to `members` where `value` is there.
fn push_optional(members: &mut Vec<(String, Json)>, key: &str, value: Option<Json>)
    ensures
        member_views(final(members)@) == member_views(old(members)@) + optional_member(
            key@,
            match value {
                Some(v) => Some(v@),
                None => None,
            },
        ),
{
    let ghost before = member_views(members@);
    match value {
        Some(v) => {
            members.push((key.to_owned(), v));
            assert(member_views(members@) =~= before + seq![(key@, v@)]);
        },
        None => {
            assert(before + Seq::<(Seq<char>, JsonView)>::empty() =~= before);
        },
    }
}

/// Adds the member `key` with the value `value` to `members`.
fn push_member(members: &mut Vec<(String, Json)>, key: &str, value: Json)
    ensures
        member_views(final(members)@) == member_views(old(members)@).push((key@, value@)),
{
    let ghost before = member_views(members@);
    members.push((key.to_owned(), value));
    assert(member_views(members@) =~= before.push((key@, value@)));
}

impl ImageSource {
    /// The JSON form of the source.
    pub fn to_json(&self) -> (j: Json)
        ensures
            j@ == encode_image_source(self@),
    {
        let kind = match self.source_type {
            ImageSourceType::Base64 => "base64",
            ImageSourceType::Url => "url",
        };
        let mut members: Vec<(String, Json)> = Vec::new();
        assert(member_views(members@) =~= Seq::<(Seq<char>, JsonView)>::empty());
        push_member(&mut members, "type", Json::text(kind));
        push_member(&mut members, "media_type", Json::text(self.media_type.as_str()));
        push_member(&mut members, "data", Json::text(self.data.as_str()));
        let j = Json::object(members);
        assert(j@->Object_0 =~= encode_image_source(self@)->Object_0);
        j
    }
}

impl ToolResultContent {
    /// The JSON form of the item.
    pub fn to_json(&self) -> (j: Json)
        ensures
            j@ == encode_result_item(self@),
    {
        let mut members: Vec<(String, Json)> = Vec::new();
        assert(member_views(members@) =~= Seq::<(Seq<char>, JsonView)>::empty());
        match self {
            ToolResultContent::Text { text } => {
                push_member(&mut members, "type", Json::text("text"));
                push_member(&mut members, "text", Json::text(text.as_str()));
            },
            ToolResultContent::Image { source } => {
                push_member(&mut members, "type", Json::text("image"));
                push_member(&mut members, "source", source.to_json());
            },
        }
        let j = Json::object(members);
        assert(j@->Object_0 =~= encode_result_item(self@)->Object_0);
        j
    }
}

/// The JSON forms of the items of a tool result.
fn result_items_to_json(items: &Vec<ToolResultContent>) -> (j: Json)
    ensures
        j@ == JsonView::Array(result_items(items@).map_values(|c| encode_result_item(c))),
{
    let mut out: Vec<Json> = Vec::new();
    let mut i: usize = 0;
    while i < items.len()
        invariant
            i <= items@.len(),
            out@.len() == i,
            forall|k: int| 0 <= k < i ==> out@[k]@ == encode_result_item(items@[k]@),
        decreases items.len() - i,
    {
        out.push(items[i].to_json());
        i += 1;
    }
    let j = Json::array(out);
    assert(j@->Array_0 =~= result_items(items@).map_values(|c| encode_result_item(c)));
    j
}

impl ContentBlock {
    /// The JSON form of the block.
    pub fn to_json(&self) -> (j: Json)
        ensures
            j@ == encode_block(self@),
    {
        let mut members: Vec<(String, Json)> = Vec::new();
        assert(member_views(members@) =~= Seq::<(Seq<char>, JsonView)>::empty());
        match self {
            ContentBlock::Unknown { value } => {
                return value.duplicate();
            },
            ContentBlock::Text { text } => {
                push_member(&mut members, "type", Json::text("text"));
                push_member(&mut members, "text", Json::text(text.as_str()));
            },
            ContentBlock::ToolUse { id, name, input } => {
                push_member(&mut members, "type", Json::text("tool_use"));
                push_member(&mut members, "id", Json::text(id.as_str()));
                push_member(&mut members, "name", Json::text(name.as_str()));
                push_member(&mut members, "input", input.duplicate());
            },
            ContentBlock::ToolResult { tool_use_id, content, is_error } => {
                push_member(&mut members, "type", Json::text("tool_result"));
                push_member(&mut members, "tool_use_id", Json::text(tool_use_id.as_str()));
                push_member(&mut members, "content", result_items_to_json(content));
                let flag = match is_error {
                    Some(b) => Some(Json::Bool(*b)),
                    None => None,
                };
                push_optional(&mut members, "is_error", flag);
            },
            ContentBlock::Thinking { thinking, signature } => {
                push_member(&mut members, "type", Json::text("thinking"));
                push_member(&mut members, "thinking", Json::text(thinking.as_str()));
                let sig = match signature {
                    Some(s) => Some(Json::text(s.as_str())),
                    None => None,
                };
                push_optional(&mut members, "signature", sig);
            },
            ContentBlock::Image { source } => {
                push_member(&mut members, "type", Json::text("image"));
                push_member(&mut members, "source", source.to_json());
            },
        }
        let j = Json::object(members);
        assert(j@->Object_0 =~= encode_block(self@)->Object_0);
        j
    }
}

/// The JSON forms of a run of content blocks.
fn blocks_to_json(items: &Vec<ContentBlock>) -> (j: Json)
    ensures
        j@ == JsonView::Array(encode_blocks(blocks(items@))),
{
    let mut out: Vec<Json> = Vec::new();
    let mut i: usize = 0;
    while i < items.len()
        invariant
            i <= items@.len(),
            out@.len() == i,
            forall|k: int| 0 <= k < i ==> out@[k]@ == encode_block(items@[k]@),
        decreases items.len() - i,
    {
        out.push(items[i].to_json());
        i += 1;
    }
    let j = Json::array(out);
    assert(j@->Array_0 =~= encode_blocks(blocks(items@)));
    j
}

impl Message {
    /// The JSON form of the message.
    pub fn to_json(&self) -> (j: Json)
        ensures
            j@ == encode_message(self@),
    {
        let role = match self.role {
            Role::User => "user",
            Role::Assistant => "assistant",
        };
        let mut members: Vec<(String, Json)> = Vec::new();
        assert(member_views(members@) =~= Seq::<(Seq<char>, JsonView)>::empty());
        push_member(&mut members, "role", Json::text(role));
        push_member(&mut members, "content", blocks_to_json(&self.content));
        let j = Json::object(members);
        assert(j@->Object_0 =~= encode_message(self@)->Object_0);
        j
    }

    /// Reads a message from its JSON form, as it is stored; none where
    /// the value has not the shape of a message. Every object among its
    /// content is read as a block, and nothing that it holds is dropped.
    pub fn from_json(j: &Json) -> (r: Option<Message>)
        ensures
            match r {
                Some(m) => decode_message(j@) == Some(m@),
                None => decode_message(j@) is None,
            },
    {
        let role = crate::stream::read_role_member(j);
        let content = read_stored_content(j);
        match (role, content) {
            (Some(role), Some(content)) => Some(Message { role, content }),
            _ => None,
        }
    }
}

/// The JSON forms of a conversation.
pub open spec fn encode_messages(messages: Seq<MessageView>) -> Seq<JsonView> {
    messages.map_values(|m| encode_message(m))
}

/// The JSON form of a cache marker.
pub open spec fn encode_cache(kind: Seq<char>) -> JsonView {
    JsonView::Object(seq![("type"@, text_value(kind))])
}

pub open spec fn encode_opt_cache(c: Option<CacheControl>) -> Option<JsonView> {
    match c {
        Some(c) => Some(encode_cache(c.cache_type@)),
        None => None,
    }
}

/// The JSON form of a block of the system prompt.
pub open spec fn encode_system(c: SystemContent) -> JsonView {
    JsonView::Object(
        seq![("type"@, text_value(c.content_type@)), ("text"@, text_value(c.text@))]
            + optional_member("cache_control"@, encode_opt_cache(c.cache_control)),
    )
}

/// The JSON form of a tool definition.
pub open spec fn encode_tool(d: ToolDefinition) -> JsonView {
    JsonView::Object(
        seq![
            ("name"@, text_value(d.name@)),
            ("description"@, text_value(d.description@)),
            ("input_schema"@, d.input_schema@),
        ] + optional_member("cache_control"@, encode_opt_cache(d.cache_control)),
    )
}

pub open spec fn encode_opt_count(n: Option<u32>) -> Option<JsonView> {
    match n {
        Some(v) => Some(JsonView::Number(JsonNumberView::PosInt(v as u64))),
        None => None,
    }
}

/// The JSON form of the settings of extended thinking.
pub open spec fn encode_thinking(t: ThinkingConfig) -> JsonView {
    JsonView::Object(
        seq![("type"@, text_value(t.thinking_type@))] + optional_member(
            "budget_tokens"@,
            encode_opt_count(t.budget_tokens),
        ),
    )
}

/// The decimal text of a temperature held in tenths: `10` reads `1.0`.
pub open spec fn tenths_text(tenths: u32) -> Seq<char> {
    crate::text::decimal((tenths / 10) as nat) + seq!['.'] + crate::text::decimal(
        (tenths % 10) as nat,
    )
}

pub open spec fn encode_opt_temperature(t: Option<u32>) -> Option<JsonView> {
    match t {
        Some(tenths) => Some(JsonView::Number(JsonNumberView::Float(tenths_text(tenths)))),
        None => None,
    }
}

pub open spec fn encode_opt_systems(s: Option<Vec<SystemContent>>) -> Option<JsonView> {
    match s {
        Some(items) => Some(JsonView::Array(items@.map_values(|c| encode_system(c)))),
        None => None,
    }
}

pub open spec fn encode_opt_tools(t: Option<Vec<ToolDefinition>>) -> Option<JsonView> {
    match t {
        Some(items) => Some(JsonView::Array(items@.map_values(|d| encode_tool(d)))),
        None => None,
    }
}

pub open spec fn encode_opt_words(w: Option<Vec<String>>) -> Option<JsonView> {
    match w {
        Some(items) => Some(JsonView::Array(items@.map_values(|s: String| text_value(s@)))),
        None => None,
    }
}

pub open spec fn encode_opt_thinking(t: Option<ThinkingConfig>) -> Option<JsonView> {
    match t {
        Some(config) => Some(encode_thinking(config)),
        None => None,
    }
}

/// The JSON body of a request: the model, the token limit, the
/// conversation, then the system prompt, the tools, the stop sequences,
/// the temperature and the thinking settings where they are set, and the
/// request for a streamed response.
pub open spec fn encode_request(r: CreateMessageRequest) -> JsonView {
    JsonView::Object(
        seq![
            ("model"@, text_value(r.model@)),
            ("max_tokens"@, JsonView::Number(JsonNumberView::PosInt(r.max_tokens as u64))),
            ("messages"@, JsonView::Array(encode_messages(crate::message::transcript(r.messages@)))),
        ] + optional_member("system"@, encode_opt_systems(r.system)) + optional_member(
            "tools"@,
            encode_opt_tools(r.tools),
        ) + optional_member("stop_sequences"@, encode_opt_words(r.stop_sequences))
            + optional_member("temperature"@, encode_opt_temperature(r.temperature_tenths))
            + optional_member("thinking"@, encode_opt_thinking(r.thinking)) + seq![
            ("stream"@, JsonView::Bool(r.stream)),
        ],
    )
}

fn cache_to_json(c: &Option<CacheControl>) -> (r: Option<Json>)
    ensures
        match r {
            Some(j) => encode_opt_cache(*c) == Some(j@),
            None => encode_opt_cache(*c) is None,
        },
{
    match c {
        Some(c) => {
            let mut members: Vec<(String, Json)> = Vec::new();
            assert(member_views(members@) =~= Seq::<(Seq<char>, JsonView)>::empty());
            push_member(&mut members, "type", Json::text(c.cache_type.as_str()));
            let j = Json::object(members);
            assert(j@->Object_0 =~= encode_cache(c.cache_type@)->Object_0);
            Some(j)
        },
        None => None,
    }
}

impl SystemContent {
    /// The JSON form of the block.
    pub fn to_json(&self) -> (j: Json)
        ensures
            j@ == encode_system(*self),
    {
        let mut members: Vec<(String, Json)> = Vec::new();
        assert(member_views(members@) =~= Seq::<(Seq<char>, JsonView)>::empty());
        push_member(&mut members, "type", Json::text(self.content_type.as_str()));
        push_member(&mut members, "text", Json::text(self.text.as_str()));
        push_optional(&mut members, "cache_control", cache_to_json(&self.cache_control));
        let j = Json::object(members);
        assert(j@->Object_0 =~= encode_system(*self)->Object_0);
        j
    }
}

impl ToolDefinition {
    /// The JSON form of the definition.
    pub fn to_json(&self) -> (j: Json)
        ensures
            j@ == encode_tool(*self),
    {
        let mut members: Vec<(String, Json)> = Vec::new();
        assert(member_views(members@) =~= Seq::<(Seq<char>, JsonView)>::empty());
        push_member(&mut members, "name", Json::text(self.name.as_str()));
        push_member(&mut members, "description", Json::text(self.description.as_str()));
        push_member(&mut members, "input_schema", self.input_schema.duplicate());
        push_optional(&mut members, "cache_control", cache_to_json(&self.cache_control));
        let j = Json::object(members);
        assert(j@->Object_0 =~= encode_tool(*self)->Object_0);
        j
    }
}

impl ThinkingConfig {
    /// The JSON form of the settings.
    pub fn to_json(&self) -> (j: Json)
        ensures
            j@ == encode_thinking(*self),
    {
        let mut members: Vec<(String, Json)> = Vec::new();
        assert(member_views(members@) =~= Seq::<(Seq<char>, JsonView)>::empty());
        push_member(&mut members, "type", Json::text(self.thinking_type.as_str()));
        let budget = match self.budget_tokens {
            Some(n) => Some(Json::unsigned(n as u64)),
            None => None,
        };
        push_optional(&mut members, "budget_tokens", budget);
        let j = Json::object(members);
        assert(j@->Object_0 =~= encode_thinking(*self)->Object_0);
        j
    }
}

/// The JSON number of a temperature held in tenths.
pub fn temperature_to_json(tenths: u32) -> (j: Json)
    ensures
        j@ == JsonView::Number(JsonNumberView::Float(tenths_text(tenths))),
{
    let mut digits = crate::text::decimal_chars((tenths / 10) as u64);
    digits.push('.');
    let mut fraction = crate::text::decimal_chars((tenths % 10) as u64);
    digits.append(&mut fraction);
    let text = crate::text::string_from_chars(digits.as_slice());
    assert(text@ =~= tenths_text(tenths));
    Json::Number(JsonNumber::Float(text))
}

/// The JSON forms of a conversation.
pub(crate) fn messages_to_json(messages: &Vec<Message>) -> (j: Json)
    ensures
        j@ == JsonView::Array(encode_messages(crate::message::transcript(messages@))),
{
    let mut out: Vec<Json> = Vec::new();
    let mut i: usize = 0;
    while i < messages.len()
        invariant
            i <= messages@.len(),
            out@.len() == i,
            forall|k: int| 0 <= k < i ==> out@[k]@ == encode_message(messages@[k]@),
        decreases messages.len() - i,
    {
        out.push(messages[i].to_json());
        i += 1;
    }
    let j = Json::array(out);
    assert(j@->Array_0 =~= encode_messages(crate::message::transcript(messages@)));
    j
}

fn systems_to_json(system: &Option<Vec<SystemContent>>) -> (r: Option<Json>)
    ensures
        match r {
            Some(j) => encode_opt_systems(*system) == Some(j@),
            None => encode_opt_systems(*system) is None,
        },
{
    match system {
        Some(items) => {
            let mut out: Vec<Json> = Vec::new();
            let mut i: usize = 0;
            while i < items.len()
                invariant
                    i <= items@.len(),
                    out@.len() == i,
                    forall|k: int| 0 <= k < i ==> out@[k]@ == encode_system(items@[k]),
                decreases items.len() - i,
            {
                out.push(items[i].to_json());
                i += 1;
            }
            let j = Json::array(out);
            assert(j@->Array_0 =~= items@.map_values(|c| encode_system(c)));
            Some(j)
        },
        None => None,
    }
}

fn tools_to_json(tools: &Option<Vec<ToolDefinition>>) -> (r: Option<Json>)
    ensures
        match r {
            Some(j) => encode_opt_tools(*tools) == Some(j@),
            None => encode_opt_tools(*tools) is None,
        },
{
    match tools {
        Some(items) => {
            let mut out: Vec<Json> = Vec::new();
            let mut i: usize = 0;
            while i < items.len()
                invariant
                    i <= items@.len(),
                    out@.len() == i,
                    forall|k: int| 0 <= k < i ==> out@[k]@ == encode_tool(items@[k]),
                decreases items.len() - i,
            {
                out.push(items[i].to_json());
                i += 1;
            }
            let j = Json::array(out);
            assert(j@->Array_0 =~= items@.map_values(|d| encode_tool(d)));
            Some(j)
        },
        None => None,
    }
}

fn words_to_json(words: &Option<Vec<String>>) -> (r: Option<Json>)
    ensures
        match r {
            Some(j) => encode_opt_words(*words) == Some(j@),
            None => encode_opt_words(*words) is None,
        },
{
    match words {
        Some(items) => {
            let mut out: Vec<Json> = Vec::new();
            let mut i: usize = 0;
            while i < items.len()
                invariant
                    i <= items@.len(),
                    out@.len() == i,
                    forall|k: int| 0 <= k < i ==> out@[k]@ == text_value(items@[k]@),
                decreases items.len() - i,
            {
                out.push(Json::text(items[i].as_str()));
                i += 1;
            }
            let j = Json::array(out);
            assert(j@->Array_0 =~= items@.map_values(|s: String| text_value(s@)));
            Some(j)
        },
        None => None,
    }
}

impl CreateMessageRequest {
    /// The JSON body of the request.
    pub fn to_json(&self) -> (j: Json)
        ensures
            j@ == encode_request(*self),
    {
        let mut members: Vec<(String, Json)> = Vec::new();
        assert(member_views(members@) =~= Seq::<(Seq<char>, JsonView)>::empty());
        push_member(&mut members, "model", Json::text(self.model.as_str()));
        push_member(&mut members, "max_tokens", Json::unsigned(self.max_tokens as u64));
        push_member(&mut members, "messages", messages_to_json(&self.messages));
        let ghost m3 = member_views(members@);
        push_optional(&mut members, "system", systems_to_json(&self.system));
        let ghost m4 = member_views(members@);
        assert(m4 == m3 + optional_member("system"@, encode_opt_systems(self.system)));
        push_optional(&mut members, "tools", tools_to_json(&self.tools));
        let ghost m5 = member_views(members@);
        assert(m5 == m4 + optional_member("tools"@, encode_opt_tools(self.tools)));
        push_optional(&mut members, "stop_sequences", words_to_json(&self.stop_sequences));
        let ghost m6 = member_views(members@);
        assert(m6 == m5 + optional_member(
            "stop_sequences"@,
            encode_opt_words(self.stop_sequences),
        ));
        let temperature = match self.temperature_tenths {
            Some(tenths) => Some(temperature_to_json(tenths)),
            None => None,
        };
        push_optional(&mut members, "temperature", temperature);
        let ghost m7 = member_views(members@);
        assert(m7 == m6 + optional_member(
            "temperature"@,
            encode_opt_temperature(self.temperature_tenths),
        ));
        let thinking = match &self.thinking {
            Some(config) => Some(config.to_json()),
            None => None,
        };
        push_optional(&mut members, "thinking", thinking);
        let ghost m8 = member_views(members@);
        assert(m8 == m7 + optional_member("thinking"@, encode_opt_thinking(self.thinking)));
        push_member(&mut members, "stream", Json::Bool(self.stream));
        assert(m8.push(("stream"@, JsonView::Bool(self.stream))) =~= m8 + seq![
            ("stream"@, JsonView::Bool(self.stream)),
        ]);
        let j = Json::object(members);
        assert(j@->Object_0 == encode_request(*self)->Object_0);
        j
    }
}

/// The name of a hook event on the wire.
pub open spec fn event_name(e: HookEvent) -> Seq<char> {
    match e {
        HookEvent::BeforeTool => "before_tool"@,
        HookEvent::AfterTool => "after_tool"@,
        HookEvent::BeforeInput => "before_input"@,
        HookEvent::OnExit => "on_exit"@,
        HookEvent::OnSessionStart => "on_session_start"@,
        HookEvent::OnSessionEnd => "on_session_end"@,
        HookEvent::WorktreeCreate => "worktree_create"@,
        HookEvent::WorktreeRemove => "worktree_remove"@,
    }
}

/// The JSON that a hook reads on its standard input: the event, and each
/// other field only where it is set.
pub open spec fn encode_hook_input(h: HookInputView) -> JsonView {
    JsonView::Object(
        seq![("event"@, text_value(event_name(h.event)))] + optional_member(
            "tool_name"@,
            encode_opt_text(h.tool_name),
        ) + optional_member("tool_input"@, h.tool_input) + optional_member(
            "tool_output"@,
            encode_opt_text(h.tool_output),
        ) + optional_member("is_error"@, encode_opt_bool(h.is_error)) + optional_member(
            "worktree_path"@,
            encode_opt_text(h.worktree_path),
        ) + optional_member("worktree_source"@, encode_opt_text(h.worktree_source)),
    )
}

/// The name of a hook event on the wire.
pub fn hook_event_name(e: HookEvent) -> (s: &'static str)
    ensures
        s@ == event_name(e),
{
    match e {
        HookEvent::BeforeTool => "before_tool",
        HookEvent::AfterTool => "after_tool",
        HookEvent::BeforeInput => "before_input",
        HookEvent::OnExit => "on_exit",
        HookEvent::OnSessionStart => "on_session_start",
        HookEvent::OnSessionEnd => "on_session_end",
        HookEvent::WorktreeCreate => "worktree_create",
        HookEvent::WorktreeRemove => "worktree_remove",
    }
}

fn opt_text_to_json(t: &Option<String>) -> (r: Option<Json>)
    ensures
        match r {
            Some(j) => encode_opt_text(opt_text(*t)) == Some(j@),
            None => encode_opt_text(opt_text(*t)) is None,
        },
{
    match t {
        Some(s) => Some(Json::text(s.as_str())),
        None => None,
    }
}

impl HookInput {
    /// The JSON that a hook reads on its standard input.
    pub fn to_json(&self) -> (j: Json)
        ensures
            j@ == encode_hook_input(self@),
    {
        let mut members: Vec<(String, Json)> = Vec::new();
        assert(member_views(members@) =~= Seq::<(Seq<char>, JsonView)>::empty());
        push_member(&mut members, "event", Json::text(hook_event_name(self.event)));
        let ghost m1 = member_views(members@);
        push_optional(&mut members, "tool_name", opt_text_to_json(&self.tool_name));
        let ghost m2 = member_views(members@);
        assert(m2 == m1 + optional_member("tool_name"@, encode_opt_text(self@.tool_name)));
        let input = match &self.tool_input {
            Some(j) => Some(j.duplicate()),
            None => None,
        };
        push_optional(&mut members, "tool_input", input);
        let ghost m3 = member_views(members@);
        assert(m3 == m2 + optional_member("tool_input"@, self@.tool_input));
        push_optional(&mut members, "tool_output", opt_text_to_json(&self.tool_output));
        let ghost m4 = member_views(members@);
        assert(m4 == m3 + optional_member("tool_output"@, encode_opt_text(self@.tool_output)));
        let flag = match self.is_error {
            Some(b) => Some(Json::Bool(b)),
            None => None,
        };
        push_optional(&mut members, "is_error", flag);
        let ghost m5 = member_views(members@);
        assert(m5 == m4 + optional_member("is_error"@, encode_opt_bool(self@.is_error)));
        push_optional(&mut members, "worktree_path", opt_text_to_json(&self.worktree_path));
        let ghost m6 = member_views(members@);
        assert(m6 == m5 + optional_member(
            "worktree_path"@,
            encode_opt_text(self@.worktree_path),
        ));
        push_optional(&mut members, "worktree_source", opt_text_to_json(&self.worktree_source));
        let j = Json::object(members);
        assert(j@->Object_0 == encode_hook_input(self@)->Object_0);
        j
    }
}

/// What a hook is told, read back from its JSON: an object with the
/// event by its name; every other field may be missing or `null`.
pub open spec fn decode_hook_input(j: JsonView) -> Option<HookInputView> {
    match (
        j.text_field("event"@),
        decode_opt_text(j, "tool_name"@),
        decode_opt_text(j, "tool_output"@),
        decode_opt_bool(j, "is_error"@),
        decode_opt_text(j, "worktree_path"@),
        decode_opt_text(j, "worktree_source"@),
    ) {
        (
            Some(word),
            Some(tool_name),
            Some(tool_output),
            Some(is_error),
            Some(worktree_path),
            Some(worktree_source),
        ) => match crate::settings::event_of(word) {
            Some(event) => Some(
                HookInputView {
                    event,
                    tool_name,
                    tool_input: present(j, "tool_input"@),
                    tool_output,
                    is_error,
                    worktree_path,
                    worktree_source,
                },
            ),
            None => None,
        },
        _ => None,
    }
}

impl HookInput {
    /// Reads what a hook is told back from its JSON.
    pub fn from_json(j: &Json) -> (r: Option<HookInput>)
        ensures
            match r {
                Some(h) => decode_hook_input(j@) == Some(h@),
                None => decode_hook_input(j@) is None,
            },
    {
        let event = match j.get_str("event") {
            Some(word) => match crate::settings::parse_event(word) {
                Some(e) => e,
                None => {
                    return None;
                },
            },
            None => {
                return None;
            },
        };
        let tool_name = match read_opt_text(j, "tool_name") {
            Some(v) => v,
            None => {
                return None;
            },
        };
        let tool_output = match read_opt_text(j, "tool_output") {
            Some(v) => v,
            None => {
                return None;
            },
        };
        let is_error = match read_opt_bool(j, "is_error") {
            Some(v) => v,
            None => {
                return None;
            },
        };
        let worktree_path = match read_opt_text(j, "worktree_path") {
            Some(v) => v,
            None => {
                return None;
            },
        };
        let worktree_source = match read_opt_text(j, "worktree_source") {
            Some(v) => v,
            None => {
                return None;
            },
        };
        let tool_input = match j.get("tool_input") {
            Some(v) => if v.is_null() {
                None
            } else {
                Some(v.duplicate())
            },
            None => None,
        };
        Some(
            HookInput {
                event,
                tool_name,
                tool_input,
                tool_output,
                is_error,
                worktree_path,
                worktree_source,
            },
        )
    }
}

} // verus!
