//! The file of a session: a JSON object with the id, the times as
//! RFC 3339 texts, the messages, the token counts, the metadata and the
//! number of compactions. Reading and writing the file is the caller's
//! part.

use crate::json::{lemma_array_view, Json, JsonNumberView, JsonView};
use crate::message::{opt_text, transcript, Message, MessageView, Usage};
use crate::session::{Session, SessionMetadata};
use crate::wire::{decode_message, encode_messages, messages_to_json, text_value};
use vstd::prelude::*;
use vstd::string::*;

verus! {

/// The RFC 3339 text of a time given in seconds since the epoch; none
/// where the time is beyond what the time library holds.
pub uninterp spec fn rfc3339_text(seconds: i64) -> Option<Seq<char>>;

/// The time, in seconds since the epoch, that an RFC 3339 text stands
/// for; none where the text is no such time.
pub uninterp spec fn rfc3339_seconds(text: Seq<char>) -> Option<i64>;

/// `chrono::DateTime::from_timestamp` and `DateTime::to_rfc3339`: the
/// text of the time in UTC, or none where the seconds are out of range.
/// The result depends on the seconds alone.
#[verifier::external_body]
fn format_time(seconds: i64) -> (r: Option<String>)
    ensures
        match r {
            Some(t) => rfc3339_text(seconds) == Some(t@),
            None => rfc3339_text(seconds) is None,
        },
{
    chrono::DateTime::<chrono::Utc>::from_timestamp(seconds, 0).map(|t| t.to_rfc3339())
}

/// `chrono::DateTime::parse_from_rfc3339` and `DateTime::timestamp`: the
/// seconds since the epoch of the time that the text stands for, or none
/// where the text is no RFC 3339 time. The result depends on the text
/// alone.
#[verifier::external_body]
fn parse_time(text: &str) -> (r: Option<i64>)
    ensures
        r == rfc3339_seconds(text@),
{
    chrono::DateTime::parse_from_rfc3339(text).ok().map(|t| t.timestamp())
}

/// What a session holds, with its texts as sequences.
pub struct SessionView {
    pub id: Seq<char>,
    pub created_at: i64,
    pub updated_at: i64,
    pub messages: Seq<MessageView>,
    pub total_usage: Usage,
    pub model: Seq<char>,
    pub cwd: Seq<char>,
    pub label: Option<Seq<char>>,
    pub compaction_count: u32,
}

/// The view of a session.
pub open spec fn session_view(s: Session) -> SessionView {
    SessionView {
        id: s.id@,
        created_at: s.created_at,
        updated_at: s.updated_at,
        messages: transcript(s.messages@),
        total_usage: s.total_usage,
        model: s.metadata.model@,
        cwd: s.metadata.cwd@,
        label: opt_text(s.metadata.label),
        compaction_count: s.compaction_count,
    }
}

/// A count as a JSON number.
pub open spec fn count_value(n: u64) -> JsonView {
    JsonView::Number(JsonNumberView::PosInt(n))
}

/// The text of a time in the file; a time beyond what the time library
/// holds is written as the epoch.
pub open spec fn time_text(seconds: i64) -> Seq<char> {
    match rfc3339_text(seconds) {
        Some(t) => t,
        None => "1970-01-01T00:00:00+00:00"@,
    }
}

/// The token counts in the file.
pub open spec fn encode_usage(u: Usage) -> JsonView {
    JsonView::Object(
        seq![
            ("input_tokens"@, count_value(u.input_tokens)),
            ("output_tokens"@, count_value(u.output_tokens)),
            ("cache_creation_input_tokens"@, count_value(u.cache_creation_input_tokens)),
            ("cache_read_input_tokens"@, count_value(u.cache_read_input_tokens)),
        ],
    )
}

/// The label in the file: its text, or `null` where there is none.
pub open spec fn encode_label(label: Option<Seq<char>>) -> JsonView {
    match label {
        Some(t) => text_value(t),
        None => JsonView::Null,
    }
}

/// The metadata in the file.
pub open spec fn encode_metadata(s: SessionView) -> JsonView {
    JsonView::Object(
        seq![
            ("model"@, text_value(s.model)),
            ("cwd"@, text_value(s.cwd)),
            ("label"@, encode_label(s.label)),
        ],
    )
}

/// The JSON form of a session, as its file holds it.
pub open spec fn encode_session(s: SessionView) -> JsonView {
    JsonView::Object(
        seq![
            ("id"@, text_value(s.id)),
            ("created_at"@, text_value(time_text(s.created_at))),
            ("updated_at"@, text_value(time_text(s.updated_at))),
            ("messages"@, JsonView::Array(encode_messages(s.messages))),
            ("total_usage"@, encode_usage(s.total_usage)),
            ("metadata"@, encode_metadata(s)),
            ("compaction_count"@, count_value(s.compaction_count as u64)),
        ],
    )
}

/// The count at `key`; 0 where there is none.
pub open spec fn count_or_zero(j: JsonView, key: Seq<char>) -> u64 {
    match j.field(key) {
        Some(v) => match v.unsigned() {
            Some(n) => n,
            None => 0,
        },
        None => 0,
    }
}

/// The time at `key`; none where the member is missing or no RFC 3339
/// text.
pub open spec fn decode_time(j: JsonView, key: Seq<char>) -> Option<i64> {
    match j.text_field(key) {
        Some(t) => rfc3339_seconds(t),
        None => None,
    }
}

/// The first `n` messages of the file; none as soon as one of them is no
/// message.
pub open spec fn decode_messages(items: Seq<JsonView>, n: int) -> Option<Seq<MessageView>>
    decreases n,
{
    if n <= 0 {
        Some(Seq::empty())
    } else {
        match (decode_messages(items, n - 1), decode_message(items[n - 1])) {
            (Some(head), Some(last)) => Some(head.push(last)),
            _ => None,
        }
    }
}

/// The token counts that a value holds; a count that is missing reads as
/// 0.
pub open spec fn stored_usage(j: JsonView) -> Usage {
    Usage {
        input_tokens: count_or_zero(j, "input_tokens"@),
        output_tokens: count_or_zero(j, "output_tokens"@),
        cache_creation_input_tokens: count_or_zero(j, "cache_creation_input_tokens"@),
        cache_read_input_tokens: count_or_zero(j, "cache_read_input_tokens"@),
    }
}

/// A count as 32 bits hold it: a larger count reads as the largest.
pub open spec fn capped(n: u64) -> u32 {
    if n > u32::MAX {
        u32::MAX
    } else {
        n as u32
    }
}

/// The session that the value of a file stands for. The id, the two
/// times, the messages, the token counts and the metadata with model and
/// working directory must be there; the label may be missing, and a
/// count that is missing reads as 0.
pub open spec fn decode_session(j: JsonView) -> Option<SessionView> {
    match (
        j.text_field("id"@),
        decode_time(j, "created_at"@),
        decode_time(j, "updated_at"@),
        j.field("messages"@),
        j.field("total_usage"@),
        j.field("metadata"@),
    ) {
        (
            Some(id),
            Some(created_at),
            Some(updated_at),
            Some(JsonView::Array(items)),
            Some(usage),
            Some(metadata),
        ) => match (
            decode_messages(items, items.len() as int),
            metadata.text_field("model"@),
            metadata.text_field("cwd"@),
        ) {
            (Some(messages), Some(model), Some(cwd)) => Some(
                SessionView {
                    id,
                    created_at,
                    updated_at,
                    messages,
                    total_usage: stored_usage(usage),
                    model,
                    cwd,
                    label: metadata.text_field("label"@),
                    compaction_count: capped(count_or_zero(j, "compaction_count"@)),
                },
            ),
            _ => None,
        },
        _ => None,
    }
}

proof fn lemma_messages_stay_none(items: Seq<JsonView>, n: int, m: int)
    requires
        n <= m,
        decode_messages(items, n) is None,
    ensures
        decode_messages(items, m) is None,
    decreases m - n,
{
    if n < m {
        lemma_messages_stay_none(items, n, m - 1);
    }
}

fn time_to_json(seconds: i64) -> (j: Json)
    ensures
        j@ == text_value(time_text(seconds)),
{
    match format_time(seconds) {
        Some(t) => Json::text(t.as_str()),
        None => Json::text("1970-01-01T00:00:00+00:00"),
    }
}

fn usage_to_json(u: &Usage) -> (j: Json)
    ensures
        j@ == encode_usage(*u),
{
    let mut members: Vec<(String, Json)> = Vec::new();
    members.push(("input_tokens".to_owned(), Json::unsigned(u.input_tokens)));
    members.push(("output_tokens".to_owned(), Json::unsigned(u.output_tokens)));
    members.push(
        ("cache_creation_input_tokens".to_owned(), Json::unsigned(u.cache_creation_input_tokens)),
    );
    members.push(
        ("cache_read_input_tokens".to_owned(), Json::unsigned(u.cache_read_input_tokens)),
    );
    let j = Json::object(members);
    assert(j@->Object_0 =~= encode_usage(*u)->Object_0);
    j
}

fn read_count(j: &Json, key: &str) -> (n: u64)
    ensures
        n == count_or_zero(j@, key@),
{
    match j.get(key) {
        Some(v) => match v.as_u64() {
            Some(n) => n,
            None => 0,
        },
        None => 0,
    }
}

fn read_time(j: &Json, key: &str) -> (r: Option<i64>)
    ensures
        r == decode_time(j@, key@),
{
    match j.get_str(key) {
        Some(t) => parse_time(t),
        None => None,
    }
}

fn read_messages(list: &Json) -> (r: Option<Vec<Message>>)
    requires
        list is Array,
    ensures
        match r {
            Some(v) => decode_messages(list@->Array_0, list@->Array_0.len() as int) == Some(
                transcript(v@),
            ),
            None => decode_messages(list@->Array_0, list@->Array_0.len() as int) is None,
        },
{
    proof {
        lemma_array_view(*list);
    }
    let ghost views = list@->Array_0;
    match list {
        Json::Array(items) => {
            let mut out: Vec<Message> = Vec::new();
            let mut i: usize = 0;
            assert(transcript(out@) =~= Seq::<MessageView>::empty());
            while i < items.len()
                invariant
                    i <= items@.len(),
                    views == list@->Array_0,
                    views.len() == items@.len(),
                    forall|k: int| 0 <= k < items@.len() ==> views[k] == items@[k]@,
                    decode_messages(views, i as int) == Some(transcript(out@)),
                decreases items.len() - i,
            {
                match Message::from_json(&items[i]) {
                    Some(m) => {
                        let ghost before = transcript(out@);
                        out.push(m);
                        assert(transcript(out@) =~= before.push(m@));
                    },
                    None => {
                        proof {
                            assert(decode_messages(views, i + 1) is None);
                            lemma_messages_stay_none(views, i + 1, views.len() as int);
                        }
                        return None;
                    },
                }
                i += 1;
            }
            Some(out)
        },
        _ => None,
    }
}

impl Session {
    /// The JSON form of the session, as its file holds it.
    pub fn to_json(&self) -> (j: Json)
        ensures
            j@ == encode_session(session_view(*self)),
    {
        let label = match &self.metadata.label {
            Some(t) => Json::text(t.as_str()),
            None => Json::Null,
        };
        let mut metadata: Vec<(String, Json)> = Vec::new();
        metadata.push(("model".to_owned(), Json::text(self.metadata.model.as_str())));
        metadata.push(("cwd".to_owned(), Json::text(self.metadata.cwd.as_str())));
        metadata.push(("label".to_owned(), label));
        let metadata = Json::object(metadata);
        assert(metadata@->Object_0 =~= encode_metadata(session_view(*self))->Object_0);
        let mut members: Vec<(String, Json)> = Vec::new();
        members.push(("id".to_owned(), Json::text(self.id.as_str())));
        members.push(("created_at".to_owned(), time_to_json(self.created_at)));
        members.push(("updated_at".to_owned(), time_to_json(self.updated_at)));
        members.push(("messages".to_owned(), messages_to_json(&self.messages)));
        members.push(("total_usage".to_owned(), usage_to_json(&self.total_usage)));
        members.push(("metadata".to_owned(), metadata));
        members.push(
            ("compaction_count".to_owned(), Json::unsigned(self.compaction_count as u64)),
        );
        let j = Json::object(members);
        assert(j@->Object_0 =~= encode_session(session_view(*self))->Object_0);
        j
    }

    /// Reads a session from the JSON value of its file; none where the
    /// value has not the shape of a session.
    pub fn from_json(j: &Json) -> (r: Option<Session>)
        ensures
            match r {
                Some(s) => decode_session(j@) == Some(session_view(s)),
                None => decode_session(j@) is None,
            },
    {
        let id = match j.get_str("id") {
            Some(t) => t.to_owned(),
            None => {
                return None;
            },
        };
        let created_at = match read_time(j, "created_at") {
            Some(t) => t,
            None => {
                return None;
            },
        };
        let updated_at = match read_time(j, "updated_at") {
            Some(t) => t,
            None => {
                return None;
            },
        };
        let messages = match j.get("messages") {
            Some(list) => match list {
                Json::Array(_) => match read_messages(list) {
                    Some(m) => m,
                    None => {
                        return None;
                    },
                },
                _ => {
                    return None;
                },
            },
            None => {
                return None;
            },
        };
        let usage = match j.get("total_usage") {
            Some(u) => u,
            None => {
                return None;
            },
        };
        let metadata = match j.get("metadata") {
            Some(m) => m,
            None => {
                return None;
            },
        };
        let model = match metadata.get_str("model") {
            Some(t) => t.to_owned(),
            None => {
                return None;
            },
        };
        let cwd = match metadata.get_str("cwd") {
            Some(t) => t.to_owned(),
            None => {
                return None;
            },
        };
        let label = match metadata.get_str("label") {
            Some(t) => Some(t.to_owned()),
            None => None,
        };
        let count = read_count(j, "compaction_count");
        let compaction_count: u32 = if count > 4294967295 {
            4294967295
        } else {
            count as u32
        };
        Some(
            Session {
                id,
                created_at,
                updated_at,
                messages,
                total_usage: Usage {
                    input_tokens: read_count(usage, "input_tokens"),
                    output_tokens: read_count(usage, "output_tokens"),
                    cache_creation_input_tokens: read_count(usage, "cache_creation_input_tokens"),
                    cache_read_input_tokens: read_count(usage, "cache_read_input_tokens"),
                },
                metadata: SessionMetadata { model, cwd, label },
                compaction_count,
            },
        )
    }
}

} // verus!
