//! A conversation that is kept between runs, and what is shown of it in
//! lists. Where the session comes from and what time it is, is handed in
//! by the caller; times are seconds since the epoch.

use crate::compact::{shorten, shortened};
use crate::message::{
    blocks, transcript, ContentBlock, ContentBlockView, Message, MessageView, Role, Usage,
};
use crate::text::{i64_to_string, join2, signed_decimal, trim, trimmed};
use crate::util::{truncate_str, truncated};
use vstd::prelude::*;
use vstd::string::*;

verus! {

/// What is kept of a session beside its conversation.
#[derive(Debug, Clone)]
pub struct SessionMetadata {
    pub model: String,
    pub cwd: String,
    pub label: Option<String>,
}

/// A conversation that is kept between runs.
#[derive(Debug, Clone)]
pub struct Session {
    pub id: String,
    pub created_at: i64,
    pub updated_at: i64,
    pub messages: Vec<Message>,
    pub total_usage: Usage,
    pub metadata: SessionMetadata,
    pub compaction_count: u32,
}

/// What a list shows of a session.
#[derive(Debug, Clone)]
pub struct SessionSummary {
    pub id: String,
    pub created_at: i64,
    pub updated_at: i64,
    pub model: String,
    pub cwd: String,
    pub message_count: usize,
    pub total_input_tokens: u64,
    pub total_output_tokens: u64,
    pub label: Option<String>,
    pub preview: String,
}

/// The first text block among the first `n` blocks.
pub open spec fn first_text(items: Seq<ContentBlockView>, from: int) -> Option<Seq<char>>
    decreases items.len() - from,
{
    if from < 0 || from >= items.len() {
        None
    } else {
        match items[from] {
            ContentBlockView::Text { text } => Some(text),
            _ => first_text(items, from + 1),
        }
    }
}

/// The text that a session is previewed by: the first text block of the
/// first user message that has one.
pub open spec fn first_user_text(messages: Seq<MessageView>, from: int) -> Option<Seq<char>>
    decreases messages.len() - from,
{
    if from < 0 || from >= messages.len() {
        None
    } else if messages[from].role == Role::User && first_text(messages[from].content, 0)
        is Some {
        first_text(messages[from].content, 0)
    } else {
        first_user_text(messages, from + 1)
    }
}

/// The first text block from `from` on that is not blank, trimmed.
pub open spec fn first_words(items: Seq<ContentBlockView>, from: int) -> Option<Seq<char>>
    decreases items.len() - from,
{
    if from < 0 || from >= items.len() {
        None
    } else {
        match items[from] {
            ContentBlockView::Text { text } => if trimmed(text).len() > 0 {
                Some(trimmed(text))
            } else {
                first_words(items, from + 1)
            },
            _ => first_words(items, from + 1),
        }
    }
}

/// The text that a session is labelled by: the first text of a user
/// message that is not blank, trimmed.
pub open spec fn first_user_words(messages: Seq<MessageView>, from: int) -> Option<Seq<char>>
    decreases messages.len() - from,
{
    if from < 0 || from >= messages.len() {
        None
    } else if messages[from].role == Role::User && first_words(messages[from].content, 0)
        is Some {
        first_words(messages[from].content, 0)
    } else {
        first_user_words(messages, from + 1)
    }
}

/// The preview of a conversation: its first user text, trimmed, and
/// shortened to 77 bytes and an ellipsis where it has more than 80.
pub open spec fn preview_of(messages: Seq<MessageView>) -> Seq<char> {
    match first_user_text(messages, 0) {
        Some(text) => shortened(trimmed(text), 80, 77),
        None => Seq::empty(),
    }
}

/// How long ago `then` was at the time `now`, in words.
pub open spec fn age_text(now: int, then: int) -> Seq<char> {
    let seconds = now - then;
    let minutes = if seconds >= 0 {
        seconds / 60
    } else {
        -((-seconds) / 60)
    };
    if minutes < 1 {
        "just now"@
    } else if minutes < 60 {
        signed_decimal(minutes) + "m ago"@
    } else if minutes < 1440 {
        signed_decimal(minutes / 60) + "h ago"@
    } else {
        signed_decimal(minutes / 1440) + "d ago"@
    }
}

fn find_text(items: &Vec<ContentBlock>) -> (r: Option<&str>)
    ensures
        match r {
            Some(t) => first_text(blocks(items@), 0) == Some(t@),
            None => first_text(blocks(items@), 0) is None,
        },
{
    let mut i: usize = 0;
    while i < items.len()
        invariant
            i <= items@.len(),
            first_text(blocks(items@), i as int) == first_text(blocks(items@), 0),
        decreases items.len() - i,
    {
        assert(blocks(items@)[i as int] == items@[i as int]@);
        match &items[i] {
            ContentBlock::Text { text } => {
                return Some(text.as_str());
            },
            _ => {},
        }
        i += 1;
    }
    None
}

fn find_words(items: &Vec<ContentBlock>) -> (r: Option<String>)
    ensures
        match r {
            Some(t) => first_words(blocks(items@), 0) == Some(t@),
            None => first_words(blocks(items@), 0) is None,
        },
{
    let mut i: usize = 0;
    while i < items.len()
        invariant
            i <= items@.len(),
            first_words(blocks(items@), i as int) == first_words(blocks(items@), 0),
        decreases items.len() - i,
    {
        assert(blocks(items@)[i as int] == items@[i as int]@);
        match &items[i] {
            ContentBlock::Text { text } => {
                let words = trim(text.as_str());
                if !words.as_str().is_empty() {
                    return Some(words);
                }
            },
            _ => {},
        }
        i += 1;
    }
    None
}

impl Session {
    /// A new, empty session with the id `id`, begun at the time `now`.
    pub fn new(id: String, now: i64, model: String, cwd: String) -> (s: Self)
        ensures
            s.id == id,
            s.created_at == now,
            s.updated_at == now,
            s.messages@.len() == 0,
            s.total_usage == Usage::zero(),
            s.metadata.model == model,
            s.metadata.cwd == cwd,
            s.metadata.label is None,
            s.compaction_count == 0,
    {
        Session {
            id,
            created_at: now,
            updated_at: now,
            messages: Vec::new(),
            total_usage: Usage::default(),
            metadata: SessionMetadata { model, cwd, label: None },
            compaction_count: 0,
        }
    }

    /// The first 8 bytes of the id, for display.
    pub fn short_id(&self) -> (s: String)
        ensures
            s@ == truncated(self.id@, 8),
    {
        truncate_str(self.id.as_str(), 8).to_owned()
    }

    /// A preview of the session.
    pub fn preview(&self) -> (p: String)
        ensures
            p@ == preview_of(transcript(self.messages@)),
    {
        let mut i: usize = 0;
        while i < self.messages.len()
            invariant
                i <= self.messages@.len(),
                first_user_text(transcript(self.messages@), i as int) == first_user_text(
                    transcript(self.messages@),
                    0,
                ),
            decreases self.messages.len() - i,
        {
            assert(transcript(self.messages@)[i as int] == self.messages@[i as int]@);
            if self.messages[i].role == Role::User {
                match find_text(&self.messages[i].content) {
                    Some(text) => {
                        let words = trim(text);
                        return shorten(words.as_str(), 80, 77);
                    },
                    None => {},
                }
            }
            i += 1;
        }
        String::new()
    }

    /// Labels the session by its first user text, cut to 60 bytes, unless
    /// it has a label already or no such text.
    pub fn auto_label(&mut self)
        ensures
            final(self).id == old(self).id,
            final(self).messages == old(self).messages,
            final(self).metadata.model == old(self).metadata.model,
            final(self).metadata.cwd == old(self).metadata.cwd,
            match old(self).metadata.label {
                Some(_) => final(self).metadata.label == old(self).metadata.label,
                None => match first_user_words(transcript(old(self).messages@), 0) {
                    Some(words) => final(self).metadata.label matches Some(l) && l@ == truncated(
                        words,
                        60,
                    ),
                    None => final(self).metadata.label is None,
                },
            },
    {
        if self.metadata.label.is_some() {
            return ;
        }
        let mut i: usize = 0;
        while i < self.messages.len()
            invariant
                i <= self.messages@.len(),
                *self == *old(self),
                self.metadata.label is None,
                first_user_words(transcript(self.messages@), i as int) == first_user_words(
                    transcript(self.messages@),
                    0,
                ),
            decreases self.messages.len() - i,
        {
            assert(transcript(self.messages@)[i as int] == self.messages@[i as int]@);
            if self.messages[i].role == Role::User {
                match find_words(&self.messages[i].content) {
                    Some(words) => {
                        let label = truncate_str(words.as_str(), 60).to_owned();
                        assert(first_user_words(transcript(self.messages@), i as int) == Some(
                            words@,
                        ));
                        self.metadata.label = Some(label);
                        return ;
                    },
                    None => {},
                }
            }
            i += 1;
        }
    }

    /// What a list shows of the session.
    pub fn to_summary(&self) -> (s: SessionSummary)
        ensures
            s.id@ == self.id@,
            s.created_at == self.created_at,
            s.updated_at == self.updated_at,
            s.model@ == self.metadata.model@,
            s.cwd@ == self.metadata.cwd@,
            s.message_count == self.messages@.len(),
            s.total_input_tokens == self.total_usage.input_tokens,
            s.total_output_tokens == self.total_usage.output_tokens,
            crate::message::opt_text(s.label) == crate::message::opt_text(self.metadata.label),
            s.preview@ == preview_of(transcript(self.messages@)),
    {
        SessionSummary {
            id: self.id.clone(),
            created_at: self.created_at,
            updated_at: self.updated_at,
            model: self.metadata.model.clone(),
            cwd: self.metadata.cwd.clone(),
            message_count: self.messages.len(),
            total_input_tokens: self.total_usage.input_tokens,
            total_output_tokens: self.total_usage.output_tokens,
            label: crate::message::duplicate_opt_text(&self.metadata.label),
            preview: self.preview(),
        }
    }
}

impl SessionSummary {
    /// The first 8 bytes of the id, for display.
    pub fn short_id(&self) -> (s: String)
        ensures
            s@ == truncated(self.id@, 8),
    {
        truncate_str(self.id.as_str(), 8).to_owned()
    }

    /// How long ago the session was last changed, at the time `now`.
    pub fn age(&self, now: i64) -> (a: String)
        ensures
            a@ == age_text(now as int, self.updated_at as int),
    {
        let later: i128 = now as i128;
        let earlier: i128 = self.updated_at as i128;
        let seconds: i128 = later - earlier;
        let minutes: i128 = if seconds >= 0 {
            seconds / 60
        } else {
            -((-seconds) / 60)
        };
        if minutes < 1 {
            "just now".to_owned()
        } else if minutes < 60 {
            join2(i64_to_string(minutes as i64).as_str(), "m ago")
        } else if minutes < 1440 {
            join2(i64_to_string((minutes / 60) as i64).as_str(), "h ago")
        } else {
            join2(i64_to_string((minutes / 1440) as i64).as_str(), "d ago")
        }
    }
}

} // verus!
