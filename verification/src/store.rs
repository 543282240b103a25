//! Where sessions are kept: the names of their files, and which of the
//! kept sessions a prefix of an id means. Reading and writing the files
//! is the caller's part.

use crate::completion::starts_with;
use crate::session::SessionSummary;
use crate::text::{chars_of, decimal, has_prefix, join2, join3, join4, lowercased, string_from_chars, to_lowercase, u64_to_string};
use vstd::prelude::*;
use vstd::slice::*;
use vstd::string::*;

verus! {

/// What can go wrong with the kept sessions.
#[derive(Debug, Clone, PartialEq, Eq)]
pub enum SessionError {
    NotFound { id: String },
    AmbiguousPrefix { prefix: String, count: usize },
    PrefixNotFound { prefix: String },
    Io(String),
    Serialization(String),
    NothingToCompact,
}

/// The text that a session error shows.
pub open spec fn session_error_text(e: SessionError) -> Seq<char> {
    match e {
        SessionError::NotFound { id } => "Session not found: "@ + id@,
        SessionError::AmbiguousPrefix { prefix, count } => "Ambiguous session prefix '"@
            + prefix@ + "': matches "@ + decimal(count as nat) + " sessions"@,
        SessionError::PrefixNotFound { prefix } => "No sessions match prefix '"@ + prefix@
            + "'"@,
        SessionError::Io(m) => "I/O error: "@ + m@,
        SessionError::Serialization(m) => "Serialization error: "@ + m@,
        SessionError::NothingToCompact => "Nothing to compact: conversation is too short"@,
    }
}

impl SessionError {
    /// The text that the error shows.
    pub fn to_string(&self) -> (r: String)
        ensures
            r@ == session_error_text(*self),
    {
        match self {
            SessionError::NotFound { id } => join2("Session not found: ", id.as_str()),
            SessionError::AmbiguousPrefix { prefix, count } => {
                let head = join3("Ambiguous session prefix '", prefix.as_str(), "': matches ");
                let r = join3(head.as_str(), u64_to_string(*count as u64).as_str(), " sessions");
                assert(r@ =~= session_error_text(*self));
                r
            },
            SessionError::PrefixNotFound { prefix } => join3(
                "No sessions match prefix '",
                prefix.as_str(),
                "'",
            ),
            SessionError::Io(m) => join2("I/O error: ", m.as_str()),
            SessionError::Serialization(m) => join2("Serialization error: ", m.as_str()),
            SessionError::NothingToCompact => "Nothing to compact: conversation is too short".to_owned(),
        }
    }
}

/// The id that a text is, in its usual form; none where it is no id.
pub uninterp spec fn uuid_text(stem: Seq<char>) -> Option<Seq<char>>;

/// `uuid::Uuid::parse_str`, and the id written again through its
/// `Display`: the usual form of the id that the text is, or none where
/// it is no id. The result depends on the text alone.
#[verifier::external_body]
fn parse_uuid(stem: &str) -> (r: Option<String>)
    ensures
        match r {
            Some(id) => uuid_text(stem@) == Some(id@),
            None => uuid_text(stem@) is None,
        },
{
    uuid::Uuid::parse_str(stem).ok().map(|id| id.to_string())
}

/// The name of the file of a session.
pub fn session_file_name(id: &str) -> (name: String)
    ensures
        name@ == id@ + ".json"@,
{
    join2(id, ".json")
}

/// The name of the file that holds the archive of a compaction.
pub fn archive_file_name(id: &str, compaction_number: u32) -> (name: String)
    ensures
        name@ == id@ + "-compact-"@ + decimal(compaction_number as nat) + ".md"@,
{
    join4(id, "-compact-", u64_to_string(compaction_number as u64).as_str(), ".md")
}

/// The name of the file that holds a plan.
pub fn plan_file_name(short_id: &str, timestamp: &str) -> (name: String)
    ensures
        name@ == short_id@ + "-"@ + timestamp@ + ".md"@,
{
    join4(short_id, "-", timestamp, ".md")
}

/// The ending of the file of a session.
pub open spec fn ending() -> Seq<char> {
    seq!['.', 'j', 's', 'o', 'n']
}

/// True when the name ends in `.json`.
pub open spec fn is_session_file(name: Seq<char>) -> bool {
    name.len() >= 5 && name.subrange(name.len() - 5, name.len() as int) == ending()
}

/// The name without every `.json` that trails it.
pub open spec fn stem_of(name: Seq<char>) -> Seq<char>
    decreases name.len(),
{
    if is_session_file(name) {
        stem_of(name.subrange(0, name.len() - 5))
    } else {
        name
    }
}

/// The session that a file name stands for under a prefix in lower
/// case: the name ends in `.json`, what stands before that begins, in
/// lower case, with the prefix, and is an id.
pub open spec fn candidate(prefix: Seq<char>, name: Seq<char>) -> Option<Seq<char>> {
    if is_session_file(name) && has_prefix(lowercased(stem_of(name)), prefix) {
        uuid_text(stem_of(name))
    } else {
        None
    }
}

/// The sessions that the first `n` file names stand for under a prefix.
pub open spec fn candidates(prefix: Seq<char>, names: Seq<Seq<char>>, n: int) -> Seq<Seq<char>>
    decreases n,
{
    if n <= 0 || n > names.len() {
        Seq::empty()
    } else {
        match candidate(prefix, names[n - 1]) {
            Some(id) => candidates(prefix, names, n - 1).push(id),
            None => candidates(prefix, names, n - 1),
        }
    }
}

/// The views of a list of names.
pub open spec fn name_texts(names: Seq<String>) -> Seq<Seq<char>> {
    names.map_values(|n: String| n@)
}

fn ends_in_json(chars: &Vec<char>) -> (r: bool)
    ensures
        r == is_session_file(chars@),
{
    let n: usize = chars.len();
    if n < 5 {
        return false;
    }
    let r = chars[n - 5] == '.' && chars[n - 4] == 'j' && chars[n - 3] == 's' && chars[n - 2]
        == 'o' && chars[n - 1] == 'n';
    proof {
        let tail = chars@.subrange(n - 5, n as int);
        if r {
            assert(tail =~= ending());
        } else {
            assert(tail[0] == chars@[n - 5] && tail[1] == chars@[n - 4] && tail[2] == chars@[n
                - 3] && tail[3] == chars@[n - 2] && tail[4] == chars@[n - 1]);
        }
    }
    r
}

fn stem(name: &str) -> (r: String)
    ensures
        r@ == stem_of(name@),
{
    let mut chars = chars_of(name);
    while ends_in_json(&chars)
        invariant
            stem_of(chars@) == stem_of(name@),
        decreases chars@.len(),
    {
        let n: usize = chars.len();
        chars.truncate(n - 5);
    }
    string_from_chars(chars.as_slice())
}

/// Finds the session that a prefix of an id means among the names of
/// the files that are kept: the only one that the prefix fits, whatever
/// the case of its letters. No such session and more than one are
/// errors.
pub fn choose_by_prefix(prefix: &str, names: &[String]) -> (r: Result<String, SessionError>)
    ensures
        ({
            let found = candidates(lowercased(prefix@), name_texts(names@), names@.len() as int);
            match r {
                Ok(id) => found.len() == 1 && found[0] == id@,
                Err(SessionError::PrefixNotFound { prefix: p }) => found.len() == 0 && p@
                    == prefix@,
                Err(SessionError::AmbiguousPrefix { prefix: p, count }) => found.len() > 1
                    && count == found.len() && p@ == prefix@,
                Err(_) => false,
            }
        }),
{
    let lower = to_lowercase(prefix);
    let wanted = chars_of(lower.as_str());
    let ghost texts = name_texts(names@);
    let mut found: Vec<String> = Vec::new();
    let mut k: usize = 0;
    assert(name_texts(found@) =~= candidates(wanted@, texts, 0));
    while k < names.len()
        invariant
            k <= names@.len(),
            texts == name_texts(names@),
            wanted@ == lowercased(prefix@),
            found@.len() <= k,
            name_texts(found@) == candidates(wanted@, texts, k as int),
        decreases names.len() - k,
    {
        let ghost before = name_texts(found@);
        assert(texts[k as int] == names@[k as int]@);
        let name = names[k].as_str();
        let letters = chars_of(name);
        if ends_in_json(&letters) {
            let base = stem(name);
            let lowered = chars_of(to_lowercase(base.as_str()).as_str());
            if starts_with(&lowered, &wanted) {
                match parse_uuid(base.as_str()) {
                    Some(id) => {
                        found.push(id);
                        assert(name_texts(found@) =~= before.push(id@));
                    },
                    None => {},
                }
            }
        }
        k += 1;
    }
    if found.len() == 0 {
        Err(SessionError::PrefixNotFound { prefix: prefix.to_owned() })
    } else if found.len() == 1 {
        assert(name_texts(found@)[0] == found@[0]@);
        Ok(found.remove(0))
    } else {
        Err(SessionError::AmbiguousPrefix { prefix: prefix.to_owned(), count: found.len() })
    }
}

/// The place of a session in a list that has the one changed last
/// first: behind all that were changed as late or later.
pub open spec fn summary_place(sorted: Seq<SessionSummary>, time: i64, from: int) -> int
    decreases sorted.len() - from,
{
    if from < 0 || from >= sorted.len() {
        sorted.len() as int
    } else if sorted[from].updated_at < time {
        from
    } else {
        summary_place(sorted, time, from + 1)
    }
}

/// The first `n` sessions, the one changed last first; sessions changed
/// at one time stay in their order.
pub open spec fn recent_first(summaries: Seq<SessionSummary>, n: int) -> Seq<SessionSummary>
    decreases n,
{
    if n <= 0 || n > summaries.len() {
        Seq::empty()
    } else {
        let before = recent_first(summaries, n - 1);
        before.insert(summary_place(before, summaries[n - 1].updated_at, 0), summaries[n - 1])
    }
}

/// The list has as many sessions as were given.
pub proof fn lemma_recent_first_len(summaries: Seq<SessionSummary>, n: int)
    requires
        0 <= n <= summaries.len(),
    ensures
        recent_first(summaries, n).len() == n,
    decreases n,
{
    if n > 0 {
        lemma_recent_first_len(summaries, n - 1);
        let before = recent_first(summaries, n - 1);
        lemma_summary_place(before, summaries[n - 1].updated_at, 0);
    }
}

/// The list holds exactly the sessions that were given, each as often as
/// it was given, and none stands before one that was changed later.
pub proof fn lemma_recent_first(summaries: Seq<SessionSummary>, n: int)
    requires
        0 <= n <= summaries.len(),
    ensures
        recent_first(summaries, n).to_multiset() == summaries.take(n).to_multiset(),
        forall|i: int, j: int|
            0 <= i < j < n ==> recent_first(summaries, n)[i].updated_at >= recent_first(
                summaries,
                n,
            )[j].updated_at,
    decreases n,
{
    lemma_recent_first_len(summaries, n);
    if n > 0 {
        lemma_recent_first(summaries, n - 1);
        lemma_recent_first_len(summaries, n - 1);
        let before = recent_first(summaries, n - 1);
        let item = summaries[n - 1];
        let at = summary_place(before, item.updated_at, 0);
        lemma_summary_place(before, item.updated_at, 0);
        let after = before.insert(at, item);
        vstd::seq_lib::to_multiset_insert(before, at, item);
        vstd::seq_lib::to_multiset_build(summaries.take(n - 1), item);
        assert(summaries.take(n) =~= summaries.take(n - 1).push(item));
        assert forall|i: int, j: int| 0 <= i < j < n implies after[i].updated_at
            >= after[j].updated_at by {
            if j < at {
                assert(after[i] == before[i] && after[j] == before[j]);
            } else if j == at {
                assert(after[i] == before[i]);
            } else if i < at {
                assert(after[i] == before[i] && after[j] == before[j - 1]);
            } else if i == at {
                assert(after[j] == before[j - 1]);
                assert(at == j - 1 || before[at].updated_at >= before[j - 1].updated_at);
            } else {
                assert(after[i] == before[i - 1] && after[j] == before[j - 1]);
            }
        }
    } else {
        assert(recent_first(summaries, 0) =~= summaries.take(0));
    }
}

proof fn lemma_summary_place(sorted: Seq<SessionSummary>, time: i64, from: int)
    requires
        0 <= from <= sorted.len(),
    ensures
        from <= summary_place(sorted, time, from) <= sorted.len(),
        forall|k: int|
            from <= k < summary_place(sorted, time, from) ==> sorted[k].updated_at >= time,
        summary_place(sorted, time, from) < sorted.len() ==> sorted[summary_place(
            sorted,
            time,
            from,
        )].updated_at < time,
    decreases sorted.len() - from,
{
    if from < sorted.len() && sorted[from].updated_at >= time {
        lemma_summary_place(sorted, time, from + 1);
    }
}

/// Puts the sessions in the order in which they are listed: the one
/// changed last first.
pub fn sort_summaries(summaries: Vec<SessionSummary>) -> (sorted: Vec<SessionSummary>)
    ensures
        sorted@ == recent_first(summaries@, summaries@.len() as int),
{
    let mut rest = summaries;
    let mut sorted: Vec<SessionSummary> = Vec::new();
    let ghost all = rest@;
    let mut n: usize = 0;
    let total: usize = rest.len();
    assert(sorted@ =~= recent_first(all, 0));
    assert(rest@ =~= all.subrange(0, total as int));
    while rest.len() > 0
        invariant
            n + rest@.len() == total,
            total == all.len(),
            rest@ == all.subrange(n as int, total as int),
            sorted@ == recent_first(all, n as int),
        decreases rest@.len(),
    {
        proof {
            lemma_recent_first_len(all, n as int);
        }
        let item = rest.remove(0);
        assert(item == all[n as int]);
        assert(rest@ =~= all.subrange(n + 1, total as int));
        let time = item.updated_at;
        let mut at: usize = 0;
        while at < sorted.len() && sorted[at].updated_at >= time
            invariant
                at <= sorted@.len(),
                summary_place(sorted@, time, at as int) == summary_place(sorted@, time, 0),
            decreases sorted.len() - at,
        {
            at += 1;
        }
        sorted.insert(at, item);
        n += 1;
    }
    sorted
}

} // verus!
