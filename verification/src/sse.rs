//! Incremental parser for Server-Sent-Events records.
//!
//! The parser works on bytes. A record is the text before a blank line
//! (two line feeds in a row); what follows the last blank line stays in the
//! buffer until a later chunk completes it, so a multi-byte character cut
//! by a chunk border is never lost. Field values are decoded to text only
//! once the whole record is there.

use vstd::prelude::*;
use vstd::slice::*;
use vstd::string::*;
use vstd::utf8::*;

verus! {

pub const LF: u8 = 0x0a;

pub const CR: u8 = 0x0d;

pub const COLON: u8 = 0x3a;

pub const SPACE: u8 = 0x20;

/// One record of the stream: the value of its last `event` field, if it
/// had one, and its `data` fields joined by line feeds.
#[derive(Debug, Clone)]
pub struct SseEvent {
    pub event_type: Option<String>,
    pub data: String,
}

/// The mathematical content of an `SseEvent`.
pub struct SseRecord {
    pub event_type: Option<Seq<char>>,
    pub data: Seq<char>,
}

impl View for SseEvent {
    type V = SseRecord;

    open spec fn view(&self) -> SseRecord {
        SseRecord {
            event_type: match self.event_type {
                Some(t) => Some(t@),
                None => None,
            },
            data: self.data@,
        }
    }
}

/// The records held by a vector of events.
pub open spec fn records(events: Seq<SseEvent>) -> Seq<SseRecord> {
    events.map_values(|e: SseEvent| e@)
}

/// The text that a run of bytes stands for. On well-formed UTF-8 it is the
/// decoded text; malformed parts are replaced as the standard library's
/// lossy decoder replaces them.
pub uninterp spec fn utf8_lossy(bytes: Seq<u8>) -> Seq<char>;

/// The bytes `event`.
pub open spec fn event_name() -> Seq<u8> {
    seq![0x65u8, 0x76u8, 0x65u8, 0x6eu8, 0x74u8]
}

/// The bytes `data`.
pub open spec fn data_name() -> Seq<u8> {
    seq![0x64u8, 0x61u8, 0x74u8, 0x61u8]
}

/// The first index at or after `from` at which `b` holds `x`; the length
/// of `b` when there is none.
pub open spec fn index_of(b: Seq<u8>, x: u8, from: int) -> int
    decreases b.len() - from,
{
    if from < 0 || from >= b.len() {
        b.len() as int
    } else if b[from] == x {
        from
    } else {
        index_of(b, x, from + 1)
    }
}

/// True when a blank line starts at `p`: two line feeds in a row.
pub open spec fn break_at(b: Seq<u8>, p: int) -> bool {
    0 <= p && p + 1 < b.len() && b[p] == LF && b[p + 1] == LF
}

/// The first index at or after `from` where a blank line starts, if any.
pub open spec fn first_break(b: Seq<u8>, from: int) -> Option<int>
    decreases b.len() - from,
{
    if from < 0 || from + 1 >= b.len() {
        None
    } else if b[from] == LF && b[from + 1] == LF {
        Some(from)
    } else {
        first_break(b, from + 1)
    }
}

/// A line without the carriage return that ended it, if one did.
pub open spec fn strip_cr(line: Seq<u8>) -> Seq<u8> {
    if line.len() > 0 && line.last() == CR {
        line.drop_last()
    } else {
        line
    }
}

/// A field value without the single space that may lead it.
pub open spec fn strip_space(value: Seq<u8>) -> Seq<u8> {
    if value.len() > 0 && value[0] == SPACE {
        value.drop_first()
    } else {
        value
    }
}

/// The lines of a block. A line ends at a line feed, or at a carriage
/// return directly followed by one; the last line needs no line ending,
/// and a carriage return that ends the text without a line feed stays.
pub open spec fn lines_of(b: Seq<u8>) -> Seq<Seq<u8>>
    decreases b.len(),
    via lines_of_decreases
{
    if b.len() == 0 {
        Seq::empty()
    } else {
        let i = index_of(b, LF, 0);
        if i >= b.len() {
            seq![b]
        } else {
            seq![strip_cr(b.subrange(0, i))] + lines_of(b.subrange(i + 1, b.len() as int))
        }
    }
}

/// What the lines read so far have set: the event type and the data lines.
pub struct Fields {
    pub event_type: Option<Seq<u8>>,
    pub data_lines: Seq<Seq<u8>>,
}

/// The effect of one line. A line that starts with a colon is a comment.
/// Otherwise the text before the first colon names the field and the text
/// after it, less one leading space, is its value: `event` replaces the
/// event type, `data` adds a data line, other names are ignored. A line
/// without a colon counts only when it is the bare word `data`, which adds
/// an empty data line.
pub open spec fn apply_line(f: Fields, line: Seq<u8>) -> Fields {
    if line.len() > 0 && line[0] == COLON {
        f
    } else {
        let k = index_of(line, COLON, 0);
        if k < line.len() {
            let field = line.subrange(0, k);
            let value = strip_space(line.subrange(k + 1, line.len() as int));
            if field == event_name() {
                Fields { event_type: Some(value), data_lines: f.data_lines }
            } else if field == data_name() {
                Fields { event_type: f.event_type, data_lines: f.data_lines.push(value) }
            } else {
                f
            }
        } else if line == data_name() {
            Fields { event_type: f.event_type, data_lines: f.data_lines.push(Seq::empty()) }
        } else {
            f
        }
    }
}

/// The fields after the first `n` lines.
pub open spec fn fields_after(lines: Seq<Seq<u8>>, n: int) -> Fields
    decreases n,
{
    if n <= 0 {
        Fields { event_type: None, data_lines: Seq::empty() }
    } else {
        apply_line(fields_after(lines, n - 1), lines[n - 1])
    }
}

/// The data lines joined by single line feeds.
pub open spec fn join_lines(lines: Seq<Seq<u8>>) -> Seq<u8>
    decreases lines.len(),
{
    if lines.len() == 0 {
        Seq::empty()
    } else if lines.len() == 1 {
        lines[0]
    } else {
        join_lines(lines.drop_last()) + seq![LF] + lines.last()
    }
}

/// A record before its fields are decoded to text.
pub struct RawRecord {
    pub event_type: Option<Seq<u8>>,
    pub data: Seq<u8>,
}

/// The raw record that a block stands for; none when it has no `data`
/// field.
pub open spec fn raw_record_of(block: Seq<u8>) -> Option<RawRecord> {
    let lines = lines_of(block);
    let f = fields_after(lines, lines.len() as int);
    if f.data_lines.len() == 0 {
        None
    } else {
        Some(RawRecord { event_type: f.event_type, data: join_lines(f.data_lines) })
    }
}

/// The text that bytes stand for: the text that they encode, where they
/// are well-formed UTF-8; else their lossy decoding.
pub open spec fn text_of(bytes: Seq<u8>) -> Seq<char> {
    if valid_utf8(bytes) {
        decode_utf8(bytes)
    } else {
        utf8_lossy(bytes)
    }
}

/// The record with its fields decoded to text: a field of well-formed
/// UTF-8 is the text that its bytes encode.
pub open spec fn decoded(r: RawRecord) -> SseRecord {
    SseRecord {
        event_type: match r.event_type {
            Some(t) => Some(text_of(t)),
            None => None,
        },
        data: text_of(r.data),
    }
}

/// The record that a block stands for; none when it has no `data` field.
pub open spec fn record_of(block: Seq<u8>) -> Option<SseRecord> {
    match raw_record_of(block) {
        Some(r) => Some(decoded(r)),
        None => None,
    }
}

/// The raw records of all complete blocks in `b`, in order.
pub open spec fn raw_events_of(b: Seq<u8>) -> Seq<RawRecord>
    decreases b.len(),
    via raw_events_of_decreases
{
    match first_break(b, 0) {
        None => Seq::empty(),
        Some(p) => {
            let tail = raw_events_of(b.subrange(p + 2, b.len() as int));
            match raw_record_of(b.subrange(0, p)) {
                Some(r) => seq![r] + tail,
                None => tail,
            }
        },
    }
}

/// The records of all complete blocks in `b`, in order.
pub open spec fn events_of(b: Seq<u8>) -> Seq<SseRecord>
    decreases b.len(),
    via events_of_decreases
{
    match first_break(b, 0) {
        None => Seq::empty(),
        Some(p) => {
            let tail = events_of(b.subrange(p + 2, b.len() as int));
            match record_of(b.subrange(0, p)) {
                Some(r) => seq![r] + tail,
                None => tail,
            }
        },
    }
}

/// What is left of `b` after its last complete block.
pub open spec fn rest_of(b: Seq<u8>) -> Seq<u8>
    decreases b.len(),
    via rest_of_decreases
{
    match first_break(b, 0) {
        None => b,
        Some(p) => rest_of(b.subrange(p + 2, b.len() as int)),
    }
}


#[via_fn]
proof fn lines_of_decreases(b: Seq<u8>) {
    lemma_index_of(b, LF, 0);
}

#[via_fn]
proof fn events_of_decreases(b: Seq<u8>) {
    lemma_first_break(b, 0);
}

#[via_fn]
proof fn raw_events_of_decreases(b: Seq<u8>) {
    lemma_first_break(b, 0);
}

#[via_fn]
proof fn rest_of_decreases(b: Seq<u8>) {
    lemma_first_break(b, 0);
}

/// The state of parsing after a run of chunks has been fed one by one to a
/// parser that held `state`: the records handed out, in order, and the
/// bytes left pending.
pub open spec fn feed_chunks(state: Seq<u8>, chunks: Seq<Seq<u8>>) -> (Seq<SseRecord>, Seq<u8>)
    decreases chunks.len(),
{
    if chunks.len() == 0 {
        (Seq::empty(), state)
    } else {
        let joined = state + chunks[0];
        let later = feed_chunks(rest_of(joined), chunks.drop_first());
        (events_of(joined) + later.0, later.1)
    }
}

/// The chunks laid end to end.
pub open spec fn concat_chunks(chunks: Seq<Seq<u8>>) -> Seq<u8>
    decreases chunks.len(),
{
    if chunks.len() == 0 {
        Seq::empty()
    } else {
        chunks[0] + concat_chunks(chunks.drop_first())
    }
}

pub proof fn lemma_index_of(b: Seq<u8>, x: u8, from: int)
    requires
        0 <= from <= b.len(),
    ensures
        from <= index_of(b, x, from) <= b.len(),
        index_of(b, x, from) < b.len() ==> b[index_of(b, x, from)] == x,
        forall|j: int| from <= j < index_of(b, x, from) ==> b[j] != x,
    decreases b.len() - from,
{
    if from < b.len() && b[from] != x {
        lemma_index_of(b, x, from + 1);
    }
}

/// Searching a tail of `b` from its start finds what searching `b` from
/// the tail's offset finds.
pub proof fn lemma_index_of_shift(b: Seq<u8>, x: u8, from: int)
    requires
        0 <= from <= b.len(),
    ensures
        index_of(b.subrange(from, b.len() as int), x, 0) + from == index_of(b, x, from),
    decreases b.len() - from,
{
    let tail = b.subrange(from, b.len() as int);
    lemma_index_of(b, x, from);
    lemma_index_of(tail, x, 0);
    let i = index_of(b, x, from);
    let j = index_of(tail, x, 0);
    if j + from < i {
        assert(tail[j] == b[j + from]);
    } else if j + from > i {
        assert(tail[i - from] == b[i]);
    }
}

pub proof fn lemma_first_break(b: Seq<u8>, from: int)
    requires
        0 <= from,
    ensures
        match first_break(b, from) {
            Some(p) => from <= p && break_at(b, p) && forall|q: int|
                from <= q < p ==> !break_at(b, q),
            None => forall|q: int| from <= q ==> !break_at(b, q),
        },
    decreases b.len() - from,
{
    if from + 1 < b.len() && !(b[from] == LF && b[from + 1] == LF) {
        lemma_first_break(b, from + 1);
    }
}

/// A blank line found in a tail of `b` is the one found in `b` from the
/// tail's offset.
pub proof fn lemma_first_break_shift(b: Seq<u8>, from: int)
    requires
        0 <= from <= b.len(),
    ensures
        first_break(b, from) == match first_break(b.subrange(from, b.len() as int), 0) {
            Some(q) => Some(q + from),
            None => None,
        },
{
    let tail = b.subrange(from, b.len() as int);
    lemma_first_break(b, from);
    lemma_first_break(tail, 0);
    assert forall|q: int| break_at(tail, q) <==> (from <= q + from && break_at(b, q + from)) by {
        if 0 <= q && q + 1 < tail.len() {
            assert(tail[q] == b[q + from]);
            assert(tail[q + 1] == b[q + 1 + from]);
        }
    }
    match first_break(tail, 0) {
        Some(q) => {
            assert(break_at(b, q + from));
            match first_break(b, from) {
                Some(p) => {
                    if p < q + from {
                        assert(break_at(tail, p - from));
                    }
                },
                None => {},
            }
        },
        None => {
            match first_break(b, from) {
                Some(p) => {
                    assert(break_at(tail, p - from));
                },
                None => {},
            }
        },
    }
}

/// The first blank line of `a` is still the first one after more bytes
/// have arrived behind it.
pub proof fn lemma_first_break_prefix(a: Seq<u8>, b: Seq<u8>)
    requires
        first_break(a, 0) is Some,
    ensures
        first_break(a + b, 0) == first_break(a, 0),
{
    let p = first_break(a, 0)->0;
    lemma_first_break(a, 0);
    lemma_first_break(a + b, 0);
    assert(break_at(a + b, p));
    match first_break(a + b, 0) {
        Some(q) => {
            if q < p {
                assert((a + b)[q] == a[q]);
                assert((a + b)[q + 1] == a[q + 1]);
                assert(break_at(a, q));
            }
        },
        None => {},
    }
}

/// What is left pending holds no complete block.
pub proof fn lemma_rest_has_no_break(b: Seq<u8>)
    ensures
        first_break(rest_of(b), 0) is None,
        events_of(rest_of(b)) == Seq::<SseRecord>::empty(),
        rest_of(rest_of(b)) == rest_of(b),
    decreases b.len(),
{
    lemma_first_break(b, 0);
    match first_break(b, 0) {
        Some(p) => {
            lemma_rest_has_no_break(b.subrange(p + 2, b.len() as int));
        },
        None => {},
    }
}

/// Feeding `a` and then `b` hands out the records of `a + b`, and leaves
/// pending what feeding `a + b` at once leaves.
pub proof fn lemma_feed_split(a: Seq<u8>, b: Seq<u8>)
    ensures
        events_of(a + b) == events_of(a) + events_of(rest_of(a) + b),
        rest_of(a + b) == rest_of(rest_of(a) + b),
    decreases a.len(),
{
    lemma_first_break(a, 0);
    match first_break(a, 0) {
        None => {
            assert(events_of(a) + events_of(a + b) =~= events_of(a + b));
        },
        Some(p) => {
            lemma_first_break_prefix(a, b);
            let a2 = a.subrange(p + 2, a.len() as int);
            assert((a + b).subrange(0, p) =~= a.subrange(0, p));
            assert((a + b).subrange(p + 2, (a + b).len() as int) =~= a2 + b);
            lemma_feed_split(a2, b);
            let tail = events_of(a2) + events_of(rest_of(a2) + b);
            match record_of(a.subrange(0, p)) {
                Some(r) => {
                    assert(seq![r] + tail =~= (seq![r] + events_of(a2)) + events_of(
                        rest_of(a2) + b,
                    ));
                },
                None => {},
            }
        },
    }
}

/// However a byte stream is cut into chunks, feeding the chunks one by one
/// to a parser with nothing complete pending hands out the same records,
/// in the same order, as feeding the whole stream in one call, and leaves
/// the same bytes pending.
pub proof fn lemma_chunking_is_invisible(state: Seq<u8>, chunks: Seq<Seq<u8>>)
    requires
        first_break(state, 0) is None,
    ensures
        feed_chunks(state, chunks).0 == events_of(state + concat_chunks(chunks)),
        feed_chunks(state, chunks).1 == rest_of(state + concat_chunks(chunks)),
    decreases chunks.len(),
{
    if chunks.len() == 0 {
        assert(state + concat_chunks(chunks) =~= state);
    } else {
        let joined = state + chunks[0];
        let later = concat_chunks(chunks.drop_first());
        lemma_rest_has_no_break(joined);
        lemma_chunking_is_invisible(rest_of(joined), chunks.drop_first());
        lemma_feed_split(joined, later);
        assert(joined + later =~= state + concat_chunks(chunks));
    }
}

/// Adding a data line to the joined text: the first line stands alone,
/// each later one follows a line feed.
pub proof fn lemma_join_push(lines: Seq<Seq<u8>>, value: Seq<u8>)
    ensures
        join_lines(lines.push(value)) == if lines.len() == 0 {
            value
        } else {
            join_lines(lines) + seq![LF] + value
        },
{
    assert(lines.push(value).drop_last() =~= lines);
}

/// The views of the lines held by a vector of byte vectors.
pub open spec fn line_views(lines: Seq<Vec<u8>>) -> Seq<Seq<u8>> {
    lines.map_values(|l: Vec<u8>| l@)
}

/// The view of an optional byte vector.
pub open spec fn opt_bytes(o: Option<Vec<u8>>) -> Option<Seq<u8>> {
    match o {
        Some(v) => Some(v@),
        None => None,
    }
}

/// `String::from_utf8_lossy`: decodes bytes to text. The standard library
/// documents that well-formed UTF-8 decodes to the text it encodes and that
/// malformed parts are replaced; the result depends on the bytes alone.
#[verifier::external_body]
pub(crate) fn decode_lossy(bytes: &[u8]) -> (s: String)
    ensures
        s@ == utf8_lossy(bytes@),
        valid_utf8(bytes@) ==> s@ == decode_utf8(bytes@),
{
    String::from_utf8_lossy(bytes).into_owned()
}

/// Copies `src[from..to]` into a vector of its own.
pub fn copy_range(src: &[u8], from: usize, to: usize) -> (out: Vec<u8>)
    requires
        from <= to <= src@.len(),
    ensures
        out@ == src@.subrange(from as int, to as int),
{
    slice_to_vec(slice_subrange(src, from, to))
}

/// Appends `src` to `dst`.
pub fn append_bytes(dst: &mut Vec<u8>, src: &[u8])
    ensures
        final(dst)@ == old(dst)@ + src@,
{
    let n: usize = src.len();
    let mut i: usize = 0;
    while i < n
        invariant
            i <= n,
            n == src@.len(),
            dst@ == old(dst)@ + src@.subrange(0, i as int),
        decreases n - i,
    {
        dst.push(src[i]);
        i += 1;
        assert(dst@ =~= old(dst)@ + src@.subrange(0, i as int));
    }
    assert(src@.subrange(0, n as int) =~= src@);
}

/// The first index at or after `from` at which `b` holds `x`, or the
/// length of `b`.
pub fn find_byte(b: &[u8], x: u8, from: usize) -> (i: usize)
    requires
        from <= b@.len(),
    ensures
        i as int == index_of(b@, x, from as int),
        from <= i <= b@.len(),
{
    let n: usize = b.len();
    let mut i: usize = from;
    while i < n && b[i] != x
        invariant
            from <= i <= n,
            n == b@.len(),
            index_of(b@, x, i as int) == index_of(b@, x, from as int),
        decreases n - i,
    {
        i += 1;
    }
    i
}

/// The first index at or after `from` where a blank line starts in `b`.
pub fn find_break(b: &[u8], from: usize) -> (r: Option<usize>)
    requires
        from <= b@.len(),
    ensures
        match r {
            Some(p) => first_break(b@, from as int) == Some(p as int) && from <= p && p + 2
                <= b@.len(),
            None => first_break(b@, from as int) is None,
        },
{
    let n: usize = b.len();
    let mut i: usize = from;
    while i < n && n - i >= 2
        invariant
            from <= i <= n,
            n == b@.len(),
            first_break(b@, i as int) == first_break(b@, from as int),
        decreases n - i,
    {
        if b[i] == LF && b[i + 1] == LF {
            return Some(i);
        }
        i += 1;
    }
    None
}

/// True when `field` is the word `event`.
fn is_event_name(field: &[u8]) -> (r: bool)
    ensures
        r == (field@ == event_name()),
{
    let r = field.len() == 5 && field[0] == 0x65u8 && field[1] == 0x76u8 && field[2] == 0x65u8
        && field[3] == 0x6eu8 && field[4] == 0x74u8;
    if r {
        assert(field@ =~= event_name());
    }
    r
}

/// True when `field` is the word `data`.
fn is_data_name(field: &[u8]) -> (r: bool)
    ensures
        r == (field@ == data_name()),
{
    let r = field.len() == 4 && field[0] == 0x64u8 && field[1] == 0x61u8 && field[2] == 0x74u8
        && field[3] == 0x61u8;
    if r {
        assert(field@ =~= data_name());
    }
    r
}

/// Splits a block into its lines.
pub fn split_lines(block: &[u8]) -> (lines: Vec<Vec<u8>>)
    ensures
        line_views(lines@) == lines_of(block@),
{
    let n: usize = block.len();
    let mut lines: Vec<Vec<u8>> = Vec::new();
    let mut start: usize = 0;
    assert(block@.subrange(0, n as int) =~= block@);
    assert(line_views(lines@) + lines_of(block@) =~= lines_of(block@));
    while start < n
        invariant
            start <= n,
            n == block@.len(),
            line_views(lines@) + lines_of(block@.subrange(start as int, n as int)) == lines_of(
                block@,
            ),
        decreases n - start,
    {
        let ghost rest = block@.subrange(start as int, n as int);
        let ghost before = line_views(lines@);
        let i: usize = find_byte(block, LF, start);
        proof {
            lemma_index_of_shift(block@, LF, start as int);
            lemma_index_of(block@, LF, start as int);
        }
        if i >= n {
            let line = copy_range(block, start, n);
            lines.push(line);
            start = n;
            proof {
                assert(line_views(lines@) =~= before + seq![rest]);
                assert(block@.subrange(n as int, n as int) =~= Seq::<u8>::empty());
                assert(line_views(lines@) + lines_of(block@.subrange(n as int, n as int))
                    =~= before + lines_of(rest));
            }
        } else {
            let mut end: usize = i;
            if end > start && block[end - 1] == CR {
                end -= 1;
            }
            let line = copy_range(block, start, end);
            lines.push(line);
            proof {
                let head = rest.subrange(0, i - start);
                assert(head =~= block@.subrange(start as int, i as int));
                assert(strip_cr(head) =~= line@);
                assert(rest.subrange(i - start + 1, rest.len() as int) =~= block@.subrange(
                    i + 1,
                    n as int,
                ));
                assert(line_views(lines@) =~= before + seq![strip_cr(head)]);
                assert(line_views(lines@) + lines_of(block@.subrange(i + 1, n as int))
                    =~= before + lines_of(rest));
            }
            start = i + 1;
        }
    }
    assert(block@.subrange(n as int, n as int) =~= Seq::<u8>::empty());
    assert(line_views(lines@) + Seq::<Seq<u8>>::empty() =~= line_views(lines@));
    lines
}

/// Incremental parser: holds the bytes that no blank line has completed yet.
pub struct SseParser {
    buffer: Vec<u8>,
}

impl View for SseParser {
    type V = Seq<u8>;

    closed spec fn view(&self) -> Seq<u8> {
        self.buffer@
    }
}

impl SseParser {
    /// A parser with nothing pending.
    pub fn new() -> (p: Self)
        ensures
            p@ == Seq::<u8>::empty(),
    {
        SseParser { buffer: Vec::new() }
    }

    /// Parses one block, the text between two blank lines, into a record.
    /// A block without a `data` field gives none.
    pub fn parse_block(block: &[u8]) -> (r: Option<SseEvent>)
        ensures
            match r {
                Some(e) => record_of(block@) == Some(e@),
                None => record_of(block@) is None,
            },
    {
        let lines = split_lines(block);
        let ghost lv = lines_of(block@);
        let mut event_type: Option<Vec<u8>> = None;
        let mut data: Vec<u8> = Vec::new();
        let mut has_data = false;
        let mut i: usize = 0;
        while i < lines.len()
            invariant
                i <= lines.len(),
                lv == line_views(lines@),
                opt_bytes(event_type) == fields_after(lv, i as int).event_type,
                data@ == join_lines(fields_after(lv, i as int).data_lines),
                has_data == (fields_after(lv, i as int).data_lines.len() > 0),
            decreases lines.len() - i,
        {
            let line = lines[i].as_slice();
            let ghost f = fields_after(lv, i as int);
            assert(lv[i as int] == line@);
            assert(fields_after(lv, i + 1) == apply_line(f, line@));
            let len: usize = line.len();
            if len > 0 && line[0] == COLON {
            } else {
                let k: usize = find_byte(line, COLON, 0);
                if k < len {
                    let mut from: usize = k + 1;
                    if from < len && line[from] == SPACE {
                        from += 1;
                    }
                    let value = copy_range(line, from, len);
                    let field = slice_subrange(line, 0, k);
                    assert(value@ =~= strip_space(line@.subrange(k + 1, len as int)));
                    if is_event_name(field) {
                        event_type = Some(value);
                    } else if is_data_name(field) {
                        proof {
                            lemma_join_push(f.data_lines, value@);
                        }
                        if has_data {
                            data.push(LF);
                        }
                        append_bytes(&mut data, value.as_slice());
                        has_data = true;
                        assert(data@ =~= join_lines(f.data_lines.push(value@)));
                    }
                } else if is_data_name(line) {
                    proof {
                        lemma_join_push(f.data_lines, Seq::<u8>::empty());
                    }
                    if has_data {
                        data.push(LF);
                    }
                    has_data = true;
                    assert(data@ =~= join_lines(f.data_lines.push(Seq::<u8>::empty())));
                }
            }
            i += 1;
        }
        if !has_data {
            return None;
        }
        let event_type = match event_type {
            Some(t) => Some(decode_lossy(t.as_slice())),
            None => None,
        };
        Some(SseEvent { event_type, data: decode_lossy(data.as_slice()) })
    }

    /// Takes in the next chunk of the stream and hands out the records that
    /// it completes, in order. What follows the last blank line stays pending.
    pub fn feed_bytes(&mut self, chunk: &[u8]) -> (events: Vec<SseEvent>)
        ensures
            records(events@) == events_of(old(self)@ + chunk@),
            final(self)@ == rest_of(old(self)@ + chunk@),
    {
        append_bytes(&mut self.buffer, chunk);
        let ghost all = self.buffer@;
        let n: usize = self.buffer.len();
        let mut events: Vec<SseEvent> = Vec::new();
        let mut start: usize = 0;
        assert(all.subrange(0, n as int) =~= all);
        assert(records(events@) + events_of(all) =~= events_of(all));
        loop
            invariant
                start <= n,
                n == all.len(),
                self.buffer@ == all,
                records(events@) + events_of(all.subrange(start as int, n as int)) == events_of(
                    all,
                ),
                rest_of(all.subrange(start as int, n as int)) == rest_of(all),
            ensures
                start <= n,
                n == all.len(),
                self.buffer@ == all,
                records(events@) == events_of(all),
                all.subrange(start as int, n as int) == rest_of(all),
            decreases n - start,
        {
            let ghost rest = all.subrange(start as int, n as int);
            let ghost before = records(events@);
            proof {
                lemma_first_break_shift(all, start as int);
            }
            match find_break(self.buffer.as_slice(), start) {
                None => {
                    assert(before + Seq::<SseRecord>::empty() =~= before);
                    break ;
                },
                Some(p) => {
                    let block = slice_subrange(self.buffer.as_slice(), start, p);
                    assert(block@ =~= rest.subrange(0, p - start));
                    assert(rest.subrange(p - start + 2, rest.len() as int) =~= all.subrange(
                        p + 2,
                        n as int,
                    ));
                    match Self::parse_block(block) {
                        Some(e) => {
                            events.push(e);
                            assert(records(events@) =~= before + seq![e@]);
                            assert(records(events@) + events_of(all.subrange(p + 2, n as int))
                                =~= before + events_of(rest));
                        },
                        None => {},
                    }
                    start = p + 2;
                },
            }
        }
        let rest = self.buffer.split_off(start);
        self.buffer = rest;
        events
    }

    /// Takes in the next chunk of the stream, given as text.
    pub fn feed(&mut self, chunk: &str) -> (events: Vec<SseEvent>)
        ensures
            records(events@) == events_of(old(self)@ + chunk.spec_bytes()),
            final(self)@ == rest_of(old(self)@ + chunk.spec_bytes()),
    {
        self.feed_bytes(chunk.as_bytes())
    }
}

} // verus!
