//! Records written back as stream text, and the proof that the text reads
//! back as the same records.

use crate::sse::{
    append_bytes, find_byte, apply_line, break_at, data_name, decoded, event_name, events_of,
    fields_after, first_break, index_of, join_lines, lemma_first_break, lemma_index_of,
    lemma_join_push, lines_of, raw_events_of, raw_record_of, rest_of, strip_cr, Fields, RawRecord,
    COLON, CR, LF, SPACE,
};
use vstd::prelude::*;

verus! {

/// The pieces of `d` between its line feeds.
pub open spec fn split_lf(d: Seq<u8>) -> Seq<Seq<u8>>
    decreases d.len(),
    via split_lf_decreases
{
    let i = index_of(d, LF, 0);
    if i >= d.len() {
        seq![d]
    } else {
        seq![d.subrange(0, i)] + split_lf(d.subrange(i + 1, d.len() as int))
    }
}

#[via_fn]
proof fn split_lf_decreases(d: Seq<u8>) {
    lemma_index_of(d, LF, 0);
}

/// The bytes `event: `.
pub open spec fn event_prefix() -> Seq<u8> {
    event_name() + seq![COLON, SPACE]
}

/// The bytes `data: `.
pub open spec fn data_prefix() -> Seq<u8> {
    data_name() + seq![COLON, SPACE]
}

/// The first `n` data lines, each behind `data: `.
pub open spec fn data_lines_of(pieces: Seq<Seq<u8>>, n: int) -> Seq<Seq<u8>>
    decreases n,
{
    if n <= 0 {
        Seq::empty()
    } else {
        data_lines_of(pieces, n - 1).push(data_prefix() + pieces[n - 1])
    }
}

/// The line that sets the event type, if the record has one.
pub open spec fn event_lines_of(r: RawRecord) -> Seq<Seq<u8>> {
    match r.event_type {
        Some(t) => seq![event_prefix() + t],
        None => Seq::empty(),
    }
}

/// The lines of the text of a record: the event type, if any, then one
/// `data` line for each line of the data.
pub open spec fn record_lines(r: RawRecord) -> Seq<Seq<u8>> {
    event_lines_of(r) + data_lines_of(split_lf(r.data), split_lf(r.data).len() as int)
}

/// The text of a record: its lines, each ended by a line feed, and the
/// blank line that ends the record.
pub open spec fn rendered(r: RawRecord) -> Seq<u8> {
    join_lines(record_lines(r)) + seq![LF, LF]
}

/// The texts of the records, one after the other.
pub open spec fn rendered_all(rs: Seq<RawRecord>) -> Seq<u8>
    decreases rs.len(),
{
    if rs.len() == 0 {
        Seq::empty()
    } else {
        rendered(rs[0]) + rendered_all(rs.drop_first())
    }
}

/// True when `l` holds no line feed.
pub open spec fn one_line(l: Seq<u8>) -> bool {
    forall|i: int| 0 <= i < l.len() ==> l[i] != LF
}

/// True when `l` ends in a carriage return.
pub open spec fn ends_in_cr(l: Seq<u8>) -> bool {
    l.len() > 0 && l.last() == CR
}

/// True when the record reads back as written: its event type is one line,
/// and neither the event type nor any line of the data ends in a carriage
/// return, which a reader would take for part of the line ending.
pub open spec fn reads_back(r: RawRecord) -> bool {
    &&& match r.event_type {
        Some(t) => one_line(t) && !ends_in_cr(t),
        None => true,
    }
    &&& forall|i: int| 0 <= i < split_lf(r.data).len() ==> !ends_in_cr(#[trigger] split_lf(r.data)[i])
}

/// True when `l` can stand as a line of a block: it is not empty, holds
/// no line feed, and does not end in a carriage return.
pub open spec fn block_line(l: Seq<u8>) -> bool {
    l.len() > 0 && one_line(l) && !ends_in_cr(l)
}

pub proof fn lemma_join_one(h: Seq<u8>)
    ensures
        join_lines(seq![h]) == h,
{
}

/// Joining a first line with further lines puts a line feed between them.
pub proof fn lemma_join_cons(h: Seq<u8>, rest: Seq<Seq<u8>>)
    requires
        rest.len() > 0,
    ensures
        join_lines(seq![h] + rest) == h + seq![LF] + join_lines(rest),
    decreases rest.len(),
{
    let all = seq![h] + rest;
    assert(all.drop_last() =~= seq![h] + rest.drop_last());
    assert(all.last() == rest.last());
    if rest.len() == 1 {
        assert(rest.drop_last() =~= Seq::<Seq<u8>>::empty());
        assert(seq![h] + rest.drop_last() =~= seq![h]);
        lemma_join_one(h);
        assert(all.drop_last() == seq![h]);
        assert(join_lines(all.drop_last()) == h);
        assert(all.len() == 2);
        assert(join_lines(all) == join_lines(all.drop_last()) + seq![LF] + all.last());
        assert(join_lines(rest) == rest[0]);
        assert(join_lines(all) =~= h + seq![LF] + rest[0]);
    } else {
        lemma_join_cons(h, rest.drop_last());
        assert(join_lines(all) =~= h + seq![LF] + join_lines(rest));
    }
}

/// The pieces of a text hold no line feed, and joined they are the text.
pub proof fn lemma_split_lf(d: Seq<u8>)
    ensures
        split_lf(d).len() >= 1,
        forall|i: int| 0 <= i < split_lf(d).len() ==> one_line(#[trigger] split_lf(d)[i]),
        join_lines(split_lf(d)) == d,
    decreases d.len(),
{
    lemma_index_of(d, LF, 0);
    let i = index_of(d, LF, 0);
    if i >= d.len() {
        assert(split_lf(d) =~= seq![d]);
    } else {
        let head = d.subrange(0, i);
        let tail = d.subrange(i + 1, d.len() as int);
        lemma_split_lf(tail);
        lemma_join_cons(head, split_lf(tail));
        assert(head + seq![LF] + tail =~= d);
        assert forall|k: int| 0 <= k < split_lf(d).len() implies one_line(
            #[trigger] split_lf(d)[k],
        ) by {
            if k == 0 {
                assert(split_lf(d)[0] == head);
            } else {
                assert(split_lf(d)[k] == split_lf(tail)[k - 1]);
            }
        }
    }
}

/// Lines joined by line feeds split again into the same lines, and no
/// blank line lies among them.
pub proof fn lemma_lines_of_join(ls: Seq<Seq<u8>>)
    requires
        ls.len() > 0,
        forall|i: int| 0 <= i < ls.len() ==> block_line(#[trigger] ls[i]),
    ensures
        join_lines(ls).len() > 0,
        join_lines(ls)[0] != LF,
        join_lines(ls).last() != LF,
        forall|q: int| !break_at(join_lines(ls), q),
        lines_of(join_lines(ls)) == ls,
    decreases ls.len(),
{
    let h = ls[0];
    assert(block_line(h));
    if ls.len() == 1 {
        assert(ls =~= seq![h]);
        lemma_index_of(h, LF, 0);
        assert(lines_of(h) =~= seq![h]);
    } else {
        let rest = ls.drop_first();
        assert(ls =~= seq![h] + rest);
        assert forall|i: int| 0 <= i < rest.len() implies block_line(#[trigger] rest[i]) by {
            assert(rest[i] == ls[i + 1]);
        }
        lemma_lines_of_join(rest);
        lemma_join_cons(h, rest);
        let jr = join_lines(rest);
        let j = join_lines(ls);
        assert(j =~= h + seq![LF] + jr);
        let n = h.len() as int;
        assert(j[n] == LF);
        assert forall|k: int| 0 <= k < n implies j[k] != LF by {
            assert(j[k] == h[k]);
        }
        lemma_index_of(j, LF, 0);
        assert(index_of(j, LF, 0) == n);
        assert(j.subrange(0, n) =~= h);
        assert(j.subrange(n + 1, j.len() as int) =~= jr);
        assert(strip_cr(h) == h);
        assert(lines_of(j) =~= seq![h] + lines_of(jr));
        assert forall|q: int| !break_at(j, q) by {
            if 0 <= q && q + 1 < j.len() {
                if q < n {
                    assert(j[q] == h[q]);
                } else if q == n {
                    assert(j[q + 1] == jr[0]);
                } else {
                    assert(j[q] == jr[q - n - 1]);
                    assert(j[q + 1] == jr[q - n]);
                    assert(!break_at(jr, q - n - 1));
                }
            }
        }
        assert(j.last() == jr.last());
    }
}

/// A line that sets the event type sets it to what follows `event: `.
pub proof fn lemma_apply_event_line(f: Fields, t: Seq<u8>)
    ensures
        apply_line(f, event_prefix() + t) == (Fields {
            event_type: Some(t),
            data_lines: f.data_lines,
        }),
{
    let line = event_prefix() + t;
    lemma_index_of(line, COLON, 0);
    assert(line[5] == COLON);
    assert(line[0] != COLON && line[1] != COLON && line[2] != COLON && line[3] != COLON && line[4]
        != COLON);
    assert(index_of(line, COLON, 0) == 5);
    assert(line.subrange(0, 5) =~= event_name());
    let after = line.subrange(6, line.len() as int);
    assert(line.subrange(6, line.len() as int) =~= seq![SPACE] + t);
    assert((seq![SPACE] + t).drop_first() =~= t);
}

/// A data line adds what follows `data: `.
pub proof fn lemma_apply_data_line(f: Fields, l: Seq<u8>)
    ensures
        apply_line(f, data_prefix() + l) == (Fields {
            event_type: f.event_type,
            data_lines: f.data_lines.push(l),
        }),
{
    let line = data_prefix() + l;
    lemma_index_of(line, COLON, 0);
    assert(line[4] == COLON);
    assert(line[0] != COLON && line[1] != COLON && line[2] != COLON && line[3] != COLON);
    assert(index_of(line, COLON, 0) == 4);
    assert(line.subrange(0, 4) =~= data_name());
    assert(line.subrange(0, 4) != event_name()) by {
        assert(event_name().len() == 5);
    }
    assert(line.subrange(5, line.len() as int) =~= seq![SPACE] + l);
    assert((seq![SPACE] + l).drop_first() =~= l);
}

/// The lines of a record set the fields of the record.
pub proof fn lemma_fields_of_record(r: RawRecord, k: int)
    requires
        0 <= k <= split_lf(r.data).len(),
    ensures
        fields_after(record_lines(r), event_lines_of(r).len() + k) == (Fields {
            event_type: r.event_type,
            data_lines: split_lf(r.data).subrange(0, k),
        }),
    decreases k,
{
    let pieces = split_lf(r.data);
    let lines = record_lines(r);
    let e = event_lines_of(r).len() as int;
    let start = Fields { event_type: None, data_lines: Seq::empty() };
    lemma_data_lines_len(pieces, pieces.len() as int);
    if k == 0 {
        assert(pieces.subrange(0, 0) =~= Seq::<Seq<u8>>::empty());
        match r.event_type {
            Some(t) => {
                assert(lines[0] == event_prefix() + t);
                assert(fields_after(lines, 0) == start);
                lemma_apply_event_line(start, t);
            },
            None => {},
        }
    } else {
        lemma_fields_of_record(r, k - 1);
        assert(lines[e + k - 1] == data_prefix() + pieces[k - 1]);
        lemma_apply_data_line(fields_after(lines, e + k - 1), pieces[k - 1]);
        assert(pieces.subrange(0, k - 1).push(pieces[k - 1]) =~= pieces.subrange(0, k));
    }
}

/// There is one data line for each piece of the data.
pub proof fn lemma_data_lines_len(pieces: Seq<Seq<u8>>, n: int)
    requires
        0 <= n <= pieces.len(),
    ensures
        data_lines_of(pieces, n).len() == n,
        forall|i: int| 0 <= i < n ==> #[trigger] data_lines_of(pieces, n)[i] == data_prefix()
            + pieces[i],
    decreases n,
{
    if n > 0 {
        lemma_data_lines_len(pieces, n - 1);
    }
}

/// The lines of a record that reads back can stand as lines of a block.
pub proof fn lemma_record_lines(r: RawRecord)
    requires
        reads_back(r),
    ensures
        record_lines(r).len() > 0,
        forall|i: int| 0 <= i < record_lines(r).len() ==> block_line(#[trigger] record_lines(r)[i]),
{
    let pieces = split_lf(r.data);
    lemma_split_lf(r.data);
    lemma_data_lines_len(pieces, pieces.len() as int);
    let lines = record_lines(r);
    let e = event_lines_of(r).len() as int;
    assert forall|i: int| 0 <= i < lines.len() implies block_line(#[trigger] lines[i]) by {
        if i < e {
            let t = r.event_type->0;
            let l = event_prefix() + t;
            assert(lines[i] == l);
            assert forall|k: int| 0 <= k < l.len() implies l[k] != LF by {
                if k >= 7 {
                    assert(l[k] == t[k - 7]);
                }
            }
            if t.len() > 0 {
                assert(l.last() == t.last());
            }
        } else {
            let p = pieces[i - e];
            let l = data_prefix() + p;
            assert(lines[i] == l);
            assert(one_line(p));
            assert forall|k: int| 0 <= k < l.len() implies l[k] != LF by {
                if k >= 6 {
                    assert(l[k] == p[k - 6]);
                }
            }
            if p.len() > 0 {
                assert(l.last() == p.last());
            }
        }
    }
}

/// The text of a record, read as a block, is the record.
pub proof fn lemma_block_reads_back(r: RawRecord)
    requires
        reads_back(r),
    ensures
        raw_record_of(join_lines(record_lines(r))) == Some(r),
{
    lemma_record_lines(r);
    lemma_lines_of_join(record_lines(r));
    lemma_split_lf(r.data);
    let pieces = split_lf(r.data);
    lemma_data_lines_len(pieces, pieces.len() as int);
    lemma_fields_of_record(r, pieces.len() as int);
    assert(pieces.subrange(0, pieces.len() as int) =~= pieces);
}

/// In the text of a record followed by anything, the first blank line is
/// the one that ends the record.
pub proof fn lemma_rendered_first_break(r: RawRecord, tail: Seq<u8>)
    requires
        reads_back(r),
    ensures
        first_break(rendered(r) + tail, 0) == Some(join_lines(record_lines(r)).len() as int),
{
    lemma_record_lines(r);
    lemma_lines_of_join(record_lines(r));
    let block = join_lines(record_lines(r));
    let all = rendered(r) + tail;
    let p = block.len() as int;
    assert(all[p] == LF);
    assert(all[p + 1] == LF);
    lemma_first_break(all, 0);
    assert(break_at(all, p));
    match first_break(all, 0) {
        Some(q) => {
            if q < p {
                assert(all[q] == block[q]);
                if q + 1 < p {
                    assert(all[q + 1] == block[q + 1]);
                    assert(break_at(block, q));
                } else {
                    assert(block[q] == block.last());
                }
            }
        },
        None => {},
    }
}

/// Records written one after the other read back as the same records, in
/// the same order, and nothing is left over.
pub proof fn lemma_rendered_reads_back(rs: Seq<RawRecord>)
    requires
        forall|i: int| 0 <= i < rs.len() ==> reads_back(#[trigger] rs[i]),
    ensures
        raw_events_of(rendered_all(rs)) == rs,
        rest_of(rendered_all(rs)) == Seq::<u8>::empty(),
    decreases rs.len(),
{
    if rs.len() == 0 {
        assert(raw_events_of(rendered_all(rs)) =~= rs);
    } else {
        let r = rs[0];
        let rest = rs.drop_first();
        assert forall|i: int| 0 <= i < rest.len() implies reads_back(#[trigger] rest[i]) by {
            assert(rest[i] == rs[i + 1]);
        }
        lemma_rendered_reads_back(rest);
        let tail = rendered_all(rest);
        let all = rendered_all(rs);
        let block = join_lines(record_lines(r));
        lemma_rendered_first_break(r, tail);
        lemma_block_reads_back(r);
        let p = block.len() as int;
        assert(all.subrange(0, p) =~= block);
        assert(all.subrange(p + 2, all.len() as int) =~= tail);
        assert(raw_events_of(all) =~= seq![r] + rest);
        assert(seq![r] + rest =~= rs);
    }
}

/// The records of a stream are its raw records, decoded.
pub proof fn lemma_events_are_decoded(b: Seq<u8>)
    ensures
        events_of(b) == raw_events_of(b).map_values(|r: RawRecord| decoded(r)),
    decreases b.len(),
{
    lemma_first_break(b, 0);
    match first_break(b, 0) {
        None => {
            assert(events_of(b) =~= raw_events_of(b).map_values(|r: RawRecord| decoded(r)));
        },
        Some(p) => {
            lemma_events_are_decoded(b.subrange(p + 2, b.len() as int));
            assert(events_of(b) =~= raw_events_of(b).map_values(|r: RawRecord| decoded(r)));
        },
    }
}

/// The text made of the records of a stream, each written as its event
/// type, its data lines and a blank line, reads back as those records:
/// parsing it gives the records that it was made of, in order. This holds
/// of records whose fields do not end a line in a carriage return.
pub proof fn lemma_reconstructed_text_reparses(rs: Seq<RawRecord>)
    requires
        forall|i: int| 0 <= i < rs.len() ==> reads_back(#[trigger] rs[i]),
    ensures
        events_of(rendered_all(rs)) == rs.map_values(|r: RawRecord| decoded(r)),
        raw_events_of(rendered_all(rs)) == rs,
{
    lemma_rendered_reads_back(rs);
    lemma_events_are_decoded(rendered_all(rs));
}

/// The view of an optional run of bytes.
pub open spec fn opt_slice(o: Option<&[u8]>) -> Option<Seq<u8>> {
    match o {
        Some(b) => Some(b@),
        None => None,
    }
}

/// The lines written so far, each ended by a line feed.
pub open spec fn written(lines: Seq<Seq<u8>>) -> Seq<u8> {
    if lines.len() == 0 {
        Seq::empty()
    } else {
        join_lines(lines) + seq![LF]
    }
}

/// Writes one more line.
fn write_line(out: &mut Vec<u8>, prefix: &[u8], content: &[u8], Ghost(lines): Ghost<Seq<Seq<u8>>>)
    requires
        old(out)@ == written(lines),
    ensures
        final(out)@ == written(lines.push(prefix@ + content@)),
{
    proof {
        lemma_join_push(lines, prefix@ + content@);
    }
    append_bytes(out, prefix);
    append_bytes(out, content);
    out.push(LF);
    assert(out@ =~= written(lines.push(prefix@ + content@)));
}

/// Writes a record as stream text: its event type, if any, one `data` line
/// for each line of its data, and a blank line.
pub fn render_record(event_type: Option<&[u8]>, data: &[u8]) -> (out: Vec<u8>)
    ensures
        out@ == rendered(RawRecord { event_type: opt_slice(event_type), data: data@ }),
{
    let ghost r = RawRecord { event_type: opt_slice(event_type), data: data@ };
    let ghost pieces = split_lf(data@);
    let mut out: Vec<u8> = Vec::new();
    let mut event_word: Vec<u8> = Vec::new();
    event_word.push(0x65u8);
    event_word.push(0x76u8);
    event_word.push(0x65u8);
    event_word.push(0x6eu8);
    event_word.push(0x74u8);
    event_word.push(COLON);
    event_word.push(SPACE);
    assert(event_word@ =~= event_prefix());
    let mut data_word: Vec<u8> = Vec::new();
    data_word.push(0x64u8);
    data_word.push(0x61u8);
    data_word.push(0x74u8);
    data_word.push(0x61u8);
    data_word.push(COLON);
    data_word.push(SPACE);
    assert(data_word@ =~= data_prefix());
    let ghost mut lines: Seq<Seq<u8>> = Seq::empty();
    match event_type {
        Some(t) => {
            write_line(&mut out, event_word.as_slice(), t, Ghost(lines));
            proof {
                lines = lines.push(event_prefix() + t@);
            }
        },
        None => {},
    }
    assert(lines =~= event_lines_of(r));
    let n: usize = data.len();
    let mut start: usize = 0;
    let ghost mut done: int = 0;
    proof {
        lemma_split_lf(data@);
        assert(data@.subrange(0, n as int) =~= data@);
        assert(lines =~= event_lines_of(r) + data_lines_of(pieces, 0));
    }
    loop
        invariant_except_break
            0 <= done < pieces.len(),
            lines == event_lines_of(r) + data_lines_of(pieces, done),
            split_lf(data@.subrange(start as int, n as int)) == pieces.subrange(
                done,
                pieces.len() as int,
            ),
        invariant
            start <= n,
            n == data@.len(),
            pieces == split_lf(data@),
            data_word@ == data_prefix(),
            out@ == written(lines),
        ensures
            out@ == written(lines),
            lines == event_lines_of(r) + data_lines_of(pieces, pieces.len() as int),
        decreases n - start,
    {
        let ghost rest = data@.subrange(start as int, n as int);
        let i: usize = find_byte(data, LF, start);
        proof {
            crate::sse::lemma_index_of_shift(data@, LF, start as int);
            lemma_index_of(rest, LF, 0);
            assert(split_lf(rest)[0] == pieces[done]);
        }
        let piece = vstd::slice::slice_subrange(data, start, i);
        assert(piece@ =~= rest.subrange(0, i - start));
        let ghost before = lines;
        write_line(&mut out, data_word.as_slice(), piece, Ghost(lines));
        proof {
            lines = lines.push(data_prefix() + piece@);
            assert(piece@ == pieces[done]);
            assert(before.push(data_prefix() + pieces[done]) =~= event_lines_of(r)
                + data_lines_of(pieces, done + 1));
        }
        if i >= n {
            proof {
                assert(split_lf(rest) =~= seq![rest]);
                assert(pieces.subrange(done, pieces.len() as int).len() == 1);
                done = done + 1;
            }
            break ;
        }
        proof {
            let tail = rest.subrange(i - start + 1, rest.len() as int);
            assert(tail =~= data@.subrange(i + 1, n as int));
            assert(split_lf(rest) =~= seq![rest.subrange(0, i - start)] + split_lf(tail));
            lemma_split_lf(tail);
            let shifted = pieces.subrange(done, pieces.len() as int);
            assert(split_lf(tail) =~= (seq![rest.subrange(0, i - start)] + split_lf(
                tail,
            )).drop_first());
            assert(shifted.drop_first() =~= pieces.subrange(done + 1, pieces.len() as int));
            assert(split_lf(tail) =~= pieces.subrange(done + 1, pieces.len() as int));
            done = done + 1;
        }
        start = i + 1;
    }
    proof {
        lemma_data_lines_len(pieces, pieces.len() as int);
        assert(lines.len() > 0);
        assert(out@ =~= join_lines(lines) + seq![LF]);
    }
    out.push(LF);
    assert(out@ =~= rendered(r));
    out
}

} // verus!
