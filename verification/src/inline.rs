//! Markdown within a line: escapes, bold, italic, code and links, turned
//! into styled text.

use crate::markdown::{char_index, find_char, find_closing, link_at, marker_index, parse_link};
use crate::style::{code_span, code_span_text, link, link_text, Palette, PaletteView};
use crate::text::{chars_of, string_from_chars};
use vstd::prelude::*;
use vstd::slice::*;
use vstd::string::*;

verus! {

/// True for the characters that a backslash makes plain.
pub open spec fn is_escapable(c: char) -> bool {
    c == '*' || c == '`' || c == '[' || c == ']' || c == '(' || c == ')' || c == '\\' || c == '_'
}

/// The marker of `n` stars.
pub open spec fn stars(n: int) -> Seq<char> {
    if n == 3 {
        seq!['*', '*', '*']
    } else if n == 2 {
        seq!['*', '*']
    } else {
        seq!['*']
    }
}

/// True when `n` stars stand at `i`.
pub open spec fn stars_at(chars: Seq<char>, i: int, n: int) -> bool {
    &&& 0 <= i && 1 <= n && i + n <= chars.len()
    &&& chars[i] == '*'
    &&& n >= 2 ==> chars[i + 1] == '*'
    &&& n >= 3 ==> chars[i + 2] == '*'
}

/// What the span that begins at `i` is rendered as, and where the next
/// span begins. In this order: a backslash before a character that it
/// makes plain gives that character; three stars up to the next three
/// give bold italic text; two stars up to the next two give bold text;
/// a star up to the next star, with something between them, gives italic
/// text; a backtick up to the next gives a span of code; a link gives a
/// link; any other character stands for itself.
pub open spec fn inline_step(p: PaletteView, chars: Seq<char>, i: int) -> (Seq<char>, int) {
    let len = chars.len() as int;
    if chars[i] == '\\' && i + 1 < len && is_escapable(chars[i + 1]) {
        (seq![chars[i + 1]], i + 2)
    } else if stars_at(chars, i, 3) && marker_index(chars, stars(3), i + 3) is Some {
        let end = marker_index(chars, stars(3), i + 3)->0;
        (p.bold + p.italic + chars.subrange(i + 3, end) + p.reset, end + 3)
    } else if stars_at(chars, i, 2) && marker_index(chars, stars(2), i + 2) is Some {
        let end = marker_index(chars, stars(2), i + 2)->0;
        (p.bold + chars.subrange(i + 2, end) + p.reset, end + 2)
    } else if chars[i] == '*' && marker_index(chars, stars(1), i + 1) is Some && marker_index(
        chars,
        stars(1),
        i + 1,
    )->0 > i + 1 {
        let end = marker_index(chars, stars(1), i + 1)->0;
        (p.italic + chars.subrange(i + 1, end) + p.reset, end + 1)
    } else if chars[i] == '`' && i + 1 < len && char_index(chars, '`', i + 1) < len {
        let end = char_index(chars, '`', i + 1);
        (code_span_text(p, chars.subrange(i + 1, end)), end + 1)
    } else if chars[i] == '[' && link_at(chars, i) is Some {
        let found = link_at(chars, i)->0;
        (link_text(p, found.0, found.1), found.2)
    } else {
        (seq![chars[i]], i + 1)
    }
}

/// The text from `i` on, rendered span by span.
pub open spec fn inline_from(p: PaletteView, chars: Seq<char>, i: int) -> Seq<char>
    decreases chars.len() - i,
{
    if i < 0 || i >= chars.len() {
        Seq::empty()
    } else {
        let piece = inline_step(p, chars, i).0;
        let next = inline_step(p, chars, i).1;
        if i < next <= chars.len() {
            piece + inline_from(p, chars, next)
        } else {
            piece
        }
    }
}

/// A line with its inline markdown rendered.
pub open spec fn inline_text(p: PaletteView, text: Seq<char>) -> Seq<char> {
    inline_from(p, text, 0)
}

/// Adds a text to `out`.
pub fn push_text(out: &mut Vec<char>, text: &str)
    ensures
        final(out)@ == old(out)@ + text@,
{
    let mut chars = chars_of(text);
    out.append(&mut chars);
}

/// Adds the characters of `chars` from `from` up to `to` to `out`.
fn push_range(out: &mut Vec<char>, chars: &[char], from: usize, to: usize)
    requires
        from <= to <= chars@.len(),
    ensures
        final(out)@ == old(out)@ + chars@.subrange(from as int, to as int),
{
    let mut i: usize = from;
    assert(out@ =~= old(out)@ + chars@.subrange(from as int, i as int));
    while i < to
        invariant
            from <= i <= to <= chars@.len(),
            out@ == old(out)@ + chars@.subrange(from as int, i as int),
        decreases to - i,
    {
        out.push(chars[i]);
        i += 1;
        assert(out@ =~= old(out)@ + chars@.subrange(from as int, i as int));
    }
}

/// A span that stars open at `i`, if one does: the number of stars, and
/// where the closing stars stand.
fn starred_span(chars: &[char], i: usize) -> (r: Option<(usize, usize)>)
    requires
        i < chars@.len(),
        chars@[i as int] == '*',
    ensures
        match r {
            Some((n, end)) => {
                &&& 1 <= n <= 3
                &&& stars_at(chars@, i as int, n as int)
                &&& marker_index(chars@, stars(n as int), i + n) == Some(end as int)
                &&& i + n <= end
                &&& end + n <= chars@.len()
                &&& n == 1 ==> end > i + 1
                &&& n < 3 ==> !(stars_at(chars@, i as int, 3) && marker_index(
                    chars@,
                    stars(3),
                    i + 3,
                ) is Some)
                &&& n < 2 ==> !(stars_at(chars@, i as int, 2) && marker_index(
                    chars@,
                    stars(2),
                    i + 2,
                ) is Some)
            },
            None => {
                &&& !(stars_at(chars@, i as int, 3) && marker_index(chars@, stars(3), i + 3)
                    is Some)
                &&& !(stars_at(chars@, i as int, 2) && marker_index(chars@, stars(2), i + 2)
                    is Some)
                &&& !(marker_index(chars@, stars(1), i + 1) is Some && marker_index(
                    chars@,
                    stars(1),
                    i + 1,
                )->0 > i + 1)
            },
        },
{
    let len: usize = chars.len();
    let one: [char; 1] = ['*'];
    let two: [char; 2] = ['*', '*'];
    let three: [char; 3] = ['*', '*', '*'];
    assert(one@ =~= stars(1));
    assert(two@ =~= stars(2));
    assert(three@ =~= stars(3));
    if len - i > 2 && chars[i + 1] == '*' && chars[i + 2] == '*' {
        match find_closing(chars, i + 3, three.as_slice()) {
            Some(end) => {
                proof {
                    lemma_marker_index_bounds(chars@, stars(3), i + 3);
                }
                return Some((3, end));
            },
            None => {},
        }
    }
    if len - i > 1 && chars[i + 1] == '*' {
        match find_closing(chars, i + 2, two.as_slice()) {
            Some(end) => {
                proof {
                    lemma_marker_index_bounds(chars@, stars(2), i + 2);
                }
                return Some((2, end));
            },
            None => {},
        }
    }
    match find_closing(chars, i + 1, one.as_slice()) {
        Some(end) => {
            proof {
                lemma_marker_index_bounds(chars@, stars(1), i + 1);
            }
            if end > i + 1 {
                return Some((1, end));
            }
        },
        None => {},
    }
    None
}

/// Where a marker is found, it stands: at or after the start, and wholly
/// within the text.
pub proof fn lemma_marker_index_bounds(chars: Seq<char>, marker: Seq<char>, from: int)
    ensures
        marker_index(chars, marker, from) matches Some(i) ==> from <= i && i + marker.len()
            <= chars.len(),
    decreases chars.len() - from,
{
    if from < 0 || from + marker.len() > chars.len() {
    } else if crate::markdown::stands_at(chars, marker, from) {
    } else if from >= chars.len() {
    } else {
        lemma_marker_index_bounds(chars, marker, from + 1);
    }
}

/// Renders the span that begins at `i` into `out`, and says where the
/// next span begins.
fn render_span(p: &Palette, chars: &[char], i: usize, out: &mut Vec<char>) -> (next: usize)
    requires
        i < chars@.len(),
    ensures
        final(out)@ == old(out)@ + inline_step(p@, chars@, i as int).0,
        next as int == inline_step(p@, chars@, i as int).1,
        i < next <= chars@.len(),
{
    let len: usize = chars.len();
    let c = chars[i];
    if c == '\\' {
        if len - i > 1 {
            let escaped = chars[i + 1];
            if escaped == '*' || escaped == '`' || escaped == '[' || escaped == ']' || escaped
                == '(' || escaped == ')' || escaped == '\\' || escaped == '_' {
                out.push(escaped);
                assert(out@ =~= old(out)@ + seq![escaped]);
                return i + 2;
            }
        }
    } else if c == '*' {
        match starred_span(chars, i) {
            Some((n, end)) => {
                if n == 3 {
                    push_text(out, p.bold.as_str());
                    push_text(out, p.italic.as_str());
                } else if n == 2 {
                    push_text(out, p.bold.as_str());
                } else {
                    push_text(out, p.italic.as_str());
                }
                push_range(out, chars, i + n, end);
                push_text(out, p.reset.as_str());
                assert(out@ =~= old(out)@ + inline_step(p@, chars@, i as int).0);
                return end + n;
            },
            None => {},
        }
    } else if c == '`' {
        match find_char(chars, i + 1, '`') {
            Some(end) => {
                let inner = string_from_chars(slice_subrange(chars, i + 1, end));
                let styled = code_span(p, inner.as_str());
                push_text(out, styled.as_str());
                return end + 1;
            },
            None => {},
        }
    } else if c == '[' {
        match parse_link(chars, i) {
            Some((text, url, end)) => {
                proof {
                    let close = char_index(chars@, ']', i + 1);
                    crate::markdown::lemma_char_index(chars@, ']', i + 1);
                    crate::markdown::lemma_char_index(chars@, ')', close + 2);
                }
                let styled = link(p, text.as_str(), url.as_str());
                push_text(out, styled.as_str());
                return end;
            },
            None => {},
        }
    }
    out.push(c);
    assert(out@ =~= old(out)@ + seq![c]);
    i + 1
}

/// Renders the inline markdown of a line.
pub fn render_inline(p: &Palette, text: &str) -> (r: String)
    ensures
        r@ == inline_text(p@, text@),
{
    let chars = chars_of(text);
    let len: usize = chars.len();
    let mut out: Vec<char> = Vec::new();
    let mut i: usize = 0;
    assert(out@ + inline_from(p@, chars@, 0) =~= inline_text(p@, text@));
    while i < len
        invariant
            i <= len,
            len == chars@.len(),
            chars@ == text@,
            out@ + inline_from(p@, chars@, i as int) == inline_text(p@, text@),
        decreases len - i,
    {
        let ghost before = out@;
        let ghost step = inline_step(p@, chars@, i as int);
        let next = render_span(p, chars.as_slice(), i, &mut out);
        assert(before + (step.0 + inline_from(p@, chars@, step.1)) =~= (before + step.0)
            + inline_from(p@, chars@, step.1));
        i = next;
    }
    assert(out@ + inline_from(p@, chars@, len as int) =~= out@);
    string_from_chars(out.as_slice())
}

} // verus!
