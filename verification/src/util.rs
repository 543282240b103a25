//! Clipping of text to a byte budget without splitting a UTF-8 code point.

use vstd::prelude::*;
use vstd::string::*;
use vstd::utf8::*;

verus! {

/// The largest index at or below `i` that lies on a character boundary of
/// `bytes`; the length of `bytes` when `i` reaches past the end.
pub open spec fn floor_boundary(bytes: Seq<u8>, i: int) -> int
    decreases i,
{
    if i >= bytes.len() {
        bytes.len() as int
    } else if i <= 0 {
        0
    } else if is_char_boundary(bytes, i) {
        i
    } else {
        floor_boundary(bytes, i - 1)
    }
}

/// The bytes that remain of `bytes` after clipping to `max` bytes.
pub open spec fn truncated_bytes(bytes: Seq<u8>, max: int) -> Seq<u8> {
    bytes.subrange(0, floor_boundary(bytes, max))
}

/// The text that remains of `chars` after clipping its UTF-8 encoding to
/// `max` bytes.
pub open spec fn truncated(chars: Seq<char>, max: int) -> Seq<char> {
    decode_utf8(truncated_bytes(encode_utf8(chars), max))
}

/// What is shown of `chars` under a budget of `max` bytes: the text itself
/// when it fits, else the clipped text followed by an ellipsis.
pub open spec fn display_text(chars: Seq<char>, max: int) -> Seq<char> {
    if encode_utf8(chars).len() <= max {
        chars
    } else {
        truncated(chars, max) + seq!['.', '.', '.']
    }
}

/// `floor_boundary` yields a boundary within range, and no boundary lies
/// between it and the requested index.
pub proof fn lemma_floor_boundary(bytes: Seq<u8>, i: int)
    requires
        valid_utf8(bytes),
        0 <= i,
    ensures
        0 <= floor_boundary(bytes, i) <= bytes.len(),
        floor_boundary(bytes, i) <= i,
        is_char_boundary(bytes, floor_boundary(bytes, i)),
        forall|j: int|
            floor_boundary(bytes, i) < j <= i && j <= bytes.len() ==> !is_char_boundary(bytes, j),
    decreases i,
{
    is_char_boundary_start_end_of_seq(bytes);
    if i >= bytes.len() {
    } else if i <= 0 {
    } else if is_char_boundary(bytes, i) {
    } else {
        lemma_floor_boundary(bytes, i - 1);
    }
}

/// Clipping never yields malformed text: the kept bytes are valid UTF-8,
/// they fit the budget, they decode to a prefix of the text, and
/// the next character, if any, would not have fitted.
pub proof fn lemma_truncated_is_valid_prefix(chars: Seq<char>, max: int)
    requires
        0 <= max,
    ensures
        valid_utf8(truncated_bytes(encode_utf8(chars), max)),
        truncated_bytes(encode_utf8(chars), max).len() <= max,
        encode_utf8(truncated(chars, max)) == truncated_bytes(encode_utf8(chars), max),
        truncated(chars, max).len() <= chars.len(),
        truncated(chars, max) == chars.subrange(0, truncated(chars, max).len() as int),
        encode_utf8(chars).len() <= max ==> truncated(chars, max) == chars,
{
    let bytes = encode_utf8(chars);
    encode_utf8_valid_utf8(chars);
    encode_utf8_decode_utf8(chars);
    lemma_floor_boundary(bytes, max);
    let n = floor_boundary(bytes, max);
    valid_utf8_split(bytes, n);
    decode_utf8_split(bytes, n);
    let head = bytes.subrange(0, n);
    let tail = bytes.subrange(n, bytes.len() as int);
    decode_utf8_encode_utf8(head);
    assert(chars =~= decode_utf8(head) + decode_utf8(tail));
    assert(decode_utf8(head) =~= chars.subrange(0, decode_utf8(head).len() as int));
    if bytes.len() <= max {
        assert(head =~= bytes);
    }
}

/// The length of `s` in bytes.
pub fn byte_len(s: &str) -> (n: usize)
    ensures
        n == s.spec_bytes().len(),
{
    s.as_bytes().len()
}

/// Finds the largest byte index at or below `i` that is on a character
/// boundary of `s`.
pub fn floor_char_boundary(s: &str, i: usize) -> (pos: usize)
    ensures
        pos as int == floor_boundary(s.spec_bytes(), i as int),
        pos <= s.spec_bytes().len(),
        pos <= i,
        is_char_boundary(s.spec_bytes(), pos as int),
{
    proof {
        encode_utf8_valid_utf8(s@);
        lemma_floor_boundary(s.spec_bytes(), i as int);
    }
    let len: usize = byte_len(s);
    if i >= len {
        return len;
    }
    let mut pos: usize = i;
    while pos > 0 && !s.is_char_boundary(pos)
        invariant
            pos <= i,
            i < s.spec_bytes().len(),
            floor_boundary(s.spec_bytes(), pos as int) == floor_boundary(s.spec_bytes(), i as int),
        decreases pos,
    {
        pos -= 1;
    }
    pos
}

/// Clips `s` to at most `max_bytes` bytes, never splitting a code point.
pub fn truncate_str(s: &str, max_bytes: usize) -> (r: &str)
    ensures
        r@ == truncated(s@, max_bytes as int),
        r.spec_bytes() == truncated_bytes(s.spec_bytes(), max_bytes as int),
{
    proof {
        lemma_truncated_is_valid_prefix(s@, max_bytes as int);
    }
    if byte_len(s) <= max_bytes {
        s
    } else {
        let n: usize = floor_char_boundary(s, max_bytes);
        let parts = s.split_at(n);
        proof {
            encode_utf8_decode_utf8(parts.0@);
        }
        parts.0
    }
}

/// `String::truncate`: cuts the string down to its first `new_len` bytes.
/// The standard library documents a panic when `new_len` is not on a
/// character boundary, which the precondition rules out.
#[verifier::external_body]
fn string_truncate(s: &mut String, new_len: usize)
    requires
        new_len <= encode_utf8(old(s)@).len(),
        is_char_boundary(encode_utf8(old(s)@), new_len as int),
    ensures
        encode_utf8(final(s)@) == encode_utf8(old(s)@).subrange(0, new_len as int),
{
    s.truncate(new_len)
}

/// Clips `s` in place to at most `max_bytes` bytes, never splitting a code
/// point.
pub fn truncate_string(s: &mut String, max_bytes: usize)
    ensures
        final(s)@ == truncated(old(s)@, max_bytes as int),
{
    proof {
        lemma_truncated_is_valid_prefix(s@, max_bytes as int);
    }
    if byte_len(s.as_str()) > max_bytes {
        let n: usize = floor_char_boundary(s.as_str(), max_bytes);
        string_truncate(s, n);
        proof {
            encode_utf8_decode_utf8(s@);
        }
    }
}

/// Renders `s` for display under a budget of `max_len` bytes: unchanged when
/// it fits, else clipped on a character boundary and followed by `...`.
pub fn truncate_for_display(s: &str, max_len: usize) -> (r: String)
    ensures
        r@ == display_text(s@, max_len as int),
{
    if byte_len(s) <= max_len {
        s.to_owned()
    } else {
        proof {
            reveal_strlit("...");
        }
        let head = truncate_str(s, max_len);
        let r = head.to_owned().concat("...");
        assert(r@ =~= truncated(s@, max_len as int) + seq!['.', '.', '.']);
        r
    }
}

} // verus!
