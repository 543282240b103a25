//! Editable line of text with a cursor.

use crate::text::{char_is_whitespace, chars_of, is_whitespace, string_from_chars};
use vstd::prelude::*;
use vstd::string::*;

verus! {

/// A line under edit: its characters and the cursor, counted in characters
/// from the start of the line.
#[derive(Debug, Clone)]
pub struct LineBuffer {
    chars: Vec<char>,
    cursor: usize,
}

/// The mathematical content of a `LineBuffer`.
pub struct LineState {
    pub text: Seq<char>,
    pub cursor: int,
}

/// The position reached from `pos` by stepping left over characters whose
/// white-space status is `ws`.
pub open spec fn skip_left(text: Seq<char>, pos: int, ws: bool) -> int
    decreases pos,
{
    if 0 < pos <= text.len() && is_whitespace(text[pos - 1]) == ws {
        skip_left(text, pos - 1, ws)
    } else {
        pos
    }
}

/// The position reached from `pos` by stepping right over characters whose
/// white-space status is `ws`.
pub open spec fn skip_right(text: Seq<char>, pos: int, ws: bool) -> int
    decreases text.len() - pos,
{
    if 0 <= pos < text.len() && is_whitespace(text[pos]) == ws {
        skip_right(text, pos + 1, ws)
    } else {
        pos
    }
}

/// The start of the word to the left of `pos`: back over white space, then
/// back over the word.
pub open spec fn word_left(text: Seq<char>, pos: int) -> int {
    skip_left(text, skip_left(text, pos, true), false)
}

/// The start of the word after the one at `pos`: forward over the word,
/// then forward over white space.
pub open spec fn word_right(text: Seq<char>, pos: int) -> int {
    skip_right(text, skip_right(text, pos, false), true)
}

impl View for LineBuffer {
    type V = LineState;

    closed spec fn view(&self) -> LineState {
        LineState { text: self.chars@, cursor: self.cursor as int }
    }
}

impl LineBuffer {
    /// The cursor lies within the text. Every constructor establishes this
    /// and every method keeps it.
    pub open spec fn wf(&self) -> bool {
        0 <= self@.cursor <= self@.text.len()
    }

    /// An empty line with the cursor at its start.
    pub fn new() -> (b: Self)
        ensures
            b.wf(),
            b@.text == Seq::<char>::empty(),
            b@.cursor == 0,
    {
        LineBuffer { chars: Vec::new(), cursor: 0 }
    }

    /// Inserts a character at the cursor and steps past it.
    pub fn insert(&mut self, ch: char)
        requires
            old(self).wf(),
        ensures
            final(self).wf(),
            final(self)@.text == old(self)@.text.insert(old(self)@.cursor, ch),
            final(self)@.cursor == old(self)@.cursor + 1,
    {
        self.chars.insert(self.cursor, ch);
        let len: usize = self.chars.len();
        assert(self.cursor < len);
        self.cursor += 1;
    }

    /// Inserts a string at the cursor and steps past it.
    pub fn insert_str(&mut self, s: &str)
        requires
            old(self).wf(),
        ensures
            final(self).wf(),
            final(self)@.text == old(self)@.text.subrange(0, old(self)@.cursor) + s@ + old(
                self,
            )@.text.subrange(old(self)@.cursor, old(self)@.text.len() as int),
            final(self)@.cursor == old(self)@.cursor + s@.len(),
    {
        let chars = chars_of(s);
        let ghost before = self@;
        let mut i: usize = 0;
        assert(before.text.subrange(0, before.cursor) + chars@.subrange(0, 0)
            + before.text.subrange(before.cursor, before.text.len() as int) =~= before.text);
        while i < chars.len()
            invariant
                i <= chars.len(),
                0 <= before.cursor <= before.text.len(),
                self.wf(),
                self@.cursor == before.cursor + i,
                self@.text == before.text.subrange(0, before.cursor) + chars@.subrange(0, i as int)
                    + before.text.subrange(before.cursor, before.text.len() as int),
            decreases chars.len() - i,
        {
            self.insert(chars[i]);
            i += 1;
            assert(self@.text =~= before.text.subrange(0, before.cursor) + chars@.subrange(
                0,
                i as int,
            ) + before.text.subrange(before.cursor, before.text.len() as int));
        }
        assert(chars@.subrange(0, chars.len() as int) =~= s@);
    }

    /// Deletes the character before the cursor; false at the start of the line.
    pub fn delete_backward(&mut self) -> (done: bool)
        requires
            old(self).wf(),
        ensures
            final(self).wf(),
            done == (old(self)@.cursor > 0),
            done ==> final(self)@.text == old(self)@.text.remove(old(self)@.cursor - 1)
                && final(self)@.cursor == old(self)@.cursor - 1,
            !done ==> final(self)@ == old(self)@,
    {
        if self.cursor > 0 {
            self.cursor -= 1;
            self.chars.remove(self.cursor);
            true
        } else {
            false
        }
    }

    /// Deletes the character at the cursor; false at the end of the line.
    pub fn delete_forward(&mut self) -> (done: bool)
        requires
            old(self).wf(),
        ensures
            final(self).wf(),
            done == (old(self)@.cursor < old(self)@.text.len()),
            done ==> final(self)@.text == old(self)@.text.remove(old(self)@.cursor),
            !done ==> final(self)@.text == old(self)@.text,
            final(self)@.cursor == old(self)@.cursor,
    {
        if self.cursor < self.chars.len() {
            self.chars.remove(self.cursor);
            true
        } else {
            false
        }
    }

    /// Moves the cursor one character left; false at the start of the line.
    pub fn move_left(&mut self) -> (done: bool)
        requires
            old(self).wf(),
        ensures
            final(self).wf(),
            done == (old(self)@.cursor > 0),
            final(self)@.text == old(self)@.text,
            final(self)@.cursor == if done {
                old(self)@.cursor - 1
            } else {
                old(self)@.cursor
            },
    {
        if self.cursor > 0 {
            self.cursor -= 1;
            true
        } else {
            false
        }
    }

    /// Moves the cursor one character right; false at the end of the line.
    pub fn move_right(&mut self) -> (done: bool)
        requires
            old(self).wf(),
        ensures
            final(self).wf(),
            done == (old(self)@.cursor < old(self)@.text.len()),
            final(self)@.text == old(self)@.text,
            final(self)@.cursor == if done {
                old(self)@.cursor + 1
            } else {
                old(self)@.cursor
            },
    {
        if self.cursor < self.chars.len() {
            self.cursor += 1;
            true
        } else {
            false
        }
    }

    /// Moves the cursor to the start of the line.
    pub fn move_home(&mut self)
        requires
            old(self).wf(),
        ensures
            final(self).wf(),
            final(self)@.text == old(self)@.text,
            final(self)@.cursor == 0,
    {
        self.cursor = 0;
    }

    /// Moves the cursor to the end of the line.
    pub fn move_end(&mut self)
        requires
            old(self).wf(),
        ensures
            final(self).wf(),
            final(self)@.text == old(self)@.text,
            final(self)@.cursor == old(self)@.text.len(),
    {
        self.cursor = self.chars.len();
    }

    /// The index reached from `pos` by stepping left over characters whose
    /// white-space status is `ws`.
    fn scan_left(&self, pos: usize, ws: bool) -> (r: usize)
        requires
            self.wf(),
            pos <= self@.text.len(),
        ensures
            r as int == skip_left(self@.text, pos as int, ws),
            r <= pos,
    {
        let mut p: usize = pos;
        while p > 0 && char_is_whitespace(self.chars[p - 1]) == ws
            invariant
                p <= pos,
                pos <= self.chars@.len(),
                skip_left(self.chars@, p as int, ws) == skip_left(self.chars@, pos as int, ws),
            decreases p,
        {
            p -= 1;
        }
        p
    }

    /// The index reached from `pos` by stepping right over characters whose
    /// white-space status is `ws`.
    fn scan_right(&self, pos: usize, ws: bool) -> (r: usize)
        requires
            self.wf(),
            pos <= self@.text.len(),
        ensures
            r as int == skip_right(self@.text, pos as int, ws),
            pos <= r <= self@.text.len(),
    {
        let len: usize = self.chars.len();
        let mut p: usize = pos;
        while p < len && char_is_whitespace(self.chars[p]) == ws
            invariant
                pos <= p <= len,
                len == self.chars@.len(),
                skip_right(self.chars@, p as int, ws) == skip_right(self.chars@, pos as int, ws),
            decreases len - p,
        {
            p += 1;
        }
        p
    }

    /// Moves the cursor to the start of the previous word; false at the
    /// start of the line.
    pub fn move_word_left(&mut self) -> (done: bool)
        requires
            old(self).wf(),
        ensures
            final(self).wf(),
            done == (old(self)@.cursor > 0),
            final(self)@.text == old(self)@.text,
            final(self)@.cursor == if done {
                word_left(old(self)@.text, old(self)@.cursor)
            } else {
                old(self)@.cursor
            },
    {
        if self.cursor == 0 {
            return false;
        }
        let gap: usize = self.scan_left(self.cursor, true);
        let start: usize = self.scan_left(gap, false);
        self.cursor = start;
        true
    }

    /// Moves the cursor past the current word and the white space after it;
    /// false at the end of the line.
    pub fn move_word_right(&mut self) -> (done: bool)
        requires
            old(self).wf(),
        ensures
            final(self).wf(),
            done == (old(self)@.cursor < old(self)@.text.len()),
            final(self)@.text == old(self)@.text,
            final(self)@.cursor == if done {
                word_right(old(self)@.text, old(self)@.cursor)
            } else {
                old(self)@.cursor
            },
    {
        if self.cursor >= self.chars.len() {
            return false;
        }
        let word_end: usize = self.scan_right(self.cursor, false);
        let next: usize = self.scan_right(word_end, true);
        self.cursor = next;
        true
    }

    /// Deletes from the start of the previous word up to the cursor; false
    /// at the start of the line.
    pub fn delete_word_backward(&mut self) -> (done: bool)
        requires
            old(self).wf(),
        ensures
            final(self).wf(),
            done == (old(self)@.cursor > 0),
            done ==> {
                let start = word_left(old(self)@.text, old(self)@.cursor);
                &&& final(self)@.cursor == start
                &&& final(self)@.text == old(self)@.text.subrange(0, start) + old(
                    self,
                )@.text.subrange(old(self)@.cursor, old(self)@.text.len() as int)
            },
            !done ==> final(self)@ == old(self)@,
    {
        if self.cursor == 0 {
            return false;
        }
        let end: usize = self.cursor;
        let gap: usize = self.scan_left(end, true);
        let start: usize = self.scan_left(gap, false);
        let mut tail = self.chars.split_off(end);
        self.cursor = start;
        self.chars.truncate(start);
        self.chars.append(&mut tail);
        true
    }

    /// Deletes from the cursor to the end of the line; false when the cursor
    /// is at the end.
    pub fn delete_to_end(&mut self) -> (done: bool)
        requires
            old(self).wf(),
        ensures
            final(self).wf(),
            done == (old(self)@.cursor < old(self)@.text.len()),
            final(self)@.text == old(self)@.text.subrange(0, old(self)@.cursor),
            final(self)@.cursor == old(self)@.cursor,
    {
        if self.cursor < self.chars.len() {
            self.chars.truncate(self.cursor);
            true
        } else {
            assert(self.chars@.subrange(0, self.cursor as int) =~= self.chars@);
            false
        }
    }

    /// Deletes from the start of the line to the cursor; false when the
    /// cursor is at the start.
    pub fn delete_to_start(&mut self) -> (done: bool)
        requires
            old(self).wf(),
        ensures
            final(self).wf(),
            done == (old(self)@.cursor > 0),
            final(self)@.text == old(self)@.text.subrange(
                old(self)@.cursor,
                old(self)@.text.len() as int,
            ),
            final(self)@.cursor == 0,
    {
        if self.cursor > 0 {
            let at: usize = self.cursor;
            self.cursor = 0;
            let tail = self.chars.split_off(at);
            self.chars = tail;
            true
        } else {
            assert(self.chars@.subrange(0, self.chars@.len() as int) =~= self.chars@);
            false
        }
    }

    /// Empties the line.
    pub fn clear(&mut self)
        ensures
            final(self).wf(),
            final(self)@.text == Seq::<char>::empty(),
            final(self)@.cursor == 0,
    {
        self.cursor = 0;
        self.chars.clear();
    }

    /// Replaces the line by `s` and puts the cursor at its end.
    pub fn set(&mut self, s: &str)
        ensures
            final(self).wf(),
            final(self)@.text == s@,
            final(self)@.cursor == s@.len(),
    {
        self.cursor = 0;
        self.chars = chars_of(s);
        self.cursor = self.chars.len();
    }

    /// The line as a `String`.
    pub fn as_str(&self) -> (s: String)
        requires
            self.wf(),
        ensures
            s@ == self@.text,
    {
        string_from_chars(self.chars.as_slice())
    }

    /// The cursor position, in characters.
    pub fn cursor(&self) -> (c: usize)
        requires
            self.wf(),
        ensures
            c == self@.cursor,
    {
        self.cursor
    }

    /// The number of characters in the line.
    pub fn len(&self) -> (n: usize)
        requires
            self.wf(),
        ensures
            n == self@.text.len(),
    {
        self.chars.len()
    }

    /// True when the line holds no character.
    pub fn is_empty(&self) -> (e: bool)
        requires
            self.wf(),
        ensures
            e == (self@.text.len() == 0),
    {
        self.chars.len() == 0
    }
}

impl Default for LineBuffer {
    fn default() -> (b: Self)
        ensures
            b.wf(),
            b@.text == Seq::<char>::empty(),
            b@.cursor == 0,
    {
        LineBuffer::new()
    }
}

} // verus!
