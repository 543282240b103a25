//! Recognition of the block and inline forms of markdown: headings, rules,
//! list items, table rows and links.

use crate::retry::{digit_value, digits_value};
use crate::text::{char_is_whitespace, chars_of, is_whitespace, string_from_chars, trim, trimmed};
use vstd::prelude::*;
use vstd::slice::*;
use vstd::string::*;

verus! {

/// The number of times that `c` stands in a row from `from` on.
pub open spec fn run_length(s: Seq<char>, c: char, from: int) -> int
    decreases s.len() - from,
{
    if 0 <= from < s.len() && s[from] == c {
        1 + run_length(s, c, from + 1)
    } else {
        0
    }
}

/// The number of times that `c` stands in a row before `to`.
pub open spec fn run_length_back(s: Seq<char>, c: char, to: int) -> int
    decreases to,
{
    if 0 < to <= s.len() && s[to - 1] == c {
        1 + run_length_back(s, c, to - 1)
    } else {
        0
    }
}

pub proof fn lemma_run_length(s: Seq<char>, c: char, from: int)
    requires
        0 <= from <= s.len(),
    ensures
        0 <= run_length(s, c, from) <= s.len() - from,
    decreases s.len() - from,
{
    if from < s.len() && s[from] == c {
        lemma_run_length(s, c, from + 1);
    }
}

/// Counts the times that `c` stands in a row from `from` on.
pub fn count_run(s: &Vec<char>, c: char, from: usize) -> (n: usize)
    requires
        from <= s@.len(),
    ensures
        n == run_length(s@, c, from as int),
        from + n <= s@.len(),
{
    let len: usize = s.len();
    let mut i: usize = from;
    while i < len && s[i] == c
        invariant
            from <= i <= len,
            len == s@.len(),
            run_length(s@, c, from as int) == (i - from) + run_length(s@, c, i as int),
        decreases len - i,
    {
        i += 1;
    }
    i - from
}

/// Counts the times that `c` stands in a row before `to`.
pub fn count_run_back(s: &Vec<char>, c: char, to: usize) -> (n: usize)
    requires
        to <= s@.len(),
    ensures
        n == run_length_back(s@, c, to as int),
        n <= to,
{
    let mut i: usize = to;
    while i > 0 && s[i - 1] == c
        invariant
            i <= to,
            to <= s@.len(),
            run_length_back(s@, c, to as int) == (to - i) + run_length_back(s@, c, i as int),
        decreases i,
    {
        i -= 1;
    }
    to - i
}

/// A heading: its level, from 1 to 6, and its text.
#[derive(Debug, Clone, PartialEq, Eq)]
pub struct HeadingInfo {
    pub level: u8,
    pub text: String,
}

/// The heading that a line is: one to six `#`, then nothing or a space
/// and the text, which is taken without the white space around it.
pub open spec fn heading_of(line: Seq<char>) -> Option<(u8, Seq<char>)> {
    let hashes = run_length(line, '#', 0);
    if hashes == 0 || hashes > 6 {
        None
    } else if hashes < line.len() && line[hashes] != ' ' {
        None
    } else {
        Some((hashes as u8, trimmed(line.subrange(hashes, line.len() as int))))
    }
}

/// Reads a line as a heading.
pub fn parse_heading(line: &str) -> (r: Option<HeadingInfo>)
    ensures
        match r {
            Some(h) => heading_of(line@) == Some((h.level, h.text@)),
            None => heading_of(line@) is None,
        },
{
    let chars = chars_of(line);
    let hashes: usize = count_run(&chars, '#', 0);
    if hashes == 0 || hashes > 6 {
        return None;
    }
    if hashes < chars.len() && chars[hashes] != ' ' {
        return None;
    }
    let rest = string_from_chars(slice_subrange(chars.as_slice(), hashes, chars.len()));
    Some(HeadingInfo { level: hashes as u8, text: trim(rest.as_str()) })
}

/// The characters of `s` among the first `n` that are no white space.
pub open spec fn without_space(s: Seq<char>, n: int) -> Seq<char>
    decreases n,
{
    if n <= 0 {
        Seq::empty()
    } else if is_whitespace(s[n - 1]) {
        without_space(s, n - 1)
    } else {
        without_space(s, n - 1).push(s[n - 1])
    }
}

/// True when every character of `s` is `c`.
pub open spec fn all_same(s: Seq<char>, c: char) -> bool {
    forall|i: int| 0 <= i < s.len() ==> s[i] == c
}

/// True when the line is a horizontal rule: apart from white space it
/// holds three or more of one of `-`, `*` and `_`, and nothing else.
pub open spec fn is_rule(line: Seq<char>) -> bool {
    let marks = without_space(line, line.len() as int);
    marks.len() >= 3 && (marks[0] == '-' || marks[0] == '*' || marks[0] == '_') && all_same(
        marks,
        marks[0],
    )
}

/// Tells whether a line is a horizontal rule.
pub fn is_horizontal_rule(line: &str) -> (r: bool)
    ensures
        r == is_rule(line@),
{
    let chars = chars_of(line);
    let mut marks: Vec<char> = Vec::new();
    let mut i: usize = 0;
    while i < chars.len()
        invariant
            i <= chars@.len(),
            marks@ == without_space(chars@, i as int),
        decreases chars.len() - i,
    {
        if !char_is_whitespace(chars[i]) {
            marks.push(chars[i]);
        }
        i += 1;
    }
    if marks.len() < 3 {
        return false;
    }
    let first = marks[0];
    if !(first == '-' || first == '*' || first == '_') {
        return false;
    }
    let mut k: usize = 0;
    while k < marks.len()
        invariant
            k <= marks@.len(),
            marks@ == without_space(line@, line@.len() as int),
            first == marks@[0],
            forall|j: int| 0 <= j < k ==> marks@[j] == first,
        decreases marks.len() - k,
    {
        if marks[k] != first {
            assert(marks@[k as int] != marks@[0]);
            return false;
        }
        k += 1;
    }
    true
}

/// The depth of a list item that is indented by `indent` spaces: one
/// level for every two spaces, counted in 8 bits.
pub open spec fn depth_of(indent: int) -> u8 {
    ((indent / 2) % 256) as u8
}

/// The item of an unordered list that a line is: spaces, then `- ` or
/// `* `, then the content.
pub open spec fn unordered_item(line: Seq<char>) -> Option<(u8, Seq<char>)> {
    let indent = run_length(line, ' ', 0);
    if indent + 2 <= line.len() && (line[indent] == '-' || line[indent] == '*') && line[indent
        + 1] == ' ' {
        Some((depth_of(indent), line.subrange(indent + 2, line.len() as int)))
    } else {
        None
    }
}

/// Reads a line as an item of an unordered list.
pub fn parse_unordered_list(line: &str) -> (r: Option<(u8, String)>)
    ensures
        match r {
            Some((depth, content)) => unordered_item(line@) == Some((depth, content@)),
            None => unordered_item(line@) is None,
        },
{
    let chars = chars_of(line);
    let n: usize = chars.len();
    let indent: usize = count_run(&chars, ' ', 0);
    if n - indent >= 2 && (chars[indent] == '-' || chars[indent] == '*') && chars[indent + 1]
        == ' ' {
        let content = string_from_chars(slice_subrange(chars.as_slice(), indent + 2, n));
        Some((((indent / 2) % 256) as u8, content))
    } else {
        None
    }
}

/// The number of digits that stand in a row from `from` on.
pub open spec fn digit_run(s: Seq<char>, from: int) -> int
    decreases s.len() - from,
{
    if 0 <= from < s.len() && digit_value(s[from]) is Some {
        1 + digit_run(s, from + 1)
    } else {
        0
    }
}

/// The item of an ordered list that a line is: spaces, a number that fits
/// 32 bits, `. `, then the content.
pub open spec fn ordered_item(line: Seq<char>) -> Option<(u8, u32, Seq<char>)> {
    let indent = run_length(line, ' ', 0);
    let digits = digit_run(line, indent);
    let end = indent + digits;
    if digits > 0 && end + 2 <= line.len() && line[end] == '.' && line[end + 1] == ' '
        && digits_value(line.subrange(indent, end)) <= u32::MAX {
        Some(
            (
                depth_of(indent),
                digits_value(line.subrange(indent, end)) as u32,
                line.subrange(end + 2, line.len() as int),
            ),
        )
    } else {
        None
    }
}

/// The value of the digit `c`, if it is one.
fn digit_of(c: char) -> (r: Option<u64>)
    ensures
        match r {
            Some(d) => digit_value(c) == Some(d as nat) && d <= 9,
            None => digit_value(c) is None,
        },
{
    if c == '0' {
        Some(0)
    } else if c == '1' {
        Some(1)
    } else if c == '2' {
        Some(2)
    } else if c == '3' {
        Some(3)
    } else if c == '4' {
        Some(4)
    } else if c == '5' {
        Some(5)
    } else if c == '6' {
        Some(6)
    } else if c == '7' {
        Some(7)
    } else if c == '8' {
        Some(8)
    } else if c == '9' {
        Some(9)
    } else {
        None
    }
}

/// Reads a line as an item of an ordered list.
pub fn parse_ordered_list(line: &str) -> (r: Option<(u8, u32, String)>)
    ensures
        match r {
            Some((depth, number, content)) => ordered_item(line@) == Some(
                (depth, number, content@),
            ),
            None => ordered_item(line@) is None,
        },
{
    let chars = chars_of(line);
    let n: usize = chars.len();
    let indent: usize = count_run(&chars, ' ', 0);
    let mut end: usize = indent;
    let mut value: u64 = 0;
    let mut fits = true;
    let ghost s = chars@;
    assert(s.subrange(indent as int, indent as int) =~= Seq::<char>::empty());
    while end < n && digit_of(chars[end]).is_some()
        invariant
            indent <= end <= n,
            n == chars@.len(),
            s == chars@,
            digit_run(s, indent as int) == (end - indent) + digit_run(s, end as int),
            fits ==> value == digits_value(s.subrange(indent as int, end as int)) && value
                <= u32::MAX,
            !fits ==> digits_value(s.subrange(indent as int, end as int)) > u32::MAX,
        decreases n - end,
    {
        let ghost before = s.subrange(indent as int, end as int);
        let ghost after = s.subrange(indent as int, end + 1);
        assert(after.drop_last() =~= before);
        assert(after.last() == s[end as int]);
        let d: u64 = match digit_of(chars[end]) {
            Some(d) => d,
            None => 0,
        };
        if fits {
            value = value * 10 + d;
            if value > u32::MAX as u64 {
                fits = false;
            }
        }
        end += 1;
    }
    if end == indent || !fits {
        return None;
    }
    if n - end >= 2 && chars[end] == '.' && chars[end + 1] == ' ' {
        let content = string_from_chars(slice_subrange(chars.as_slice(), end + 2, n));
        Some((((indent / 2) % 256) as u8, value as u32, content))
    } else {
        None
    }
}

/// True when the line, without the white space around it, begins and ends
/// with `|` and holds at least three characters.
pub open spec fn is_row(line: Seq<char>) -> bool {
    let t = trimmed(line);
    t.len() >= 3 && t[0] == '|' && t.last() == '|'
}

/// Tells whether a line looks like a row of a table.
pub fn is_table_row(line: &str) -> (r: bool)
    ensures
        r == is_row(line@),
{
    let t = trim(line);
    let chars = chars_of(t.as_str());
    let n: usize = chars.len();
    n >= 3 && chars[0] == '|' && chars[n - 1] == '|'
}

/// The inside of a row: the line without the white space around it and
/// without the bars that lead and trail it.
pub open spec fn row_inside(line: Seq<char>) -> Seq<char> {
    let t = trimmed(line);
    let from = run_length(t, '|', 0);
    let to = t.len() - run_length_back(t, '|', t.len() as int);
    if from >= to {
        Seq::empty()
    } else {
        t.subrange(from, to)
    }
}

/// The index of the first `c` in `s` at or after `from`, or the length.
pub open spec fn char_index(s: Seq<char>, c: char, from: int) -> int
    decreases s.len() - from,
{
    if from < 0 || from >= s.len() {
        s.len() as int
    } else if s[from] == c {
        from
    } else {
        char_index(s, c, from + 1)
    }
}

pub proof fn lemma_char_index(s: Seq<char>, c: char, from: int)
    requires
        0 <= from <= s.len(),
    ensures
        from <= char_index(s, c, from) <= s.len(),
        char_index(s, c, from) < s.len() ==> s[char_index(s, c, from)] == c,
        forall|j: int| from <= j < char_index(s, c, from) ==> s[j] != c,
    decreases s.len() - from,
{
    if from < s.len() && s[from] != c {
        lemma_char_index(s, c, from + 1);
    }
}

/// The cells of the inside of a row: the pieces between its bars, each
/// without the white space around it.
pub open spec fn cells_of(inside: Seq<char>) -> Seq<Seq<char>>
    decreases inside.len(),
    via cells_of_decreases
{
    let i = char_index(inside, '|', 0);
    if i >= inside.len() {
        seq![trimmed(inside)]
    } else {
        seq![trimmed(inside.subrange(0, i))] + cells_of(
            inside.subrange(i + 1, inside.len() as int),
        )
    }
}

#[via_fn]
proof fn cells_of_decreases(inside: Seq<char>) {
    lemma_char_index(inside, '|', 0);
}

/// The views of a list of cells.
pub open spec fn cell_texts(cells: Seq<String>) -> Seq<Seq<char>> {
    cells.map_values(|s: String| s@)
}

/// The inside of a row, as characters.
fn inside_of_row(line: &str) -> (inside: Vec<char>)
    ensures
        inside@ == row_inside(line@),
{
    let t = trim(line);
    let chars = chars_of(t.as_str());
    let n: usize = chars.len();
    let from: usize = count_run(&chars, '|', 0);
    let back: usize = count_run_back(&chars, '|', n);
    let to: usize = n - back;
    if from >= to {
        Vec::new()
    } else {
        let mut inside: Vec<char> = Vec::new();
        let mut i: usize = from;
        while i < to
            invariant
                from <= i <= to,
                to <= chars@.len(),
                inside@ == chars@.subrange(from as int, i as int),
            decreases to - i,
        {
            inside.push(chars[i]);
            i += 1;
            assert(inside@ =~= chars@.subrange(from as int, i as int));
        }
        inside
    }
}

/// Splits the inside of a row into its cells.
fn split_cells(inside: &Vec<char>) -> (cells: Vec<String>)
    ensures
        cell_texts(cells@) == cells_of(inside@),
        cells@.len() >= 1,
{
    let n: usize = inside.len();
    let mut cells: Vec<String> = Vec::new();
    let mut start: usize = 0;
    assert(inside@.subrange(0, n as int) =~= inside@);
    assert(cell_texts(cells@) + cells_of(inside@) =~= cells_of(inside@));
    loop
        invariant_except_break
            cell_texts(cells@) + cells_of(inside@.subrange(start as int, n as int)) == cells_of(
                inside@,
            ),
        invariant
            start <= n,
            n == inside@.len(),
        ensures
            cell_texts(cells@) == cells_of(inside@),
            cells@.len() >= 1,
        decreases n - start,
    {
        let ghost rest = inside@.subrange(start as int, n as int);
        let ghost before = cell_texts(cells@);
        let mut i: usize = start;
        while i < n && inside[i] != '|'
            invariant
                start <= i <= n,
                n == inside@.len(),
                rest == inside@.subrange(start as int, n as int),
                char_index(rest, '|', i - start) == char_index(rest, '|', 0),
            decreases n - i,
        {
            i += 1;
        }
        let piece = string_from_chars(slice_subrange(inside.as_slice(), start, i));
        let cell = trim(piece.as_str());
        assert(piece@ =~= rest.subrange(0, i - start));
        cells.push(cell);
        assert(cell_texts(cells@) =~= before.push(cell@));
        if i >= n {
            assert(piece@ =~= rest);
            assert(before.push(cell@) =~= before + cells_of(rest));
            break ;
        }
        proof {
            assert(rest.subrange(i - start + 1, rest.len() as int) =~= inside@.subrange(
                i + 1,
                n as int,
            ));
            assert(before.push(cell@) + cells_of(inside@.subrange(i + 1, n as int)) =~= before
                + cells_of(rest));
        }
        start = i + 1;
    }
    cells
}

/// Splits a row of a table into its cells, each without the white space
/// around it.
pub fn parse_table_row(line: &str) -> (cells: Vec<String>)
    ensures
        cell_texts(cells@) == cells_of(row_inside(line@)),
{
    let inside = inside_of_row(line);
    split_cells(&inside)
}

/// True when a cell of a separator row is well-formed: it is not empty,
/// holds only `-`, `:` and spaces, and at least one `-`.
pub open spec fn is_separator_cell(cell: Seq<char>) -> bool {
    &&& cell.len() > 0
    &&& forall|i: int| 0 <= i < cell.len() ==> cell[i] == '-' || cell[i] == ':' || cell[i] == ' '
    &&& cell.contains('-')
}

/// True when the line is the row that separates the head of a table from
/// its body: a row whose inside is not empty and whose cells are all
/// well-formed separator cells.
pub open spec fn is_separator(line: Seq<char>) -> bool {
    is_row(line) && row_inside(line).len() > 0 && forall|i: int|
        0 <= i < cells_of(row_inside(line)).len() ==> is_separator_cell(
            #[trigger] cells_of(row_inside(line))[i],
        )
}

/// Tells whether a cell of a separator row is well-formed.
fn check_separator_cell(cell: &str) -> (r: bool)
    ensures
        r == is_separator_cell(cell@),
{
    let chars = chars_of(cell);
    if chars.len() == 0 {
        return false;
    }
    let mut dash = false;
    let mut i: usize = 0;
    while i < chars.len()
        invariant
            i <= chars@.len(),
            chars@ == cell@,
            forall|k: int|
                0 <= k < i ==> chars@[k] == '-' || chars@[k] == ':' || chars@[k] == ' ',
            dash == chars@.subrange(0, i as int).contains('-'),
        decreases chars.len() - i,
    {
        let c = chars[i];
        if !(c == '-' || c == ':' || c == ' ') {
            assert(!(chars@[i as int] == '-' || chars@[i as int] == ':' || chars@[i as int]
                == ' '));
            return false;
        }
        let ghost before = chars@.subrange(0, i as int);
        let ghost after = chars@.subrange(0, i + 1);
        assert(after =~= before.push(c));
        proof {
            if c == '-' {
                assert(after[i as int] == '-');
            } else if after.contains('-') {
                let k = choose|k: int| 0 <= k < after.len() && after[k] == '-';
                assert(before[k] == '-');
            } else if before.contains('-') {
                let k = choose|k: int| 0 <= k < before.len() && before[k] == '-';
                assert(after[k] == '-');
            }
        }
        if c == '-' {
            dash = true;
        }
        i += 1;
    }
    assert(chars@.subrange(0, chars@.len() as int) =~= chars@);
    dash
}

/// Tells whether a line is the separator row of a table.
pub fn is_table_separator(line: &str) -> (r: bool)
    ensures
        r == is_separator(line@),
{
    if !is_table_row(line) {
        return false;
    }
    let inside = inside_of_row(line);
    if inside.len() == 0 {
        return false;
    }
    let cells = split_cells(&inside);
    let mut i: usize = 0;
    while i < cells.len()
        invariant
            i <= cells@.len(),
            cell_texts(cells@) == cells_of(row_inside(line@)),
            forall|k: int|
                0 <= k < i ==> is_separator_cell(#[trigger] cells_of(row_inside(line@))[k]),
        decreases cells.len() - i,
    {
        assert(cell_texts(cells@)[i as int] == cells@[i as int]@);
        if !check_separator_cell(cells[i].as_str()) {
            return false;
        }
        i += 1;
    }
    true
}

/// How the cells of a column are aligned.
#[derive(Debug, Clone, Copy, PartialEq, Eq, Structural)]
pub enum Alignment {
    Left,
    Center,
    Right,
}

/// The alignment that a cell of the separator row asks for: a colon at
/// both ends centres, a colon at the end alone aligns right, everything
/// else aligns left.
pub open spec fn alignment_of(cell: Seq<char>) -> Alignment {
    let left = cell.len() > 0 && cell[0] == ':';
    let right = cell.len() > 0 && cell.last() == ':';
    if left && right {
        Alignment::Center
    } else if right {
        Alignment::Right
    } else {
        Alignment::Left
    }
}

/// Reads the alignments of the columns from the separator row.
pub fn parse_alignments(separator: &str) -> (r: Vec<Alignment>)
    ensures
        r@ == cells_of(row_inside(separator@)).map_values(|c: Seq<char>| alignment_of(c)),
{
    let inside = inside_of_row(separator);
    let cells = split_cells(&inside);
    let mut out: Vec<Alignment> = Vec::new();
    let mut i: usize = 0;
    while i < cells.len()
        invariant
            i <= cells@.len(),
            out@.len() == i,
            forall|k: int| 0 <= k < i ==> out@[k] == alignment_of(cells@[k]@),
        decreases cells.len() - i,
    {
        let chars = chars_of(cells[i].as_str());
        let n: usize = chars.len();
        let left = n > 0 && chars[0] == ':';
        let right = n > 0 && chars[n - 1] == ':';
        let alignment = if left && right {
            Alignment::Center
        } else if right {
            Alignment::Right
        } else {
            Alignment::Left
        };
        out.push(alignment);
        i += 1;
    }
    assert(out@ =~= cell_texts(cells@).map_values(|c: Seq<char>| alignment_of(c)));
    out
}

/// True when `marker` stands in `chars` at `i`.
pub open spec fn stands_at(chars: Seq<char>, marker: Seq<char>, i: int) -> bool {
    0 <= i && i + marker.len() <= chars.len() && chars.subrange(i, i + marker.len()) == marker
}

/// The first index at or after `from` at which `marker` stands in `chars`.
pub open spec fn marker_index(chars: Seq<char>, marker: Seq<char>, from: int) -> Option<int>
    decreases chars.len() - from,
{
    if from < 0 || from + marker.len() > chars.len() {
        None
    } else if stands_at(chars, marker, from) {
        Some(from)
    } else if from >= chars.len() {
        None
    } else {
        marker_index(chars, marker, from + 1)
    }
}

/// Tells whether `marker` stands in `chars` at `i`.
fn marker_at(chars: &[char], marker: &[char], i: usize) -> (r: bool)
    requires
        i + marker@.len() <= chars@.len(),
    ensures
        r == stands_at(chars@, marker@, i as int),
{
    let m: usize = marker.len();
    let n: usize = chars.len();
    let mut k: usize = 0;
    while k < m
        invariant
            k <= m,
            m == marker@.len(),
            n == chars@.len(),
            i + m <= n,
            forall|j: int| 0 <= j < k ==> chars@[i + j] == marker@[j],
        decreases m - k,
    {
        if chars[i + k] != marker[k] {
            assert(chars@.subrange(i as int, i + m)[k as int] != marker@[k as int]);
            return false;
        }
        k += 1;
    }
    assert(chars@.subrange(i as int, i + m) =~= marker@);
    true
}

/// Finds where the marker that closes a span stands, from `start` on.
pub fn find_closing(chars: &[char], start: usize, marker: &[char]) -> (r: Option<usize>)
    ensures
        match r {
            Some(i) => marker_index(chars@, marker@, start as int) == Some(i as int),
            None => marker_index(chars@, marker@, start as int) is None,
        },
{
    let n: usize = chars.len();
    let m: usize = marker.len();
    if n < m {
        return None;
    }
    let last: usize = n - m;
    let mut i: usize = start;
    while i <= last
        invariant
            start <= i,
            n == chars@.len(),
            m == marker@.len(),
            last == n - m,
            marker_index(chars@, marker@, i as int) == marker_index(
                chars@,
                marker@,
                start as int,
            ),
        decreases last + 1 - i,
    {
        if marker_at(chars, marker, i) {
            return Some(i);
        }
        if i == last {
            return None;
        }
        i += 1;
    }
    None
}

/// Finds the first `ch` from `start` on.
pub fn find_char(chars: &[char], start: usize, ch: char) -> (r: Option<usize>)
    ensures
        match r {
            Some(i) => start <= i < chars@.len() && char_index(chars@, ch, start as int) == i,
            None => start >= chars@.len() || char_index(chars@, ch, start as int)
                == chars@.len(),
        },
{
    let n: usize = chars.len();
    if start >= n {
        return None;
    }
    let mut i: usize = start;
    while i < n
        invariant
            start <= i <= n,
            n == chars@.len(),
            char_index(chars@, ch, i as int) == char_index(chars@, ch, start as int),
        decreases n - i,
    {
        if chars[i] == ch {
            return Some(i);
        }
        i += 1;
    }
    None
}

/// The link that begins at `i`, where a `[` stands: its text up to the
/// first `]`, which a `(` must follow directly, its target up to the first
/// `)`, and the index behind that `)`.
pub open spec fn link_at(chars: Seq<char>, i: int) -> Option<(Seq<char>, Seq<char>, int)> {
    let close = char_index(chars, ']', i + 1);
    if i + 1 >= chars.len() || close >= chars.len() || close + 1 >= chars.len() || chars[close
        + 1] != '(' {
        None
    } else {
        let end = char_index(chars, ')', close + 2);
        if close + 2 >= chars.len() || end >= chars.len() {
            None
        } else {
            Some((chars.subrange(i + 1, close), chars.subrange(close + 2, end), end + 1))
        }
    }
}

/// Reads the link that begins at `i`.
pub fn parse_link(chars: &[char], i: usize) -> (r: Option<(String, String, usize)>)
    requires
        i < usize::MAX,
    ensures
        match r {
            Some((text, url, end)) => link_at(chars@, i as int) == Some(
                (text@, url@, end as int),
            ),
            None => link_at(chars@, i as int) is None,
        },
{
    let n: usize = chars.len();
    let close: usize = match find_char(chars, i + 1, ']') {
        Some(c) => c,
        None => {
            return None;
        },
    };
    if n - close < 2 || chars[close + 1] != '(' {
        return None;
    }
    let end: usize = match find_char(chars, close + 2, ')') {
        Some(e) => e,
        None => {
            return None;
        },
    };
    let text = string_from_chars(slice_subrange(chars, i + 1, close));
    let url = string_from_chars(slice_subrange(chars, close + 2, end));
    Some((text, url, end + 1))
}

/// `n` spaces.
pub open spec fn spaces(n: int) -> Seq<char> {
    Seq::new(
        if n < 0 {
            0nat
        } else {
            n as nat
        },
        |i: int| ' ',
    )
}

/// A cell padded with spaces to the width of its column. `visible_len` is
/// the width of the cell as it shows; a cell that fills its column stays
/// as it is. Padding goes to the right of a cell aligned left, to its left
/// when aligned right, and to both sides, the smaller half first, when
/// centred.
pub open spec fn padded(styled: Seq<char>, visible_len: int, target_width: int, align: Alignment) -> Seq<
    char,
> {
    if visible_len >= target_width {
        styled
    } else {
        let padding = target_width - visible_len;
        match align {
            Alignment::Left => styled + spaces(padding),
            Alignment::Right => spaces(padding) + styled,
            Alignment::Center => spaces(padding / 2) + styled + spaces(padding - padding / 2),
        }
    }
}

/// Adds `n` spaces to `out`.
fn push_spaces(out: &mut Vec<char>, n: usize)
    ensures
        final(out)@ == old(out)@ + spaces(n as int),
{
    let mut i: usize = 0;
    assert(out@ =~= old(out)@ + spaces(0));
    while i < n
        invariant
            i <= n,
            out@ == old(out)@ + spaces(i as int),
        decreases n - i,
    {
        out.push(' ');
        i += 1;
        assert(out@ =~= old(out)@ + spaces(i as int));
    }
}

/// Pads a cell to the width of its column.
pub fn pad_cell(styled: &str, visible_len: usize, target_width: usize, align: Alignment) -> (r:
    String)
    ensures
        r@ == padded(styled@, visible_len as int, target_width as int, align),
{
    if visible_len >= target_width {
        return styled.to_owned();
    }
    let padding: usize = target_width - visible_len;
    let mut text = chars_of(styled);
    let mut out: Vec<char> = Vec::new();
    assert(out@ + spaces(0) =~= out@);
    match align {
        Alignment::Left => {
            out.append(&mut text);
            push_spaces(&mut out, padding);
        },
        Alignment::Right => {
            push_spaces(&mut out, padding);
            out.append(&mut text);
        },
        Alignment::Center => {
            let left: usize = padding / 2;
            push_spaces(&mut out, left);
            out.append(&mut text);
            push_spaces(&mut out, padding - left);
        },
    }
    let r = string_from_chars(out.as_slice());
    assert(r@ =~= padded(styled@, visible_len as int, target_width as int, align));
    r
}

} // verus!
