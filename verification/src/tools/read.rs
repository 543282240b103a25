//! The tool that reads a file and shows it with line numbers.

use crate::error::ToolError;
use crate::json::{Json, JsonView};
use crate::markdown::spaces;
use crate::message::{ToolDefinition, ToolDefinitionView};
use crate::sse::{decode_lossy, line_views, lines_of, split_lines, utf8_lossy};
use crate::text::{chars_of, decimal, decimal_chars, string_from_chars};
use crate::tools::input::{prop, property_views, PropertyView, 
    build_schema, count_member, define, input_schema, is_invalid_input, names, property,
    read_count_member, read_text_member, text_member, Property,
};
use crate::util::{truncate_str, truncated};
use vstd::prelude::*;
use vstd::string::*;

verus! {

/// The number of lines shown where the call names no limit.
pub const DEFAULT_LINE_LIMIT: u64 = 2000;

/// The longest line, in bytes, that is shown in full.
pub const MAX_LINE_BYTES: usize = 2000;

/// What the tool is asked to do: show the file at `file_path`, from line
/// `offset` on, counted from 1, and at most `limit` lines of it.
#[derive(Debug, Clone, PartialEq, Eq)]
pub struct ReadInput {
    pub file_path: String,
    pub offset: Option<u64>,
    pub limit: Option<u64>,
}

/// The input that a JSON value stands for, or the message of the error.
pub open spec fn read_input_of(j: JsonView) -> Result<(Seq<char>, Option<u64>, Option<u64>), Seq<char>> {
    match text_member(j, "file_path"@) {
        Err(m) => Err(m),
        Ok(path) => match count_member(j, "offset"@) {
            Err(m) => Err(m),
            Ok(offset) => match count_member(j, "limit"@) {
                Err(m) => Err(m),
                Ok(limit) => Ok((path, offset, limit)),
            },
        },
    }
}

/// Reads the input of a call.
pub fn decode_read_input(input: &Json) -> (r: Result<ReadInput, ToolError>)
    ensures
        match r {
            Ok(i) => read_input_of(input@) == Ok::<
                (Seq<char>, Option<u64>, Option<u64>),
                Seq<char>,
            >((i.file_path@, i.offset, i.limit)),
            Err(e) => read_input_of(input@) is Err && is_invalid_input(
                e,
                "Read"@,
                read_input_of(input@)->Err_0,
            ),
        },
{
    let file_path = match read_text_member(input, "Read", "file_path") {
        Ok(p) => p,
        Err(e) => {
            return Err(e);
        },
    };
    let offset = match read_count_member(input, "Read", "offset") {
        Ok(o) => o,
        Err(e) => {
            return Err(e);
        },
    };
    let limit = match read_count_member(input, "Read", "limit") {
        Ok(l) => l,
        Err(e) => {
            return Err(e);
        },
    };
    Ok(ReadInput { file_path, offset, limit })
}

/// The index of the first line shown, counted from 0: one less than the
/// offset, which counts from 1 and is 1 where the call names none.
pub open spec fn first_line(offset: Option<u64>) -> int {
    match offset {
        Some(o) => if o >= 1 {
            o - 1
        } else {
            0
        },
        None => 0,
    }
}

/// The number of lines that the call asks for.
pub open spec fn line_limit(limit: Option<u64>) -> int {
    match limit {
        Some(l) => l as int,
        None => DEFAULT_LINE_LIMIT as int,
    }
}

/// The smaller of two numbers.
pub open spec fn least(a: int, b: int) -> int {
    if a <= b {
        a
    } else {
        b
    }
}

/// One line as it is shown: its number, set right in a column of `width`
/// characters, a tab, the text of the line, clipped to `MAX_LINE_BYTES`
/// bytes, and a line feed.
pub open spec fn numbered_line(number: int, width: int, line: Seq<u8>) -> Seq<char> {
    spaces(width - decimal(number as nat).len()) + decimal(number as nat) + seq!['\t']
        + truncated(utf8_lossy(line), MAX_LINE_BYTES as int) + seq!['\n']
}

/// The lines from `from` up to `to`, each as it is shown.
pub open spec fn numbered_lines(lines: Seq<Seq<u8>>, from: int, to: int, width: int) -> Seq<char>
    decreases to - from,
{
    if to <= from {
        Seq::empty()
    } else {
        numbered_lines(lines, from, to - 1, width) + numbered_line(to, width, lines[to - 1])
    }
}

/// The note that tells which lines are shown, where not all are.
pub open spec fn range_note(from: int, to: int, total: int) -> Seq<char> {
    "\n(showing lines "@ + decimal((from + 1) as nat) + "-"@ + decimal(to as nat) + " of "@
        + decimal(total as nat) + ")"@
}

/// What is shown of a file with the bytes `content`. An empty file is
/// reported as such. Otherwise the lines from the offset on are shown, as
/// many as the limit allows, each with its number; where lines remain
/// behind the last one shown, a note tells which lines are shown.
pub open spec fn shown_file(content: Seq<u8>, offset: Option<u64>, limit: Option<u64>) -> Seq<char> {
    if content.len() == 0 {
        "(empty file)"@
    } else {
        let lines = lines_of(content);
        let total = lines.len() as int;
        let from = least(first_line(offset), total);
        let to = least(first_line(offset) + line_limit(limit), total);
        let width = decimal(to as nat).len() as int;
        numbered_lines(lines, from, to, width) + if to < total {
            range_note(first_line(offset), to, total)
        } else {
            Seq::empty()
        }
    }
}

/// Adds one line as it is shown.
fn push_numbered_line(out: &mut Vec<char>, number: u64, width: usize, line: &[u8])
    requires
        decimal(number as nat).len() <= width,
    ensures
        final(out)@ == old(out)@ + numbered_line(number as int, width as int, line@),
{
    let ghost before = out@;
    let mut digits = decimal_chars(number);
    let pad: usize = width - digits.len();
    let mut k: usize = 0;
    assert(out@ =~= before + spaces(0));
    while k < pad
        invariant
            k <= pad,
            out@ == before + spaces(k as int),
        decreases pad - k,
    {
        out.push(' ');
        k += 1;
        assert(out@ =~= before + spaces(k as int));
    }
    out.append(&mut digits);
    out.push('\t');
    let text = decode_lossy(line);
    let mut clipped = chars_of(truncate_str(text.as_str(), MAX_LINE_BYTES));
    out.append(&mut clipped);
    out.push('\n');
    assert(out@ =~= before + numbered_line(number as int, width as int, line@));
}

/// Adds the note that tells which lines are shown.
fn push_range_note(out: &mut Vec<char>, first: u64, to: u64, total: u64)
    requires
        first < u64::MAX,
    ensures
        final(out)@ == old(out)@ + range_note(first as int, to as int, total as int),
{
    let ghost before = out@;
    let mut note = chars_of("\n(showing lines ");
    out.append(&mut note);
    let mut a = decimal_chars(first + 1);
    out.append(&mut a);
    out.push('-');
    let mut b = decimal_chars(to);
    out.append(&mut b);
    let mut of = chars_of(" of ");
    out.append(&mut of);
    let mut c = decimal_chars(total);
    out.append(&mut c);
    out.push(')');
    proof {
        reveal_strlit("-");
        reveal_strlit(")");
        assert("-"@ =~= seq!['-']);
        assert(")"@ =~= seq![')']);
        assert(out@ =~= before + range_note(first as int, to as int, total as int));
    }
}

/// Shows a file with line numbers.
pub fn render_file(content: &str, offset: Option<u64>, limit: Option<u64>) -> (out: String)
    ensures
        out@ == shown_file(content.spec_bytes(), offset, limit),
{
    let bytes = content.as_bytes();
    if bytes.len() == 0 {
        return "(empty file)".to_owned();
    }
    let lines = split_lines(bytes);
    let ghost all = lines_of(bytes@);
    let total: usize = lines.len();
    let first: u64 = match offset {
        Some(o) => if o >= 1 {
            o - 1
        } else {
            0
        },
        None => 0,
    };
    let wanted: u64 = match limit {
        Some(l) => l,
        None => DEFAULT_LINE_LIMIT,
    };
    let from: usize = if first <= total as u64 {
        first as usize
    } else {
        total
    };
    let to: usize = if wanted <= total as u64 && first <= total as u64 - wanted {
        (first + wanted) as usize
    } else {
        total
    };
    assert(from as int == least(first_line(offset), total as int));
    assert(to as int == least(first_line(offset) + line_limit(limit), total as int));
    let width: usize = decimal_chars(to as u64).len();
    let mut out: Vec<char> = Vec::new();
    let mut i: usize = from;
    while i < to
        invariant
            from <= i <= to,
            to <= total,
            total == lines@.len(),
            all == line_views(lines@),
            width == decimal(to as nat).len(),
            out@ == numbered_lines(all, from as int, i as int, width as int),
        decreases to - i,
    {
        proof {
            lemma_decimal_grows((i + 1) as nat, to as nat);
        }
        assert(all[i as int] == lines@[i as int]@);
        push_numbered_line(&mut out, (i + 1) as u64, width, lines[i].as_slice());
        i += 1;
    }
    if to < total {
        push_range_note(&mut out, first, to as u64, total as u64);
    } else {
        assert(out@ + Seq::<char>::empty() =~= out@);
    }
    string_from_chars(out.as_slice())
}

/// A number has at most as many digits as a number that is not smaller.
pub proof fn lemma_decimal_grows(a: nat, b: nat)
    requires
        a <= b,
    ensures
        decimal(a).len() <= decimal(b).len(),
    decreases b,
{
    if b >= 10 {
        if a >= 10 {
            lemma_decimal_grows(a / 10, b / 10);
        } else {
            lemma_decimal_grows(0, b / 10);
        }
    }
}

/// The properties of the input of the tool.
pub open spec fn read_properties() -> Seq<PropertyView> {
    seq![
        prop("file_path"@, "string"@, "Absolute path to the file to read"@),
        prop("offset"@, "integer"@, "Line number to start reading from (1-based)"@),
        prop("limit"@, "integer"@, "Maximum number of lines to read"@),
    ]
}

/// What the tool announces of itself: its name, what it is for, and the
/// schema of its input.
pub open spec fn read_definition_view() -> ToolDefinitionView {
    ToolDefinitionView {
        name: "Read"@,
        description: "Read a file from the filesystem. Returns content with line numbers. Supports offset and limit for reading portions of large files."@,
        input_schema: input_schema(seq!["file_path"@], read_properties()),
        cache_control: None,
    }
}

/// What the tool announces of itself.
pub fn read_definition() -> (d: ToolDefinition)
    ensures
        d@ == read_definition_view(),
{
    let mut required: Vec<&str> = Vec::new();
    required.push("file_path");
    let mut properties: Vec<Property> = Vec::new();
    properties.push(property("file_path", "string", "Absolute path to the file to read"));
    properties.push(
        property("offset", "integer", "Line number to start reading from (1-based)"),
    );
    properties.push(property("limit", "integer", "Maximum number of lines to read"));
    let schema = build_schema(&required, &properties);
    assert(names(required@) =~= seq!["file_path"@]);
    assert(property_views(properties@) =~= read_properties());
    define(
        "Read",
        "Read a file from the filesystem. Returns content with line numbers. Supports offset and limit for reading portions of large files.",
        schema,
    )
}

} // verus!
