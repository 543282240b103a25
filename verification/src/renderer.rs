//! Markdown that arrives in pieces, rendered line by line. The renderer
//! keeps what is left of the last line until its end arrives, and says
//! what is to be written. Lines of code are handed out as they are, for
//! the caller to colour and write.

use crate::inline::{inline_text, render_inline};
use crate::markdown::{
    cell_texts, char_index, count_run, find_char, heading_of, is_horizontal_rule, is_row, is_rule,
    is_separator, is_table_row, is_table_separator, lemma_char_index, ordered_item,
    parse_heading, parse_ordered_list, parse_unordered_list, run_length, unordered_item,
};
use crate::style::{
    blockquote_prefix, bullet_text, heading, heading_text, horizontal_rule, list_bullet,
    list_number, number_text, quote_prefix_text, rule_text, Palette, PaletteView,
};
use crate::table::{render_table, table_text};
use crate::text::{chars_of, has_prefix, join2, join3, join4, string_from_chars, trim, trimmed};
use vstd::prelude::*;
use vstd::slice::*;
use vstd::string::*;

verus! {

/// What the renderer asks its caller to do.
#[derive(Debug, Clone, PartialEq, Eq)]
pub enum Output {
    /// Write the text as it is.
    Write(String),
    /// A block of code in the given language begins.
    BeginCode(String),
    /// Write a line of the block of code: two spaces, the line as the
    /// caller colours it, and a line end.
    CodeLine(String),
    /// The block of code is over.
    EndCode,
}

/// An [`Output`] with its text as a sequence.
pub enum OutputView {
    Write(Seq<char>),
    BeginCode(Seq<char>),
    CodeLine(Seq<char>),
    EndCode,
}

impl View for Output {
    type V = OutputView;

    open spec fn view(&self) -> OutputView {
        match self {
            Output::Write(t) => OutputView::Write(t@),
            Output::BeginCode(l) => OutputView::BeginCode(l@),
            Output::CodeLine(l) => OutputView::CodeLine(l@),
            Output::EndCode => OutputView::EndCode,
        }
    }
}

/// The views of a list of outputs.
pub open spec fn outputs(items: Seq<Output>) -> Seq<OutputView> {
    items.map_values(|o: Output| o@)
}

/// Renders markdown that arrives in pieces.
#[derive(Debug)]
pub struct StreamingMarkdownRenderer {
    buffer: String,
    in_code_block: bool,
    code_lang: String,
    table_buffer: Vec<String>,
    in_table: bool,
    term_width: u16,
    plain: bool,
}

/// The state of a renderer: the beginning of a line whose end has not
/// arrived, whether a block of code is open and in which language, the
/// lines gathered for a table, the width of the terminal, and whether
/// the text is passed on as it is.
pub struct RendererView {
    pub buffer: Seq<char>,
    pub in_code_block: bool,
    pub code_lang: Seq<char>,
    pub table_buffer: Seq<Seq<char>>,
    pub in_table: bool,
    pub term_width: u16,
    pub plain: bool,
}

impl View for StreamingMarkdownRenderer {
    type V = RendererView;

    closed spec fn view(&self) -> RendererView {
        RendererView {
            buffer: self.buffer@,
            in_code_block: self.in_code_block,
            code_lang: self.code_lang@,
            table_buffer: cell_texts(self.table_buffer@),
            in_table: self.in_table,
            term_width: self.term_width,
            plain: self.plain,
        }
    }
}

/// A renderer that has seen nothing.
pub open spec fn fresh(term_width: u16, plain: bool) -> RendererView {
    RendererView {
        buffer: Seq::empty(),
        in_code_block: false,
        code_lang: Seq::empty(),
        table_buffer: Seq::empty(),
        in_table: false,
        term_width,
        plain,
    }
}

/// One text to write.
pub open spec fn written(text: Seq<char>) -> Seq<OutputView> {
    seq![OutputView::Write(text)]
}

/// A line as a paragraph: its inline markdown rendered, and a line end.
pub open spec fn paragraph(p: PaletteView, line: Seq<char>) -> OutputView {
    OutputView::Write(inline_text(p, line) + "\n"@)
}

/// The first `n` lines as paragraphs.
pub open spec fn paragraphs(p: PaletteView, lines: Seq<Seq<char>>, n: int) -> Seq<OutputView>
    decreases n,
{
    if n <= 0 || n > lines.len() {
        Seq::empty()
    } else {
        paragraphs(p, lines, n - 1).push(paragraph(p, lines[n - 1]))
    }
}

/// The lines gathered for a table are written, as a table where the
/// second of them is a separator and as paragraphs where not, and the
/// renderer is outside a table again.
pub open spec fn flushed_table(p: PaletteView, s: RendererView) -> (RendererView, Seq<OutputView>) {
    let after = RendererView { table_buffer: Seq::empty(), in_table: false, ..s };
    if s.table_buffer.len() == 0 {
        (after, Seq::empty())
    } else if s.table_buffer.len() < 2 || !is_separator(s.table_buffer[1]) {
        (after, paragraphs(p, s.table_buffer, s.table_buffer.len() as int))
    } else {
        (after, written(table_text(p, s.table_buffer)))
    }
}

/// The fence of a block of code.
pub open spec fn fence() -> Seq<char> {
    "```"@
}

/// The language that an opening fence names: what follows its backticks,
/// without the white space around it.
pub open spec fn fence_lang(t: Seq<char>) -> Seq<char> {
    trimmed(t.subrange(run_length(t, '`', 0), t.len() as int))
}

/// What a quoted line quotes: what follows `> `, or nothing where the
/// line is `>` alone.
pub open spec fn quoted(t: Seq<char>) -> Option<Seq<char>> {
    if has_prefix(t, seq!['>', ' ']) {
        Some(t.subrange(2, t.len() as int))
    } else if t == seq!['>'] {
        Some(Seq::empty())
    } else {
        None
    }
}

/// A line outside code and tables, styled by what it is: a heading, a
/// rule, a quotation, an item of a list, an empty line or a paragraph.
/// Headings, rules, quotations and paragraphs are read from the line
/// without the white space around it; items of lists from the line as it
/// is, for their depth.
pub open spec fn block_text(p: PaletteView, width: u16, line: Seq<char>) -> Seq<char> {
    let t = trimmed(line);
    match heading_of(t) {
        Some((level, text)) => heading_text(p, inline_text(p, text), level),
        None => if is_rule(t) {
            rule_text(p, width)
        } else {
            match quoted(t) {
                Some(content) => quote_prefix_text(p) + inline_text(p, content),
                None => list_or_paragraph(p, line),
            }
        },
    }
}

/// A line that is no heading, rule or quotation: an item of a list, an
/// empty line or a paragraph.
pub open spec fn list_or_paragraph(p: PaletteView, line: Seq<char>) -> Seq<char> {
    let t = trimmed(line);
    match unordered_item(line) {
        Some((depth, content)) => bullet_text(p, depth) + " "@ + inline_text(p, content),
        None => match ordered_item(line) {
            Some((depth, number, content)) => number_text(p, number, depth) + " "@
                + inline_text(p, content),
            None => if t.len() == 0 {
                Seq::empty()
            } else {
                inline_text(p, t)
            },
        },
    }
}

/// What a complete line does to the renderer, and what is written for
/// it.
pub open spec fn line_step(p: PaletteView, s: RendererView, line: Seq<char>) -> (
    RendererView,
    Seq<OutputView>,
) {
    let t = trimmed(line);
    if s.plain {
        (s, written(line + "\n"@))
    } else if has_prefix(t, fence()) {
        if s.in_code_block {
            (
                RendererView { in_code_block: false, code_lang: Seq::empty(), ..s },
                seq![OutputView::EndCode, OutputView::Write(p.dim + fence() + p.reset + "\n"@)],
            )
        } else {
            (
                RendererView { in_code_block: true, code_lang: fence_lang(t), ..s },
                seq![
                    OutputView::BeginCode(fence_lang(t)),
                    OutputView::Write(p.dim + fence() + fence_lang(t) + p.reset + "\n"@),
                ],
            )
        }
    } else if s.in_code_block {
        (s, seq![OutputView::CodeLine(line)])
    } else if is_row(t) {
        let table = if s.in_table {
            s.table_buffer.push(t)
        } else {
            seq![t]
        };
        if table.len() == 2 && !is_separator(table[1]) {
            (
                RendererView { table_buffer: Seq::empty(), in_table: false, ..s },
                paragraphs(p, table, 2),
            )
        } else {
            (RendererView { table_buffer: table, in_table: true, ..s }, Seq::empty())
        }
    } else {
        let flushed = if s.in_table {
            flushed_table(p, s)
        } else {
            (s, Seq::empty())
        };
        (flushed.0, flushed.1.push(OutputView::Write(block_text(p, s.term_width, line) + "\n"@)))
    }
}

/// What the pending text does: each complete line in turn, and what is
/// left of the last line is kept.
pub open spec fn feed(p: PaletteView, s: RendererView, pending: Seq<char>) -> (
    RendererView,
    Seq<OutputView>,
)
    decreases pending.len(),
    via feed_decreases
{
    let i = char_index(pending, '\n', 0);
    if i >= pending.len() {
        (RendererView { buffer: pending, ..s }, Seq::empty())
    } else {
        let first = line_step(p, s, pending.subrange(0, i));
        let rest = feed(p, first.0, pending.subrange(i + 1, pending.len() as int));
        (rest.0, first.1 + rest.1)
    }
}

#[via_fn]
proof fn feed_decreases(p: PaletteView, s: RendererView, pending: Seq<char>) {
    lemma_char_index(pending, '\n', 0);
}

/// What a piece of text does to the renderer, and what is written for
/// it.
pub open spec fn pushed(p: PaletteView, s: RendererView, text: Seq<char>) -> (
    RendererView,
    Seq<OutputView>,
) {
    feed(p, RendererView { buffer: Seq::empty(), ..s }, s.buffer + text)
}

/// What the end of the text does: what is left of the last line is
/// rendered as a line (in plain mode, written as it is), the lines
/// gathered for a table are written, and an open block of code is
/// closed.
pub open spec fn finished(p: PaletteView, s: RendererView) -> (RendererView, Seq<OutputView>) {
    let empty = RendererView { buffer: Seq::empty(), ..s };
    if s.buffer.len() > 0 && s.plain {
        (empty, written(s.buffer))
    } else {
        let last = if s.buffer.len() > 0 {
            line_step(p, empty, s.buffer)
        } else {
            (s, Seq::empty())
        };
        let flushed = flushed_table(p, last.0);
        if flushed.0.in_code_block {
            (
                RendererView { in_code_block: false, ..flushed.0 },
                (last.1 + flushed.1).push(OutputView::EndCode),
            )
        } else {
            (flushed.0, last.1 + flushed.1)
        }
    }
}

/// The first line end from `from` on is the first line end of what
/// follows `from`.
proof fn lemma_char_index_suffix(s: Seq<char>, c: char, from: int, at: int)
    requires
        0 <= from <= at <= s.len(),
    ensures
        char_index(s.subrange(from, s.len() as int), c, at - from) + from == char_index(s, c, at),
    decreases s.len() - at,
{
    let tail = s.subrange(from, s.len() as int);
    if at < s.len() {
        assert(tail[at - from] == s[at]);
        if s[at] != c {
            lemma_char_index_suffix(s, c, from, at + 1);
        }
    }
}

/// The first place of a character is the place where it stands with no
/// such character before it.
proof fn lemma_char_index_is(s: Seq<char>, c: char, from: int, at: int)
    requires
        0 <= from <= at < s.len(),
        s[at] == c,
        forall|j: int| from <= j < at ==> s[j] != c,
    ensures
        char_index(s, c, from) == at,
    decreases at - from,
{
    if from < at {
        lemma_char_index_is(s, c, from + 1, at);
    }
}

/// A complete line leaves alone what is kept of the last line.
proof fn lemma_line_step_keeps_buffer(p: PaletteView, s: RendererView, line: Seq<char>)
    ensures
        line_step(p, s, line).0.buffer == s.buffer,
{
}

/// Feeding a text and then what follows it gives what feeding the two
/// in one piece gives.
proof fn lemma_feed_split(p: PaletteView, s: RendererView, x: Seq<char>, y: Seq<char>)
    requires
        s.buffer.len() == 0,
    ensures
        ({
            let first = feed(p, s, x);
            let second = feed(
                p,
                RendererView { buffer: Seq::empty(), ..first.0 },
                first.0.buffer + y,
            );
            feed(p, s, x + y) == (second.0, first.1 + second.1)
        }),
    decreases x.len(),
{
    let i = char_index(x, '\n', 0);
    lemma_char_index(x, '\n', 0);
    let first = feed(p, s, x);
    if i >= x.len() {
        assert(first.0 == RendererView { buffer: x, ..s });
        assert(RendererView { buffer: Seq::empty(), ..first.0 } == s) by {
            assert(s.buffer =~= Seq::<char>::empty());
        }
        assert(first.1 + feed(p, s, x + y).1 =~= feed(p, s, x + y).1);
    } else {
        let whole = x + y;
        assert(whole[i] == '\n');
        assert forall|j: int| 0 <= j < i implies whole[j] != '\n' by {
            assert(whole[j] == x[j]);
        }
        lemma_char_index_is(whole, '\n', 0, i);
        assert(whole.subrange(0, i) =~= x.subrange(0, i));
        assert(whole.subrange(i + 1, whole.len() as int) =~= x.subrange(i + 1, x.len() as int)
            + y);
        let line = line_step(p, s, x.subrange(0, i));
        lemma_line_step_keeps_buffer(p, s, x.subrange(0, i));
        lemma_feed_split(p, line.0, x.subrange(i + 1, x.len() as int), y);
        let rest = feed(p, line.0, x.subrange(i + 1, x.len() as int));
        let second = feed(
            p,
            RendererView { buffer: Seq::empty(), ..rest.0 },
            rest.0.buffer + y,
        );
        assert(line.1 + (rest.1 + second.1) =~= (line.1 + rest.1) + second.1);
    }
}

/// Pieces do not show: a text pushed in two pieces leaves the renderer
/// in the state, and has it write the outputs, of the text pushed in one
/// piece.
pub proof fn lemma_pieces_do_not_show(
    p: PaletteView,
    s: RendererView,
    a: Seq<char>,
    b: Seq<char>,
)
    ensures
        ({
            let first = pushed(p, s, a);
            let second = pushed(p, first.0, b);
            pushed(p, s, a + b) == (second.0, first.1 + second.1)
        }),
{
    let start = RendererView { buffer: Seq::empty(), ..s };
    lemma_feed_split(p, start, s.buffer + a, b);
    assert(s.buffer + (a + b) =~= (s.buffer + a) + b);
}

impl StreamingMarkdownRenderer {
    /// A renderer for a terminal `term_width` columns wide.
    pub fn new(term_width: u16) -> (r: Self)
        ensures
            r@ == fresh(term_width, false),
    {
        let r = StreamingMarkdownRenderer {
            buffer: String::new(),
            in_code_block: false,
            code_lang: String::new(),
            table_buffer: Vec::new(),
            in_table: false,
            term_width,
            plain: false,
        };
        assert(cell_texts(r.table_buffer@) =~= Seq::empty());
        r
    }

    /// A renderer that passes the text on as it is, line by line.
    pub fn new_plain() -> (r: Self)
        ensures
            r@ == fresh(80, true),
    {
        let r = StreamingMarkdownRenderer {
            buffer: String::new(),
            in_code_block: false,
            code_lang: String::new(),
            table_buffer: Vec::new(),
            in_table: false,
            term_width: 80,
            plain: true,
        };
        assert(cell_texts(r.table_buffer@) =~= Seq::empty());
        r
    }

    /// Writes the first `n` of the gathered lines as paragraphs.
    fn write_paragraphs(p: &Palette, lines: &Vec<String>, out: &mut Vec<Output>)
        ensures
            outputs(final(out)@) == outputs(old(out)@) + paragraphs(
                p@,
                cell_texts(lines@),
                lines@.len() as int,
            ),
    {
        let ghost texts = cell_texts(lines@);
        let mut k: usize = 0;
        assert(outputs(out@) =~= outputs(old(out)@) + paragraphs(p@, texts, 0));
        while k < lines.len()
            invariant
                k <= lines@.len(),
                texts == cell_texts(lines@),
                outputs(out@) == outputs(old(out)@) + paragraphs(p@, texts, k as int),
            decreases lines.len() - k,
        {
            let styled = render_inline(p, lines[k].as_str());
            let text = join2(styled.as_str(), "\n");
            let ghost before = outputs(out@);
            assert(texts[k as int] == lines@[k as int]@);
            assert(text@ =~= inline_text(p@, texts[k as int]) + "\n"@);
            out.push(Output::Write(text));
            assert(outputs(out@) =~= before.push(paragraph(p@, texts[k as int])));
            k += 1;
        }
    }

    /// Writes the lines gathered for a table.
    fn flush_table(&mut self, p: &Palette, out: &mut Vec<Output>)
        ensures
            final(self)@ == flushed_table(p@, old(self)@).0,
            outputs(final(out)@) == outputs(old(out)@) + flushed_table(p@, old(self)@).1,
    {
        let mut lines: Vec<String> = Vec::new();
        std::mem::swap(&mut lines, &mut self.table_buffer);
        self.in_table = false;
        assert(cell_texts(self.table_buffer@) =~= Seq::empty());
        if lines.len() == 0 {
            assert(outputs(out@) =~= outputs(old(out)@) + Seq::<OutputView>::empty());
            return ;
        }
        if lines.len() < 2 || !is_table_separator(lines[1].as_str()) {
            Self::write_paragraphs(p, &lines, out);
            return ;
        }
        let text = render_table(p, lines.as_slice(), self.term_width);
        let ghost before = outputs(out@);
        out.push(Output::Write(text));
        assert(outputs(out@) =~= before + written(table_text(p@, cell_texts(lines@))));
    }

    /// Styles a line outside code and tables.
    fn render_block(p: &Palette, width: u16, line: &str, t: &str) -> (r: String)
        requires
            t@ == trimmed(line@),
        ensures
            r@ == block_text(p@, width, line@),
    {
        match parse_heading(t) {
            Some(h) => {
                let inner = render_inline(p, h.text.as_str());
                return heading(p, inner.as_str(), h.level);
            },
            None => {},
        }
        if is_horizontal_rule(t) {
            return horizontal_rule(p, width);
        }
        let chars = chars_of(t);
        if chars.len() >= 2 && chars[0] == '>' && chars[1] == ' ' {
            assert(chars@.subrange(0, 2) =~= seq!['>', ' ']);
            let content = string_from_chars(slice_subrange(chars.as_slice(), 2, chars.len()));
            let inner = render_inline(p, content.as_str());
            return join2(blockquote_prefix(p).as_str(), inner.as_str());
        }
        assert(!has_prefix(t@, seq!['>', ' '])) by {
            if has_prefix(t@, seq!['>', ' ']) {
                assert(t@.subrange(0, 2)[0] == '>');
                assert(t@.subrange(0, 2)[1] == ' ');
            }
        }
        if chars.len() == 1 && chars[0] == '>' {
            assert(t@ =~= seq!['>']);
            let inner = render_inline(p, "");
            proof {
                reveal_strlit("");
                assert(""@ =~= Seq::<char>::empty());
            }
            return join2(blockquote_prefix(p).as_str(), inner.as_str());
        }
        assert(t@ != seq!['>']) by {
            if t@ == seq!['>'] {
                assert(t@.len() == 1 && t@[0] == '>');
            }
        }
        match parse_unordered_list(line) {
            Some((depth, content)) => {
                let inner = render_inline(p, content.as_str());
                return join3(list_bullet(p, depth).as_str(), " ", inner.as_str());
            },
            None => {},
        }
        match parse_ordered_list(line) {
            Some((depth, number, content)) => {
                let inner = render_inline(p, content.as_str());
                return join3(list_number(p, number, depth).as_str(), " ", inner.as_str());
            },
            None => {},
        }
        if chars.len() == 0 {
            return String::new();
        }
        render_inline(p, t)
    }

    /// Renders one complete line.
    fn render_line(&mut self, p: &Palette, line: &str, out: &mut Vec<Output>)
        ensures
            final(self)@ == line_step(p@, old(self)@, line@).0,
            outputs(final(out)@) == outputs(old(out)@) + line_step(p@, old(self)@, line@).1,
    {
        let ghost before = outputs(out@);
        let ghost s = self@;
        if self.plain {
            let text = join2(line, "\n");
            out.push(Output::Write(text));
            assert(outputs(out@) =~= before + written(line@ + "\n"@));
            return ;
        }
        let t = trim(line);
        let chars = chars_of(t.as_str());
        let ticks: usize = count_run(&chars, '`', 0);
        proof {
            lemma_fence(chars@);
        }
        if ticks >= 3 {
            if self.in_code_block {
                self.in_code_block = false;
                self.code_lang = String::new();
                out.push(Output::EndCode);
                let text = join4(p.dim.as_str(), "```", p.reset.as_str(), "\n");
                out.push(Output::Write(text));
                assert(text@ =~= p@.dim + fence() + p@.reset + "\n"@);
                assert(outputs(out@) =~= before + line_step(p@, s, line@).1);
            } else {
                let tail = string_from_chars(slice_subrange(chars.as_slice(), ticks, chars.len()));
                let lang = trim(tail.as_str());
                self.in_code_block = true;
                self.code_lang = lang.clone();
                out.push(Output::BeginCode(lang.clone()));
                let head = join3(p.dim.as_str(), "```", lang.as_str());
                let text = join3(head.as_str(), p.reset.as_str(), "\n");
                out.push(Output::Write(text));
                assert(text@ =~= p@.dim + fence() + fence_lang(t@) + p@.reset + "\n"@);
                assert(outputs(out@) =~= before + line_step(p@, s, line@).1);
            }
            return ;
        }
        if self.in_code_block {
            out.push(Output::CodeLine(line.to_owned()));
            assert(outputs(out@) =~= before + line_step(p@, s, line@).1);
            return ;
        }
        if is_table_row(t.as_str()) {
            if !self.in_table {
                self.in_table = true;
                self.table_buffer = Vec::new();
            }
            self.table_buffer.push(t);
            let ghost table = cell_texts(self.table_buffer@);
            assert(table =~= if s.in_table {
                s.table_buffer.push(t@)
            } else {
                seq![t@]
            });
            if self.table_buffer.len() == 2 && !is_table_separator(self.table_buffer[1].as_str()) {
                let mut lines: Vec<String> = Vec::new();
                std::mem::swap(&mut lines, &mut self.table_buffer);
                self.in_table = false;
                assert(cell_texts(self.table_buffer@) =~= Seq::empty());
                Self::write_paragraphs(p, &lines, out);
            } else {
                assert(outputs(out@) =~= before + Seq::<OutputView>::empty());
            }
            return ;
        }
        if self.in_table {
            self.flush_table(p, out);
        }
        let ghost flushed = outputs(out@);
        let styled = Self::render_block(p, self.term_width, line, t.as_str());
        let text = join2(styled.as_str(), "\n");
        out.push(Output::Write(text));
        assert(text@ =~= block_text(p@, s.term_width, line@) + "\n"@);
        assert(outputs(out@) =~= flushed.push(
            OutputView::Write(block_text(p@, s.term_width, line@) + "\n"@),
        ));
        assert(outputs(out@) =~= before + line_step(p@, s, line@).1);
    }

    /// Takes a piece of text: renders each line that it completes, and
    /// keeps what is left of the last line.
    pub fn push(&mut self, p: &Palette, text: &str) -> (out: Vec<Output>)
        ensures
            final(self)@ == pushed(p@, old(self)@, text@).0,
            outputs(out@) == pushed(p@, old(self)@, text@).1,
    {
        let pending = join2(self.buffer.as_str(), text);
        let chars = chars_of(pending.as_str());
        let len: usize = chars.len();
        self.buffer = String::new();
        let mut out: Vec<Output> = Vec::new();
        let mut start: usize = 0;
        let ghost goal = pushed(p@, old(self)@, text@);
        assert(chars@.subrange(0, len as int) =~= chars@);
        assert(outputs(out@) + feed(p@, self@, chars@).1 =~= goal.1);
        loop
            invariant_except_break
                self@.buffer.len() == 0,
                outputs(out@) + feed(p@, self@, chars@.subrange(start as int, len as int)).1
                    == goal.1,
                feed(p@, self@, chars@.subrange(start as int, len as int)).0 == goal.0,
            invariant
                start <= len,
                len == chars@.len(),
                goal == pushed(p@, old(self)@, text@),
            ensures
                self@ == goal.0,
                outputs(out@) == goal.1,
            decreases len - start,
        {
            let ghost tail = chars@.subrange(start as int, len as int);
            let ghost state = self@;
            let ghost so_far = outputs(out@);
            proof {
                lemma_char_index_suffix(chars@, '\n', start as int, start as int);
                lemma_char_index(chars@, '\n', start as int);
            }
            match find_char(chars.as_slice(), start, '\n') {
                Some(pos) => {
                    let line = string_from_chars(slice_subrange(chars.as_slice(), start, pos));
                    assert(line@ =~= tail.subrange(0, pos - start));
                    assert(tail.subrange(pos - start + 1, tail.len() as int) =~= chars@.subrange(
                        pos + 1,
                        len as int,
                    ));
                    self.render_line(p, line.as_str(), &mut out);
                    start = pos + 1;
                    proof {
                        let first = line_step(p@, state, line@);
                        let rest = feed(p@, first.0, chars@.subrange(start as int, len as int));
                        assert(so_far + (first.1 + rest.1) =~= (so_far + first.1) + rest.1);
                    }
                },
                None => {
                    self.buffer = string_from_chars(slice_subrange(chars.as_slice(), start, len));
                    assert(outputs(out@) + Seq::<OutputView>::empty() =~= outputs(out@));
                    break ;
                },
            }
        }
        out
    }

    /// Ends the text: renders what is left and closes what is open.
    pub fn finish(&mut self, p: &Palette) -> (out: Vec<Output>)
        ensures
            final(self)@ == finished(p@, old(self)@).0,
            outputs(out@) == finished(p@, old(self)@).1,
    {
        let mut out: Vec<Output> = Vec::new();
        let ghost s = self@;
        assert(outputs(out@) =~= Seq::<OutputView>::empty());
        if self.buffer.unicode_len() > 0 {
            let mut remaining = String::new();
            std::mem::swap(&mut remaining, &mut self.buffer);
            if self.plain {
                out.push(Output::Write(remaining));
                assert(outputs(out@) =~= written(s.buffer));
                return out;
            }
            self.render_line(p, remaining.as_str(), &mut out);
        }
        self.flush_table(p, &mut out);
        if self.in_code_block {
            self.in_code_block = false;
            let ghost flushed = outputs(out@);
            out.push(Output::EndCode);
            assert(outputs(out@) =~= flushed.push(OutputView::EndCode));
        }
        out
    }
}

/// A line begins with a fence exactly when at least three backticks
/// lead it.
proof fn lemma_fence(t: Seq<char>)
    ensures
        has_prefix(t, fence()) <==> run_length(t, '`', 0) >= 3,
{
    reveal_strlit("```");
    assert(fence() =~= seq!['`', '`', '`']);
    let first = 0 < t.len() && t[0] == '`';
    let second = 1 < t.len() && t[1] == '`';
    let third = 2 < t.len() && t[2] == '`';
    assert(run_length(t, '`', 0) == if first {
        1 + run_length(t, '`', 1)
    } else {
        0
    });
    assert(run_length(t, '`', 1) == if second {
        1 + run_length(t, '`', 2)
    } else {
        0
    });
    assert(run_length(t, '`', 2) == if third {
        1 + run_length(t, '`', 3)
    } else {
        0
    });
    if t.len() >= 3 {
        crate::markdown::lemma_run_length(t, '`', 3);
    }
    if has_prefix(t, fence()) {
        assert(t.subrange(0, 3)[0] == '`');
        assert(t.subrange(0, 3)[1] == '`');
        assert(t.subrange(0, 3)[2] == '`');
    }
    if first && second && third {
        assert(t.subrange(0, 3) =~= fence());
    }
}

} // verus!
