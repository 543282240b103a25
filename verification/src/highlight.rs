//! Coloured code: the spans that a highlighter found in a line, written
//! with the escape codes of the terminal.

use crate::inline::push_text;
use std::fmt::Write;
use crate::markdown::{count_run_back, run_length_back};
use crate::style::{Palette, PaletteView};
use crate::text::{chars_of, string_from_chars};
use vstd::prelude::*;
use vstd::slice::*;
use vstd::string::*;

verus! {

/// The escape code that sets the foreground to a colour given by its
/// red, green and blue parts: `crossterm::style::SetForegroundColor` with
/// `Color::Rgb`, as its `Display` writes it. What it writes depends on
/// the environment, so nothing is claimed of the code; where nothing can
/// be written, the code is empty.
#[verifier::external_body]
fn rgb_code(r: u8, g: u8, b: u8) -> String {
    let mut code = String::new();
    let colour = crossterm::style::Color::Rgb { r, g, b };
    let _ = write!(code, "{}", crossterm::style::SetForegroundColor(colour));
    code
}

/// A piece of a line of code in one style.
#[derive(Debug, Clone)]
pub struct Span {
    /// The escape code of the colour.
    pub colour: String,
    pub bold: bool,
    pub italic: bool,
    pub underline: bool,
    pub text: String,
}

/// A [`Span`] with its texts as sequences.
pub struct SpanView {
    pub colour: Seq<char>,
    pub bold: bool,
    pub italic: bool,
    pub underline: bool,
    pub text: Seq<char>,
}

impl View for Span {
    type V = SpanView;

    open spec fn view(&self) -> SpanView {
        SpanView {
            colour: self.colour@,
            bold: self.bold,
            italic: self.italic,
            underline: self.underline,
            text: self.text@,
        }
    }
}

impl Span {
    /// A span in the colour with the given red, green and blue parts.
    pub fn new(r: u8, g: u8, b: u8, bold: bool, italic: bool, underline: bool, text: String) -> (s:
        Span)
        ensures
            s.bold == bold,
            s.italic == italic,
            s.underline == underline,
            s.text == text,
    {
        Span { colour: rgb_code(r, g, b), bold, italic, underline, text }
    }
}

/// The views of a list of spans.
pub open spec fn span_views(spans: Seq<Span>) -> Seq<SpanView> {
    spans.map_values(|s: Span| s@)
}

/// A text without the line ends that trail it.
pub open spec fn without_line_ends(text: Seq<char>) -> Seq<char> {
    text.subrange(0, text.len() - run_length_back(text, '\n', text.len() as int))
}

/// A span as the terminal shows it: the code of its colour, the codes of
/// bold, italic and underline where it has them, its text without the
/// line ends that trail it, and the code that resets. A span with no
/// other text shows nothing.
pub open spec fn span_text(p: PaletteView, s: SpanView) -> Seq<char> {
    let text = without_line_ends(s.text);
    if text.len() == 0 {
        Seq::empty()
    } else {
        s.colour + (if s.bold {
            p.bold
        } else {
            Seq::empty()
        }) + (if s.italic {
            p.italic
        } else {
            Seq::empty()
        }) + (if s.underline {
            p.underlined
        } else {
            Seq::empty()
        }) + text + p.reset
    }
}

/// The first `n` spans as the terminal shows them.
pub open spec fn spans_text(p: PaletteView, spans: Seq<SpanView>, n: int) -> Seq<char>
    decreases n,
{
    if n <= 0 || n > spans.len() {
        Seq::empty()
    } else {
        spans_text(p, spans, n - 1) + span_text(p, spans[n - 1])
    }
}

/// Writes the spans of a line with the escape codes of the terminal.
pub fn syntect_to_ansi(p: &Palette, spans: &[Span]) -> (r: String)
    ensures
        r@ == spans_text(p@, span_views(spans@), spans@.len() as int),
{
    let ghost views = span_views(spans@);
    let mut out: Vec<char> = Vec::new();
    let mut k: usize = 0;
    while k < spans.len()
        invariant
            k <= spans@.len(),
            views == span_views(spans@),
            out@ == spans_text(p@, views, k as int),
        decreases spans.len() - k,
    {
        let ghost before = out@;
        let span = &spans[k];
        assert(views[k as int] == span@);
        let chars = chars_of(span.text.as_str());
        let trailing: usize = count_run_back(&chars, '\n', chars.len());
        let end: usize = chars.len() - trailing;
        if end > 0 {
            let text = string_from_chars(slice_subrange(chars.as_slice(), 0, end));
            push_text(&mut out, span.colour.as_str());
            if span.bold {
                push_text(&mut out, p.bold.as_str());
            }
            if span.italic {
                push_text(&mut out, p.italic.as_str());
            }
            if span.underline {
                push_text(&mut out, p.underlined.as_str());
            }
            push_text(&mut out, text.as_str());
            push_text(&mut out, p.reset.as_str());
            assert(out@ =~= before + span_text(p@, span@));
        } else {
            assert(out@ =~= before + span_text(p@, span@));
        }
        k += 1;
    }
    string_from_chars(out.as_slice())
}

} // verus!
