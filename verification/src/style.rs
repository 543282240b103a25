//! Styled text for the terminal. The escape codes come from the terminal
//! library; which of its codes it writes depends on the machine and its
//! environment, so they are gathered once in a [`Palette`], and
//! everything else is stated over the codes that the palette holds.

use std::fmt::Write;
use crate::text::{decimal, join2, join3, join4, u64_to_string};
use vstd::prelude::*;
use vstd::string::*;

verus! {

/// The attributes of text that the styles use.
#[derive(Debug, Clone, Copy, PartialEq, Eq, Structural)]
pub enum TextAttribute {
    Reset,
    Bold,
    Dim,
    Italic,
    Underlined,
}

/// The foreground colours that the styles use.
#[derive(Debug, Clone, Copy, PartialEq, Eq, Structural)]
pub enum Colour {
    Reset,
    Green,
    Blue,
    Magenta,
    Yellow,
    DarkYellow,
    Cyan,
    Red,
}

/// The number of an attribute in an escape sequence.
pub open spec fn attribute_number(attribute: TextAttribute) -> Seq<char> {
    match attribute {
        TextAttribute::Reset => "0"@,
        TextAttribute::Bold => "1"@,
        TextAttribute::Dim => "2"@,
        TextAttribute::Italic => "3"@,
        TextAttribute::Underlined => "4"@,
    }
}

/// The numbers of a foreground colour in an escape sequence.
pub open spec fn colour_number(colour: Colour) -> Seq<char> {
    match colour {
        Colour::Reset => "39"@,
        Colour::Green => "38;5;10"@,
        Colour::Blue => "38;5;12"@,
        Colour::Magenta => "38;5;13"@,
        Colour::Yellow => "38;5;11"@,
        Colour::DarkYellow => "38;5;3"@,
        Colour::Cyan => "38;5;14"@,
        Colour::Red => "38;5;9"@,
    }
}

/// The escape sequence that selects what `numbers` name.
pub open spec fn escape_sequence(numbers: Seq<char>) -> Seq<char> {
    "\x1b["@ + numbers + "m"@
}

/// True when `code` is a code that the terminal library may write for an
/// attribute: the escape sequence of the attribute, or nothing, on a
/// machine that takes no escape sequences.
pub open spec fn is_attribute_code(code: Seq<char>, attribute: TextAttribute) -> bool {
    code == escape_sequence(attribute_number(attribute)) || code.len() == 0
}

/// True when `code` is a code that the terminal library may write for a
/// foreground colour: the escape sequence of the colour; the sequence
/// without numbers, where the environment asks for no colours; or
/// nothing, on a machine that takes no escape sequences.
pub open spec fn is_colour_code(code: Seq<char>, colour: Colour) -> bool {
    code == escape_sequence(colour_number(colour)) || code == escape_sequence(Seq::empty())
        || code.len() == 0
}

/// The escape code that sets an attribute: `crossterm::style::SetAttribute`
/// as its `Display` writes it. Which code it writes depends on the
/// machine: the escape sequence with the number of the attribute, or, on
/// a machine that takes no escape sequences, nothing.
#[verifier::external_body]
fn attribute_code(attribute: TextAttribute) -> (code: String)
    ensures
        is_attribute_code(code@, attribute),
{
    let outside = match attribute {
        TextAttribute::Reset => crossterm::style::Attribute::Reset,
        TextAttribute::Bold => crossterm::style::Attribute::Bold,
        TextAttribute::Dim => crossterm::style::Attribute::Dim,
        TextAttribute::Italic => crossterm::style::Attribute::Italic,
        TextAttribute::Underlined => crossterm::style::Attribute::Underlined,
    };
    let mut code = String::new();
    let _ = write!(code, "{}", crossterm::style::SetAttribute(outside));
    code
}

/// The escape code that sets the foreground colour:
/// `crossterm::style::SetForegroundColor` as its `Display` writes it.
/// Which code it writes depends on the machine and its environment: the
/// escape sequence with the numbers of the colour; the sequence without
/// numbers, where `NO_COLOR` is set; or, on a machine that takes no
/// escape sequences, nothing.
#[verifier::external_body]
fn colour_code(colour: Colour) -> (code: String)
    ensures
        is_colour_code(code@, colour),
{
    let outside = match colour {
        Colour::Reset => crossterm::style::Color::Reset,
        Colour::Green => crossterm::style::Color::Green,
        Colour::Blue => crossterm::style::Color::Blue,
        Colour::Magenta => crossterm::style::Color::Magenta,
        Colour::Yellow => crossterm::style::Color::Yellow,
        Colour::DarkYellow => crossterm::style::Color::DarkYellow,
        Colour::Cyan => crossterm::style::Color::Cyan,
        Colour::Red => crossterm::style::Color::Red,
    };
    let mut code = String::new();
    let _ = write!(code, "{}", crossterm::style::SetForegroundColor(outside));
    code
}

/// The escape codes that the styles are made of.
#[derive(Debug, Clone)]
pub struct Palette {
    pub reset: String,
    pub bold: String,
    pub dim: String,
    pub italic: String,
    pub underlined: String,
    pub fg_reset: String,
    pub green: String,
    pub blue: String,
    pub magenta: String,
    pub yellow: String,
    pub dark_yellow: String,
    pub cyan: String,
    pub red: String,
}

/// A [`Palette`] with its codes as sequences.
pub struct PaletteView {
    pub reset: Seq<char>,
    pub bold: Seq<char>,
    pub dim: Seq<char>,
    pub italic: Seq<char>,
    pub underlined: Seq<char>,
    pub fg_reset: Seq<char>,
    pub green: Seq<char>,
    pub blue: Seq<char>,
    pub magenta: Seq<char>,
    pub yellow: Seq<char>,
    pub dark_yellow: Seq<char>,
    pub cyan: Seq<char>,
    pub red: Seq<char>,
}

impl View for Palette {
    type V = PaletteView;

    open spec fn view(&self) -> PaletteView {
        PaletteView {
            reset: self.reset@,
            bold: self.bold@,
            dim: self.dim@,
            italic: self.italic@,
            underlined: self.underlined@,
            fg_reset: self.fg_reset@,
            green: self.green@,
            blue: self.blue@,
            magenta: self.magenta@,
            yellow: self.yellow@,
            dark_yellow: self.dark_yellow@,
            cyan: self.cyan@,
            red: self.red@,
        }
    }
}

impl PaletteView {
    /// True when each code is one that the terminal library may write
    /// for its attribute or colour.
    pub open spec fn holds_terminal_codes(self) -> bool {
        &&& is_attribute_code(self.reset, TextAttribute::Reset)
        &&& is_attribute_code(self.bold, TextAttribute::Bold)
        &&& is_attribute_code(self.dim, TextAttribute::Dim)
        &&& is_attribute_code(self.italic, TextAttribute::Italic)
        &&& is_attribute_code(self.underlined, TextAttribute::Underlined)
        &&& is_colour_code(self.fg_reset, Colour::Reset)
        &&& is_colour_code(self.green, Colour::Green)
        &&& is_colour_code(self.blue, Colour::Blue)
        &&& is_colour_code(self.magenta, Colour::Magenta)
        &&& is_colour_code(self.yellow, Colour::Yellow)
        &&& is_colour_code(self.dark_yellow, Colour::DarkYellow)
        &&& is_colour_code(self.cyan, Colour::Cyan)
        &&& is_colour_code(self.red, Colour::Red)
    }

    /// The code of a colour.
    pub open spec fn colour(self, colour: Colour) -> Seq<char> {
        match colour {
            Colour::Reset => self.fg_reset,
            Colour::Green => self.green,
            Colour::Blue => self.blue,
            Colour::Magenta => self.magenta,
            Colour::Yellow => self.yellow,
            Colour::DarkYellow => self.dark_yellow,
            Colour::Cyan => self.cyan,
            Colour::Red => self.red,
        }
    }
}

impl Palette {
    /// The codes of the terminal, as the terminal library writes them:
    /// each code of the palette is one that the library may write for the
    /// attribute or the colour that it is named after.
    pub fn terminal() -> (p: Palette)
        ensures
            p@.holds_terminal_codes(),
    {
        Palette {
            reset: attribute_code(TextAttribute::Reset),
            bold: attribute_code(TextAttribute::Bold),
            dim: attribute_code(TextAttribute::Dim),
            italic: attribute_code(TextAttribute::Italic),
            underlined: attribute_code(TextAttribute::Underlined),
            fg_reset: colour_code(Colour::Reset),
            green: colour_code(Colour::Green),
            blue: colour_code(Colour::Blue),
            magenta: colour_code(Colour::Magenta),
            yellow: colour_code(Colour::Yellow),
            dark_yellow: colour_code(Colour::DarkYellow),
            cyan: colour_code(Colour::Cyan),
            red: colour_code(Colour::Red),
        }
    }

    /// The code of a colour.
    pub fn colour(&self, colour: Colour) -> (code: &str)
        ensures
            code@ == self@.colour(colour),
    {
        match colour {
            Colour::Reset => self.fg_reset.as_str(),
            Colour::Green => self.green.as_str(),
            Colour::Blue => self.blue.as_str(),
            Colour::Magenta => self.magenta.as_str(),
            Colour::Yellow => self.yellow.as_str(),
            Colour::DarkYellow => self.dark_yellow.as_str(),
            Colour::Cyan => self.cyan.as_str(),
            Colour::Red => self.red.as_str(),
        }
    }
}

/// The text `unit`, `n` times in a row.
pub open spec fn repeated(unit: Seq<char>, n: int) -> Seq<char>
    decreases n,
{
    if n <= 0 {
        Seq::empty()
    } else {
        repeated(unit, n - 1) + unit
    }
}

/// Writes `unit` `n` times in a row.
pub fn repeat_text(unit: &str, n: usize) -> (r: String)
    ensures
        r@ == repeated(unit@, n as int),
{
    let mut out = String::new();
    let mut i: usize = 0;
    while i < n
        invariant
            i <= n,
            out@ == repeated(unit@, i as int),
        decreases n - i,
    {
        out = join2(out.as_str(), unit);
        i += 1;
    }
    out
}

/// Bold text.
pub fn bold(p: &Palette, text: &str) -> (r: String)
    ensures
        r@ == p@.bold + text@ + p@.reset,
{
    join3(p.bold.as_str(), text, p.reset.as_str())
}

/// Faint text.
pub fn dim(p: &Palette, text: &str) -> (r: String)
    ensures
        r@ == p@.dim + text@ + p@.reset,
{
    join3(p.dim.as_str(), text, p.reset.as_str())
}

/// Italic text.
pub fn italic(p: &Palette, text: &str) -> (r: String)
    ensures
        r@ == p@.italic + text@ + p@.reset,
{
    join3(p.italic.as_str(), text, p.reset.as_str())
}

/// Underlined text.
pub fn underline(p: &Palette, text: &str) -> (r: String)
    ensures
        r@ == p@.underlined + text@ + p@.reset,
{
    join3(p.underlined.as_str(), text, p.reset.as_str())
}

/// Text in a foreground colour.
pub fn fg_color(p: &Palette, text: &str, colour: Colour) -> (r: String)
    ensures
        r@ == p@.colour(colour) + text@ + p@.fg_reset,
{
    join3(p.colour(colour), text, p.fg_reset.as_str())
}

/// A span of code within a line: cyan and faint.
pub open spec fn code_span_text(p: PaletteView, text: Seq<char>) -> Seq<char> {
    p.cyan + p.dim + text + p.reset
}

/// Styles a span of code within a line.
pub fn code_span(p: &Palette, text: &str) -> (r: String)
    ensures
        r@ == code_span_text(p@, text@),
{
    join4(p.cyan.as_str(), p.dim.as_str(), text, p.reset.as_str())
}

/// The colour of a heading of the given level.
pub open spec fn heading_colour(level: u8) -> Colour {
    if level == 1 {
        Colour::Green
    } else if level == 2 {
        Colour::Blue
    } else if level == 3 {
        Colour::Magenta
    } else {
        Colour::Yellow
    }
}

/// A heading: in the colour of its level and bold, as many `#` as the
/// level says, two spaces and the text.
pub open spec fn heading_text(p: PaletteView, text: Seq<char>, level: u8) -> Seq<char> {
    p.colour(heading_colour(level)) + p.bold + repeated("#"@, level as int) + "  "@ + text
        + p.reset
}

/// Styles a heading.
pub fn heading(p: &Palette, text: &str, level: u8) -> (r: String)
    ensures
        r@ == heading_text(p@, text@, level),
{
    let colour = if level == 1 {
        Colour::Green
    } else if level == 2 {
        Colour::Blue
    } else if level == 3 {
        Colour::Magenta
    } else {
        Colour::Yellow
    };
    let prefix = repeat_text("#", level as usize);
    let head = join3(p.colour(colour), p.bold.as_str(), prefix.as_str());
    let r = join4(head.as_str(), "  ", text, p.reset.as_str());
    assert(r@ =~= heading_text(p@, text@, level));
    r
}

/// A link: its text underlined, and its target faint in brackets.
pub open spec fn link_text(p: PaletteView, text: Seq<char>, url: Seq<char>) -> Seq<char> {
    p.underlined + text + p.reset + " ("@ + p.dim + url + p.reset + ")"@
}

/// Styles a link.
pub fn link(p: &Palette, text: &str, url: &str) -> (r: String)
    ensures
        r@ == link_text(p@, text@, url@),
{
    let shown = join4(p.underlined.as_str(), text, p.reset.as_str(), " (");
    let target = join4(p.dim.as_str(), url, p.reset.as_str(), ")");
    let r = join2(shown.as_str(), target.as_str());
    assert(r@ =~= link_text(p@, text@, url@));
    r
}

/// The width of a rule on a terminal `width` columns wide: at most 80.
pub open spec fn rule_width(width: u16) -> int {
    if width < 80 {
        width as int
    } else {
        80
    }
}

/// A horizontal rule: a faint line.
pub open spec fn rule_text(p: PaletteView, width: u16) -> Seq<char> {
    p.dim + repeated("\u{2500}"@, rule_width(width)) + p.reset
}

/// Draws a horizontal rule.
pub fn horizontal_rule(p: &Palette, width: u16) -> (r: String)
    ensures
        r@ == rule_text(p@, width),
{
    let w: usize = if width < 80 {
        width as usize
    } else {
        80
    };
    let line = repeat_text("\u{2500}", w);
    join3(p.dim.as_str(), line.as_str(), p.reset.as_str())
}

/// What stands before a quoted line: a faint bar and a space.
pub open spec fn quote_prefix_text(p: PaletteView) -> Seq<char> {
    p.dim + "\u{2502} "@ + p.reset
}

/// Writes what stands before a quoted line.
pub fn blockquote_prefix(p: &Palette) -> (r: String)
    ensures
        r@ == quote_prefix_text(p@),
{
    join3(p.dim.as_str(), "\u{2502} ", p.reset.as_str())
}

/// The bullet of a list item at the given depth: two spaces for each
/// level, and a dark yellow dot.
pub open spec fn bullet_text(p: PaletteView, depth: u8) -> Seq<char> {
    repeated("  "@, depth as int) + p.dark_yellow + "\u{2022}"@ + p.fg_reset
}

/// Writes the bullet of a list item.
pub fn list_bullet(p: &Palette, depth: u8) -> (r: String)
    ensures
        r@ == bullet_text(p@, depth),
{
    let indent = repeat_text("  ", depth as usize);
    join4(indent.as_str(), p.dark_yellow.as_str(), "\u{2022}", p.fg_reset.as_str())
}

/// The number of a list item at the given depth: two spaces for each
/// level, the number in dark yellow, and a full stop.
pub open spec fn number_text(p: PaletteView, n: u32, depth: u8) -> Seq<char> {
    repeated("  "@, depth as int) + p.dark_yellow + decimal(n as nat) + p.fg_reset + "."@
}

/// Writes the number of a list item.
pub fn list_number(p: &Palette, n: u32, depth: u8) -> (r: String)
    ensures
        r@ == number_text(p@, n, depth),
{
    let indent = repeat_text("  ", depth as usize);
    let number = u64_to_string(n as u64);
    let head = join3(indent.as_str(), p.dark_yellow.as_str(), number.as_str());
    let r = join3(head.as_str(), p.fg_reset.as_str(), ".");
    assert(r@ =~= number_text(p@, n, depth));
    r
}

/// The head of a line about a tool: two spaces, the sign in its colour,
/// a space and the tool's name in bold.
pub open spec fn tool_head(p: PaletteView, colour: Colour, sign: Seq<char>, name: Seq<char>) -> Seq<
    char,
> {
    "  "@ + p.colour(colour) + sign + p.fg_reset + " "@ + p.bold + name + p.reset
}

fn write_tool_head(p: &Palette, colour: Colour, sign: &str, name: &str) -> (r: String)
    ensures
        r@ == tool_head(p@, colour, sign@, name@),
{
    let mark = join4("  ", p.colour(colour), sign, p.fg_reset.as_str());
    let named = join4(" ", p.bold.as_str(), name, p.reset.as_str());
    let r = join2(mark.as_str(), named.as_str());
    assert(r@ =~= tool_head(p@, colour, sign@, name@));
    r
}

/// The line that says a tool starts.
pub fn tool_start(p: &Palette, name: &str) -> (r: String)
    ensures
        r@ == tool_head(p@, Colour::Cyan, "\u{26A1}"@, name@),
{
    write_tool_head(p, Colour::Cyan, "\u{26A1}", name)
}

/// The line that says a tool succeeded: its head with a green tick, and
/// the output, where there is any, faint behind a space.
pub open spec fn tool_success_text(p: PaletteView, name: Seq<char>, output: Seq<char>) -> Seq<
    char,
> {
    let head = tool_head(p, Colour::Green, "\u{2713}"@, name);
    if output.len() == 0 {
        head
    } else {
        head + " "@ + p.dim + output + p.reset
    }
}

/// Writes the line that says a tool succeeded.
pub fn tool_success(p: &Palette, name: &str, output: &str) -> (r: String)
    ensures
        r@ == tool_success_text(p@, name@, output@),
{
    let head = write_tool_head(p, Colour::Green, "\u{2713}", name);
    if output.unicode_len() == 0 {
        head
    } else {
        let tail = join4(" ", p.dim.as_str(), output, p.reset.as_str());
        let r = join2(head.as_str(), tail.as_str());
        assert(r@ =~= tool_success_text(p@, name@, output@));
        r
    }
}

/// The line that says a tool failed or was refused: its head with the
/// sign in `colour`, and the text, where there is any, in the same
/// colour behind a space.
pub open spec fn tool_note_text(
    p: PaletteView,
    colour: Colour,
    sign: Seq<char>,
    name: Seq<char>,
    note: Seq<char>,
) -> Seq<char> {
    let head = tool_head(p, colour, sign, name);
    if note.len() == 0 {
        head
    } else {
        head + " "@ + p.colour(colour) + note + p.fg_reset
    }
}

fn write_tool_note(p: &Palette, colour: Colour, sign: &str, name: &str, note: &str) -> (r: String)
    ensures
        r@ == tool_note_text(p@, colour, sign@, name@, note@),
{
    let head = write_tool_head(p, colour, sign, name);
    if note.unicode_len() == 0 {
        head
    } else {
        let tail = join4(" ", p.colour(colour), note, p.fg_reset.as_str());
        let r = join2(head.as_str(), tail.as_str());
        assert(r@ =~= tool_note_text(p@, colour, sign@, name@, note@));
        r
    }
}

/// The line that says a tool failed: a red cross, and the output in red.
pub fn tool_error(p: &Palette, name: &str, output: &str) -> (r: String)
    ensures
        r@ == tool_note_text(p@, Colour::Red, "\u{2717}"@, name@, output@),
{
    write_tool_note(p, Colour::Red, "\u{2717}", name, output)
}

/// The line that says a tool was refused: a yellow sign, and the reason
/// in yellow.
pub fn tool_blocked(p: &Palette, name: &str, reason: &str) -> (r: String)
    ensures
        r@ == tool_note_text(p@, Colour::Yellow, "\u{2298}"@, name@, reason@),
{
    write_tool_note(p, Colour::Yellow, "\u{2298}", name, reason)
}

} // verus!
