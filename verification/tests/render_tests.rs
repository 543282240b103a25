use chet::highlight::{syntect_to_ansi, Span};
use chet::inline::render_inline;
use chet::renderer::{Output, StreamingMarkdownRenderer};
use chet::spinner::{frame, frame_line, FRAME_COUNT, FRAME_MS};
use chet::style::{
    blockquote_prefix, bold, code_span, dim, fg_color, heading, horizontal_rule, italic, link,
    list_bullet, list_number, repeat_text, tool_blocked, tool_error, tool_start, tool_success,
    underline, Colour, Palette,
};
use chet::table::render_table;

/// A palette whose codes can be read.
fn marks() -> Palette {
    Palette {
        reset: "<r>".into(),
        bold: "<b>".into(),
        dim: "<d>".into(),
        italic: "<i>".into(),
        underlined: "<u>".into(),
        fg_reset: "<fr>".into(),
        green: "<green>".into(),
        blue: "<blue>".into(),
        magenta: "<magenta>".into(),
        yellow: "<yellow>".into(),
        dark_yellow: "<dy>".into(),
        cyan: "<cyan>".into(),
        red: "<red>".into(),
    }
}

/// Collects what a caller would write; a line of code is written faint.
struct Screen {
    palette: Palette,
    renderer: StreamingMarkdownRenderer,
    text: String,
    blocks: Vec<String>,
    open: bool,
}

impl Screen {
    fn with(palette: Palette, renderer: StreamingMarkdownRenderer) -> Screen {
        Screen {
            palette,
            renderer,
            text: String::new(),
            blocks: Vec::new(),
            open: false,
        }
    }

    fn terminal() -> Screen {
        Screen::with(Palette::terminal(), StreamingMarkdownRenderer::new(80))
    }

    fn marked() -> Screen {
        Screen::with(marks(), StreamingMarkdownRenderer::new(80))
    }

    fn plain() -> Screen {
        Screen::with(Palette::terminal(), StreamingMarkdownRenderer::new_plain())
    }

    fn take(&mut self, outputs: Vec<Output>) {
        for o in outputs {
            match o {
                Output::Write(t) => self.text.push_str(&t),
                Output::BeginCode(lang) => {
                    assert!(!self.open);
                    self.open = true;
                    self.blocks.push(lang);
                }
                Output::CodeLine(line) => {
                    assert!(self.open);
                    self.text.push_str("  ");
                    self.text.push_str(&dim(&self.palette, &line));
                    self.text.push('\n');
                }
                Output::EndCode => {
                    assert!(self.open);
                    self.open = false;
                }
            }
        }
    }

    fn push(&mut self, text: &str) {
        let out = self.renderer.push(&self.palette, text);
        self.take(out);
    }

    fn finish(&mut self) {
        let out = self.renderer.finish(&self.palette);
        self.take(out);
    }
}

#[test]
fn push_buffers_partial_lines() {
    let mut s = Screen::terminal();
    s.push("hello ");
    assert!(s.text.is_empty());
    s.push("world\n");
    assert!(s.text.contains("hello world"));
    assert_eq!(s.text, "hello world\n");
}

#[test]
fn push_handles_multiple_lines_at_once() {
    let mut s = Screen::terminal();
    s.push("line1\nline2\n");
    assert!(s.text.contains("line1"));
    assert!(s.text.contains("line2"));
    assert_eq!(s.text, "line1\nline2\n");
}

#[test]
fn finish_flushes_remaining() {
    let mut s = Screen::terminal();
    s.push("no newline");
    assert!(s.text.is_empty());
    s.finish();
    assert!(s.text.contains("no newline"));
    assert_eq!(s.text, "no newline\n");
}

#[test]
fn push_token_fragments() {
    let mut s = Screen::terminal();
    s.push("Hel");
    s.push("lo ");
    s.push("Wor");
    s.push("ld!\n");
    assert!(s.text.contains("Hello World!"));
}

#[test]
fn chunking_does_not_change_what_is_rendered() {
    let text = "# Title\n\nSome **bold** text\n- item\n```rust\nlet x = 1;\n```\n| a | b |\n|---|---|\n| 1 | 2 |\nlast";
    let mut whole = Screen::marked();
    whole.push(text);
    whole.finish();
    for size in 1..6 {
        let mut pieces = Screen::marked();
        let chars: Vec<char> = text.chars().collect();
        for chunk in chars.chunks(size) {
            let piece: String = chunk.iter().collect();
            pieces.push(&piece);
        }
        pieces.finish();
        assert_eq!(pieces.text, whole.text);
        assert_eq!(pieces.blocks, whole.blocks);
    }
}

#[test]
fn render_heading_h1() {
    let mut s = Screen::terminal();
    s.push("# Title\n");
    assert!(s.text.contains("#  Title"));
}

#[test]
fn render_heading_h3() {
    let mut s = Screen::terminal();
    s.push("### Sub heading\n");
    assert!(s.text.contains("###  Sub heading"));
}

#[test]
fn headings_in_their_colours() {
    let mut s = Screen::marked();
    s.push("# One\n## Two\n### *Three*\n#### Four\n####### Seven\n#\n");
    assert_eq!(
        s.text,
        "<green><b>#  One<r>\n<blue><b>##  Two<r>\n<magenta><b>###  <i>Three<r><r>\n\
         <yellow><b>####  Four<r>\n####### Seven\n<green><b>#  <r>\n"
    );
}

#[test]
fn render_code_block() {
    let mut s = Screen::terminal();
    s.push("```rust\nlet x = 42;\n```\n");
    assert!(s.text.contains("rust"));
    assert!(s.text.contains("  "));
    assert!(s.text.contains('\x1b'));
    assert_eq!(s.blocks, vec!["rust".to_string()]);
    assert!(!s.open);
}

#[test]
fn render_code_block_no_language() {
    let mut s = Screen::terminal();
    s.push("```\nplain code\n```\n");
    assert!(s.text.contains("plain code"));
    assert_eq!(s.blocks, vec![String::new()]);
}

#[test]
fn code_block_across_pushes() {
    let mut s = Screen::terminal();
    s.push("```py\n");
    s.push("x = 1\n");
    s.push("y = 2\n");
    s.push("```\n");
    assert!(s.text.contains("py"));
}

#[test]
fn code_blocks_exactly() {
    let mut r = StreamingMarkdownRenderer::new(80);
    let p = marks();
    let out = r.push(&p, "  ```` rust \n  **code** \n# not a heading\n```\nafter\n");
    assert_eq!(
        out,
        vec![
            Output::BeginCode("rust".into()),
            Output::Write("<d>```rust<r>\n".into()),
            Output::CodeLine("  **code** ".into()),
            Output::CodeLine("# not a heading".into()),
            Output::EndCode,
            Output::Write("<d>```<r>\n".into()),
            Output::Write("after\n".into()),
        ]
    );
    assert!(r.finish(&p).is_empty());
}

#[test]
fn render_bold() {
    let mut s = Screen::terminal();
    s.push("This is **bold** text\n");
    assert!(s.text.contains("bold"));
    assert!(s.text.contains('\x1b'));
}

#[test]
fn render_italic() {
    let mut s = Screen::terminal();
    s.push("This is *italic* text\n");
    assert!(s.text.contains("italic"));
}

#[test]
fn render_inline_code() {
    let mut s = Screen::terminal();
    s.push("Use `cargo build` to compile\n");
    assert!(s.text.contains("cargo build"));
}

#[test]
fn render_link() {
    let mut s = Screen::terminal();
    s.push("Visit [Rust](https://rust-lang.org) for more\n");
    assert!(s.text.contains("Rust"));
    assert!(s.text.contains("https://rust-lang.org"));
}

#[test]
fn render_horizontal_rule() {
    let mut s = Screen::terminal();
    s.push("---\n");
    assert!(s.text.contains('─'));
}

#[test]
fn render_blockquote() {
    let mut s = Screen::terminal();
    s.push("> quoted text\n");
    assert!(s.text.contains("│"));
    assert!(s.text.contains("quoted text"));
}

#[test]
fn render_unordered_list() {
    let mut s = Screen::terminal();
    s.push("- item one\n- item two\n");
    assert!(s.text.contains('•'));
    assert!(s.text.contains("item one"));
    assert!(s.text.contains("item two"));
}

#[test]
fn render_ordered_list() {
    let mut s = Screen::terminal();
    s.push("1. first\n2. second\n");
    assert!(s.text.contains("1"));
    assert!(s.text.contains("first"));
    assert!(s.text.contains("2"));
    assert!(s.text.contains("second"));
}

#[test]
fn render_nested_list() {
    let mut s = Screen::terminal();
    s.push("- top\n  - nested\n");
    assert!(s.text.contains("top"));
    assert!(s.text.contains("nested"));
}

#[test]
fn blocks_exactly() {
    let mut s = Screen::marked();
    s.push("---\n> quoted *text*\n>\n- top\n    * deep\n12. twelfth\n  3. third\n\n   \n  plain  \n");
    let rule = "\u{2500}".repeat(80);
    assert_eq!(
        s.text,
        format!(
            "<d>{rule}<r>\n<d>\u{2502} <r>quoted <i>text<r>\n<d>\u{2502} <r>\n\
             <dy>\u{2022}<fr> top\n    <dy>\u{2022}<fr> deep\n<dy>12<fr>. twelfth\n\
             \x20 <dy>3<fr>. third\n\n\nplain\n"
        )
    );
}

#[test]
fn a_narrow_terminal_has_a_short_rule() {
    let mut r = StreamingMarkdownRenderer::new(10);
    let out = r.push(&marks(), "***\n");
    assert_eq!(
        out,
        vec![Output::Write(format!("<d>{}<r>\n", "\u{2500}".repeat(10)))]
    );
}

#[test]
fn empty_push_is_noop() {
    let mut s = Screen::terminal();
    s.push("");
    assert!(s.text.is_empty());
    s.finish();
    assert!(s.text.is_empty());
}

#[test]
fn unmatched_bold_renders_literally() {
    let mut s = Screen::terminal();
    s.push("this has **no closing\n");
    assert!(s.text.contains("**no closing"));
}

#[test]
fn escaped_markdown_renders_literally() {
    let result = render_inline(&Palette::terminal(), "this is \\*not italic\\*");
    assert!(result.contains("*not italic*"));
    assert!(!result.contains('\x1b'));
}

#[test]
fn bold_italic_combined() {
    let result = render_inline(&Palette::terminal(), "***bold italic***");
    assert!(result.contains("bold italic"));
    assert!(result.contains('\x1b'));
}

#[test]
fn inline_exactly() {
    let p = marks();
    assert_eq!(render_inline(&p, ""), "");
    assert_eq!(render_inline(&p, "plain"), "plain");
    assert_eq!(render_inline(&p, "a **b** c"), "a <b>b<r> c");
    assert_eq!(render_inline(&p, "a *b* c"), "a <i>b<r> c");
    assert_eq!(render_inline(&p, "***x***"), "<b><i>x<r>");
    assert_eq!(render_inline(&p, "`co*de*`"), "<cyan><d>co*de*<r>");
    assert_eq!(
        render_inline(&p, "[t](u) end"),
        "<u>t<r> (<d>u<r>) end"
    );
    // The inside of a span is not rendered again.
    assert_eq!(render_inline(&p, "**a *b* c**"), "<b>a *b* c<r>");
    // Escapes.
    assert_eq!(render_inline(&p, "\\*\\`\\[\\]\\(\\)\\\\\\_"), "*`[]()\\_");
    assert_eq!(render_inline(&p, "\\a\\"), "\\a\\");
    // What does not close stays as it is.
    assert_eq!(render_inline(&p, "**open"), "**open");
    assert_eq!(render_inline(&p, "*open"), "*open");
    assert_eq!(render_inline(&p, "`open"), "`open");
    assert_eq!(render_inline(&p, "[t](u"), "[t](u");
    assert_eq!(render_inline(&p, "[t] (u)"), "[t] (u)");
    assert_eq!(render_inline(&p, "[t"), "[t");
    // Two stars with nothing between them are an empty bold span only
    // where two more follow.
    assert_eq!(render_inline(&p, "****"), "<b><r>");
    assert_eq!(render_inline(&p, "**"), "**");
    assert_eq!(render_inline(&p, "``"), "<cyan><d><r>");
    assert_eq!(render_inline(&p, "[]()"), "<u><r> (<d><r>)");
    // Three stars that find no three fall back on two.
    assert_eq!(render_inline(&p, "***a**"), "<b>*a<r>");
    assert_eq!(render_inline(&p, "h\u{e9} **\u{1F600}**"), "h\u{e9} <b>\u{1F600}<r>");
}

#[test]
fn finish_closes_open_code_block() {
    let mut s = Screen::terminal();
    s.push("```rust\nlet x = 1;\n");
    assert!(s.open);
    s.finish();
    assert!(s.text.contains("let"));
    assert!(s.text.contains('\x1b'));
    assert!(!s.open);
}

#[test]
fn finish_renders_the_last_line_of_a_code_block() {
    let mut r = StreamingMarkdownRenderer::new(80);
    let p = marks();
    let first = r.push(&p, "```\nlet x");
    assert_eq!(
        first,
        vec![
            Output::BeginCode(String::new()),
            Output::Write("<d>```<r>\n".into())
        ]
    );
    assert_eq!(
        r.finish(&p),
        vec![Output::CodeLine("let x".into()), Output::EndCode]
    );
}

#[test]
fn render_table_produces_box_drawing() {
    let lines = vec![
        "| Col1 | Col2 |".to_string(),
        "|------|------|".to_string(),
        "| a    | b    |".to_string(),
    ];
    let result = render_table(&Palette::terminal(), &lines, 80);
    assert!(result.contains('┌'));
    assert!(result.contains('┐'));
    assert!(result.contains('├'));
    assert!(result.contains('┤'));
    assert!(result.contains('└'));
    assert!(result.contains('┘'));
    assert!(result.contains('│'));
    assert!(result.contains('─'));
    assert!(result.contains("Col1"));
    assert!(result.contains("Col2"));
    assert!(result.contains("a"));
    assert!(result.contains("b"));
    assert_eq!(
        result,
        "┌──────┬──────┐\n│ Col1 │ Col2 │\n├──────┼──────┤\n│ a    │ b    │\n└──────┴──────┘\n"
    );
}

#[test]
fn render_table_alignment() {
    let lines = vec![
        "| Left | Right | Center |".to_string(),
        "|:-----|------:|:------:|".to_string(),
        "| a    | b     | c      |".to_string(),
    ];
    let result = render_table(&Palette::terminal(), &lines, 80);
    assert!(result.contains("Left"));
    assert!(result.contains("Right"));
    assert!(result.contains("Center"));
    assert_eq!(
        result,
        "┌──────┬───────┬────────┐\n│ Left │ Right │ Center │\n├──────┼───────┼────────┤\n\
         │ a    │     b │   c    │\n└──────┴───────┴────────┘\n"
    );
}

#[test]
fn tables_with_uneven_rows_and_styled_cells() {
    let lines = vec![
        "| A | B |".to_string(),
        "|---|".to_string(),
        "| **x** | long | extra |".to_string(),
        "| |".to_string(),
        "| \u{e9} |".to_string(),
    ];
    let p = marks();
    // A cell is as wide as its text has bytes; its styling adds nothing.
    assert_eq!(
        render_table(&p, &lines, 80),
        "┌───────┬──────┐\n│ A     │ B    │\n├───────┼──────┤\n\
         │ <b>x<r> │ long │\n│       │      │\n│ \u{e9}    │      │\n└───────┴──────┘\n"
    );
}

#[test]
fn fewer_than_two_lines_are_no_table() {
    let p = marks();
    assert_eq!(render_table(&p, &[], 80), "\n");
    assert_eq!(render_table(&p, &["| a |".to_string()], 80), "| a |\n");
    // Header and separator alone give a table without rows.
    assert_eq!(
        render_table(&p, &["|a|".to_string(), "|-|".to_string()], 80),
        "┌───┐\n│ a │\n├───┤\n└───┘\n"
    );
}

#[test]
fn table_followed_by_text_flushes() {
    let mut s = Screen::terminal();
    s.push("| Col1 | Col2 |\n");
    s.push("|------|------|\n");
    s.push("| a    | b    |\n");
    assert!(s.text.is_empty());
    s.push("Some text after\n");
    assert!(s.text.contains('┌'));
    assert!(s.text.contains("Col1"));
    assert!(s.text.contains("Some text after"));
}

#[test]
fn finish_flushes_pending_table() {
    let mut s = Screen::terminal();
    s.push("| Col1 | Col2 |\n");
    s.push("|------|------|\n");
    s.push("| a    | b    |\n");
    s.finish();
    assert!(s.text.contains('┌'));
    assert!(s.text.contains("Col1"));
    assert!(s.text.contains("a"));
}

#[test]
fn pipe_lines_without_separator_render_as_text() {
    let mut s = Screen::terminal();
    s.push("| not a table |\n");
    assert!(s.text.is_empty());
    s.push("| just pipes |\n");
    assert!(!s.text.contains('┌'));
    assert!(s.text.contains("not a table"));
    assert!(s.text.contains("just pipes"));
    assert_eq!(s.text, "| not a table |\n| just pipes |\n");
}

#[test]
fn single_pipe_line_then_text_renders_both() {
    let mut s = Screen::terminal();
    s.push("| header |\n");
    s.push("normal text\n");
    assert!(s.text.contains("header"));
    assert!(s.text.contains("normal text"));
    assert!(!s.text.contains('┌'));
    assert_eq!(s.text, "| header |\nnormal text\n");
}

#[test]
fn plain_mode_no_ansi_in_headings() {
    let mut s = Screen::plain();
    s.push("# Title\n");
    s.push("**bold text**\n");
    assert!(s.text.contains("# Title"));
    assert!(s.text.contains("**bold text**"));
    assert!(!s.text.contains('\x1b'));
}

#[test]
fn plain_mode_no_ansi_in_code_blocks() {
    let mut s = Screen::plain();
    s.push("```rust\nlet x = 42;\n```\n");
    assert!(s.text.contains("```rust"));
    assert!(s.text.contains("let x = 42;"));
    assert!(s.text.contains("```"));
    assert!(!s.text.contains('\x1b'));
    assert!(s.blocks.is_empty());
}

#[test]
fn plain_mode_finish_flushes_without_ansi() {
    let mut s = Screen::plain();
    s.push("no newline");
    s.finish();
    assert!(s.text.contains("no newline"));
    assert!(!s.text.contains('\x1b'));
    assert_eq!(s.text, "no newline");
}

#[test]
fn syntect_to_ansi_produces_output() {
    let result = syntect_to_ansi(&Palette::terminal(), &[]);
    assert!(result.is_empty());
}

#[test]
fn spans_with_their_codes() {
    let p = marks();
    let span = |colour: &str, bold, italic, underline, text: &str| Span {
        colour: colour.to_string(),
        bold,
        italic,
        underline,
        text: text.to_string(),
    };
    let spans = vec![
        span("<c1>", false, false, false, "let"),
        span("<c2>", true, true, true, " x\n\n"),
        span("<c3>", true, false, false, "\n"),
        span("<c4>", false, true, false, ""),
        span("<c5>", false, false, true, "a\nb"),
    ];
    assert_eq!(
        syntect_to_ansi(&p, &spans),
        "<c1>let<r><c2><b><i><u> x<r><c5><u>a\nb<r>"
    );
}

#[test]
fn a_span_of_the_terminal_has_a_colour_code() {
    let s = Span::new(1, 2, 3, true, false, true, "x".to_string());
    assert!(s.bold && !s.italic && s.underline);
    assert_eq!(s.text, "x");
    let shown = syntect_to_ansi(&Palette::terminal(), &[s]);
    assert!(shown.contains('x'));
    assert!(shown.starts_with('\x1b'));
}

#[test]
fn bold_wraps_text() {
    let result = bold(&Palette::terminal(), "hello");
    assert!(result.contains("hello"));
    assert!(result.starts_with('\x1b'));
    assert_eq!(bold(&marks(), "hello"), "<b>hello<r>");
}

#[test]
fn dim_wraps_text() {
    let result = dim(&Palette::terminal(), "faint");
    assert!(result.contains("faint"));
    assert!(result.starts_with('\x1b'));
    assert_eq!(dim(&marks(), "faint"), "<d>faint<r>");
}

#[test]
fn italic_wraps_text() {
    let result = italic(&Palette::terminal(), "slant");
    assert!(result.contains("slant"));
    assert!(result.starts_with('\x1b'));
    assert_eq!(italic(&marks(), "slant"), "<i>slant<r>");
}

#[test]
fn underline_wraps_text() {
    let result = underline(&Palette::terminal(), "line");
    assert!(result.contains("line"));
    assert!(result.starts_with('\x1b'));
    assert_eq!(underline(&marks(), "line"), "<u>line<r>");
}

#[test]
fn the_codes_of_the_terminal_differ() {
    let p = Palette::terminal();
    let attributes = [&p.reset, &p.bold, &p.dim, &p.italic, &p.underlined];
    for (i, a) in attributes.iter().enumerate() {
        assert!(a.starts_with("\x1b["));
        for b in attributes.iter().skip(i + 1) {
            assert_ne!(a, b);
        }
    }
    assert_eq!(p.bold, "\x1b[1m");
    assert_eq!(p.reset, "\x1b[0m");
}

#[test]
fn colours() {
    let p = marks();
    assert_eq!(fg_color(&p, "x", Colour::Red), "<red>x<fr>");
    assert_eq!(fg_color(&p, "x", Colour::Green), "<green>x<fr>");
    assert_eq!(fg_color(&p, "x", Colour::Blue), "<blue>x<fr>");
    assert_eq!(fg_color(&p, "x", Colour::Magenta), "<magenta>x<fr>");
    assert_eq!(fg_color(&p, "x", Colour::Yellow), "<yellow>x<fr>");
    assert_eq!(fg_color(&p, "x", Colour::DarkYellow), "<dy>x<fr>");
    assert_eq!(fg_color(&p, "x", Colour::Cyan), "<cyan>x<fr>");
    assert_eq!(fg_color(&p, "x", Colour::Reset), "<fr>x<fr>");
    assert_eq!(p.colour(Colour::Cyan), "<cyan>");
}

#[test]
fn code_span_contains_text() {
    let result = code_span(&Palette::terminal(), "x + 1");
    assert!(result.contains("x + 1"));
    assert_eq!(code_span(&marks(), "x + 1"), "<cyan><d>x + 1<r>");
}

#[test]
fn heading_includes_hashes_and_text() {
    let p = Palette::terminal();
    let h1 = heading(&p, "Title", 1);
    assert!(h1.contains("#  Title"));
    let h3 = heading(&p, "Sub", 3);
    assert!(h3.contains("###  Sub"));
    assert_eq!(heading(&marks(), "T", 2), "<blue><b>##  T<r>");
    assert_eq!(heading(&marks(), "T", 0), "<yellow><b>  T<r>");
}

#[test]
fn link_shows_text_and_url() {
    let result = link(&Palette::terminal(), "click", "https://example.com");
    assert!(result.contains("click"));
    assert!(result.contains("https://example.com"));
    assert_eq!(link(&marks(), "a", "b"), "<u>a<r> (<d>b<r>)");
}

#[test]
fn horizontal_rule_has_correct_width() {
    let hr = horizontal_rule(&Palette::terminal(), 40);
    let dashes: usize = hr.chars().filter(|&c| c == '─').count();
    assert_eq!(dashes, 40);
    let wide = horizontal_rule(&marks(), 200);
    assert_eq!(wide, format!("<d>{}<r>", "─".repeat(80)));
    assert_eq!(horizontal_rule(&marks(), 0), "<d><r>");
}

#[test]
fn list_bullet_has_indent() {
    let p = Palette::terminal();
    let b0 = list_bullet(&p, 0);
    assert!(b0.contains('•'));
    let b1 = list_bullet(&p, 1);
    assert!(b1.contains("  "));
    assert!(b1.contains('•'));
    assert_eq!(list_bullet(&marks(), 2), "    <dy>•<fr>");
}

#[test]
fn list_number_formats_correctly() {
    let n = list_number(&Palette::terminal(), 3, 0);
    assert!(n.contains("3"));
    assert!(n.contains('.'));
    assert_eq!(list_number(&marks(), 42, 1), "  <dy>42<fr>.");
    assert_eq!(blockquote_prefix(&marks()), "<d>│ <r>");
    assert_eq!(repeat_text("ab", 3), "ababab");
    assert_eq!(repeat_text("ab", 0), "");
}

#[test]
fn tool_start_contains_icon_and_name() {
    let result = tool_start(&Palette::terminal(), "Bash");
    assert!(result.contains('⚡'));
    assert!(result.contains("Bash"));
    assert!(result.contains('\x1b'));
    assert_eq!(tool_start(&marks(), "Bash"), "  <cyan>⚡<fr> <b>Bash<r>");
}

#[test]
fn tool_success_contains_icon_name_output() {
    let result = tool_success(&Palette::terminal(), "Read", "42 lines");
    assert!(result.contains('✓'));
    assert!(result.contains("Read"));
    assert!(result.contains("42 lines"));
    assert!(result.contains('\x1b'));
    assert_eq!(
        tool_success(&marks(), "Read", "42 lines"),
        "  <green>✓<fr> <b>Read<r> <d>42 lines<r>"
    );
}

#[test]
fn tool_success_no_output() {
    let result = tool_success(&Palette::terminal(), "Write", "");
    assert!(result.contains('✓'));
    assert!(result.contains("Write"));
    assert_eq!(tool_success(&marks(), "Write", ""), "  <green>✓<fr> <b>Write<r>");
}

#[test]
fn tool_error_contains_icon_name_output() {
    let result = tool_error(&Palette::terminal(), "Bash", "exit code 1");
    assert!(result.contains('✗'));
    assert!(result.contains("Bash"));
    assert!(result.contains("exit code 1"));
    assert!(result.contains('\x1b'));
    assert_eq!(
        tool_error(&marks(), "Bash", "exit code 1"),
        "  <red>✗<fr> <b>Bash<r> <red>exit code 1<fr>"
    );
}

#[test]
fn tool_error_no_output() {
    let result = tool_error(&Palette::terminal(), "Bash", "");
    assert!(result.contains('✗'));
    assert!(result.contains("Bash"));
    assert_eq!(tool_error(&marks(), "Bash", ""), "  <red>✗<fr> <b>Bash<r>");
}

#[test]
fn tool_blocked_contains_icon_name_reason() {
    let result = tool_blocked(&Palette::terminal(), "Write", "not permitted");
    assert!(result.contains('⊘'));
    assert!(result.contains("Write"));
    assert!(result.contains("not permitted"));
    assert!(result.contains('\x1b'));
    assert_eq!(
        tool_blocked(&marks(), "Write", "not permitted"),
        "  <yellow>⊘<fr> <b>Write<r> <yellow>not permitted<fr>"
    );
}

#[test]
fn tool_blocked_no_reason() {
    let result = tool_blocked(&Palette::terminal(), "Write", "");
    assert!(result.contains('⊘'));
    assert!(result.contains("Write"));
}

#[test]
fn tool_styling_has_leading_indent() {
    let p = Palette::terminal();
    assert!(tool_start(&p, "Bash").contains("  "));
    assert!(tool_success(&p, "Bash", "ok").contains("  "));
    assert!(tool_error(&p, "Bash", "fail").contains("  "));
    assert!(tool_blocked(&p, "Bash", "no").contains("  "));
}

#[test]
fn frames_has_entries() {
    assert!(FRAME_COUNT >= 2);
    assert_eq!(FRAME_COUNT, 10);
    assert_eq!(FRAME_MS, 80);
}

#[test]
fn frames_come_round() {
    let all: Vec<&str> = (0..10).map(frame).collect();
    assert_eq!(all, vec!["⠋", "⠙", "⠹", "⠸", "⠼", "⠴", "⠦", "⠧", "⠇", "⠏"]);
    assert_eq!(frame(10), "⠋");
    assert_eq!(frame(25), "⠴");
    assert_eq!(frame(usize::MAX), frame(usize::MAX % 10));
    assert_eq!(frame_line(1, "Thinking..."), "\r  ⠙ Thinking...");
}

#[test]
fn the_codes_of_the_terminal_are_those_of_their_names() {
    let p = Palette::terminal();
    let attributes = [
        (&p.reset, "0"),
        (&p.bold, "1"),
        (&p.dim, "2"),
        (&p.italic, "3"),
        (&p.underlined, "4"),
    ];
    for (code, number) in attributes {
        assert!(
            code.is_empty() || *code == format!("\x1b[{number}m"),
            "{code:?}"
        );
    }
    let colours = [
        (&p.fg_reset, "39"),
        (&p.green, "38;5;10"),
        (&p.blue, "38;5;12"),
        (&p.magenta, "38;5;13"),
        (&p.yellow, "38;5;11"),
        (&p.dark_yellow, "38;5;3"),
        (&p.cyan, "38;5;14"),
        (&p.red, "38;5;9"),
    ];
    for (code, numbers) in colours {
        assert!(
            code.is_empty() || code == "\x1b[m" || *code == format!("\x1b[{numbers}m"),
            "{code:?}"
        );
        assert_eq!(p.colour(Colour::Red), p.red);
    }
}
