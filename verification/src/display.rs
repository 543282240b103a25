//! What the terminal shows of a run of the agent: for each observer
//! event, what is written and what becomes of the spinner. Writing is
//! the caller's part.

use crate::agent::events::{AgentEvent, AgentEventView};
use crate::session::SessionSummary;
use crate::style::{
    tool_blocked, tool_error, tool_head, tool_note_text, tool_start, tool_success,
    tool_success_text, Colour, Palette, PaletteView,
};
use crate::text::{chars_of, decimal, join2, join3, join4, string_from_chars, u64_to_string};
use vstd::prelude::*;
use vstd::string::*;

verus! {

/// One thing that the caller does for the display.
#[derive(Debug, Clone, PartialEq, Eq)]
pub enum DisplayAction {
    /// Stop the spinner and clear its line.
    HideSpinner,
    /// Let the spinner run with this message.
    ShowSpinner(String),
    /// Hand the text to the markdown renderer.
    Render(String),
    /// End the text of the markdown renderer.
    FinishRender,
    /// Write the text to the error stream as it is.
    Note(String),
    /// Write the text and a line end to the error stream.
    NoteLine(String),
    /// Write a line end to the output.
    EndOutput,
}

/// A [`DisplayAction`] with its text as a sequence.
pub enum DisplayActionView {
    HideSpinner,
    ShowSpinner(Seq<char>),
    Render(Seq<char>),
    FinishRender,
    Note(Seq<char>),
    NoteLine(Seq<char>),
    EndOutput,
}

impl View for DisplayAction {
    type V = DisplayActionView;

    open spec fn view(&self) -> DisplayActionView {
        match self {
            DisplayAction::HideSpinner => DisplayActionView::HideSpinner,
            DisplayAction::ShowSpinner(m) => DisplayActionView::ShowSpinner(m@),
            DisplayAction::Render(t) => DisplayActionView::Render(t@),
            DisplayAction::FinishRender => DisplayActionView::FinishRender,
            DisplayAction::Note(t) => DisplayActionView::Note(t@),
            DisplayAction::NoteLine(t) => DisplayActionView::NoteLine(t@),
            DisplayAction::EndOutput => DisplayActionView::EndOutput,
        }
    }
}

/// The views of a list of actions.
pub open spec fn action_views(actions: Seq<DisplayAction>) -> Seq<DisplayActionView> {
    actions.map_values(|a: DisplayAction| a@)
}

/// The display of a run: whether the next piece of text is the first
/// since the spinner last ran.
#[derive(Debug, Clone, Copy, PartialEq, Eq, Structural)]
pub struct Display {
    pub first_text: bool,
}

/// The spinner is hidden before the first piece of text, and not again
/// before the pieces that follow it.
pub open spec fn before_text(first_text: bool) -> Seq<DisplayActionView> {
    if first_text {
        seq![DisplayActionView::HideSpinner]
    } else {
        Seq::empty()
    }
}

/// What is done for an event. Text goes to the markdown renderer and
/// thinking, faint, to the error stream, the spinner being hidden before
/// the first piece of either. A tool that starts ends the rendered text,
/// is announced, and has the spinner run under its name. A tool that has
/// ended is reported, and the spinner runs again while the model thinks.
/// A refused tool is reported. The end of the run and its cancellation
/// end the rendered text. The token counts show nothing.
pub open spec fn shown(p: PaletteView, first_text: bool, event: AgentEventView) -> Seq<
    DisplayActionView,
> {
    match event {
        AgentEventView::TextDelta(text) => before_text(first_text).push(
            DisplayActionView::Render(text),
        ),
        AgentEventView::ThinkingDelta(text) => before_text(first_text).push(
            DisplayActionView::Note("\x1b[2m"@ + text + "\x1b[0m"@),
        ),
        AgentEventView::ToolStart { name, .. } => seq![
            DisplayActionView::HideSpinner,
            DisplayActionView::FinishRender,
            DisplayActionView::NoteLine(tool_head(p, Colour::Cyan, "\u{26A1}"@, name)),
            DisplayActionView::ShowSpinner("Running "@ + name + "..."@),
        ],
        AgentEventView::ToolEnd { name, output, is_error } => seq![
            DisplayActionView::HideSpinner,
            DisplayActionView::NoteLine(
                if is_error {
                    tool_note_text(p, Colour::Red, "\u{2717}"@, name, output)
                } else {
                    tool_success_text(p, name, output)
                },
            ),
            DisplayActionView::ShowSpinner("Thinking..."@),
        ],
        AgentEventView::ToolBlocked { name, reason } => seq![
            DisplayActionView::HideSpinner,
            DisplayActionView::NoteLine(
                tool_note_text(p, Colour::Yellow, "\u{2298}"@, name, reason),
            ),
        ],
        AgentEventView::Cancelled => seq![
            DisplayActionView::HideSpinner,
            DisplayActionView::FinishRender,
            DisplayActionView::NoteLine("\nCancelled."@),
        ],
        AgentEventView::Usage(_) => Seq::empty(),
        AgentEventView::Done => seq![
            DisplayActionView::HideSpinner,
            DisplayActionView::FinishRender,
            DisplayActionView::EndOutput,
        ],
        AgentEventView::Error(message) => seq![
            DisplayActionView::HideSpinner,
            DisplayActionView::NoteLine("Error: "@ + message),
        ],
    }
}

/// Whether the next piece of text is the first, after an event: a piece
/// of text or of thinking is followed by pieces that are not the first;
/// after a tool has ended the next piece is the first again.
pub open spec fn first_text_after(first_text: bool, event: AgentEventView) -> bool {
    match event {
        AgentEventView::TextDelta(_) => false,
        AgentEventView::ThinkingDelta(_) => false,
        AgentEventView::ToolEnd { .. } => true,
        _ => first_text,
    }
}

impl Display {
    /// The display at the start of a run.
    pub fn new() -> (d: Self)
        ensures
            d.first_text,
    {
        Display { first_text: true }
    }

    fn hide_before_text(&self, actions: &mut Vec<DisplayAction>)
        requires
            old(actions)@.len() == 0,
        ensures
            action_views(final(actions)@) == before_text(self.first_text),
    {
        if self.first_text {
            actions.push(DisplayAction::HideSpinner);
            assert(action_views(actions@) =~= before_text(self.first_text));
        } else {
            assert(action_views(actions@) =~= before_text(self.first_text));
        }
    }

    /// Says what is to be done for an event.
    pub fn on_event(&mut self, p: &Palette, event: &AgentEvent) -> (actions: Vec<DisplayAction>)
        ensures
            action_views(actions@) == shown(p@, old(self).first_text, event@),
            final(self).first_text == first_text_after(old(self).first_text, event@),
    {
        let mut actions: Vec<DisplayAction> = Vec::new();
        let ghost goal = shown(p@, self.first_text, event@);
        match event {
            AgentEvent::TextDelta(text) => {
                self.hide_before_text(&mut actions);
                let ghost before = action_views(actions@);
                actions.push(DisplayAction::Render(text.clone()));
                assert(action_views(actions@) =~= before.push(DisplayActionView::Render(text@)));
                self.first_text = false;
            },
            AgentEvent::ThinkingDelta(text) => {
                self.hide_before_text(&mut actions);
                let ghost before = action_views(actions@);
                let faint = join3("\x1b[2m", text.as_str(), "\x1b[0m");
                actions.push(DisplayAction::Note(faint));
                assert(action_views(actions@) =~= before.push(DisplayActionView::Note(faint@)));
                self.first_text = false;
            },
            AgentEvent::ToolStart { name, .. } => {
                actions.push(DisplayAction::HideSpinner);
                actions.push(DisplayAction::FinishRender);
                actions.push(DisplayAction::NoteLine(tool_start(p, name.as_str())));
                actions.push(DisplayAction::ShowSpinner(join3("Running ", name.as_str(), "...")));
                assert(action_views(actions@) =~= goal);
            },
            AgentEvent::ToolEnd { name, output, is_error } => {
                actions.push(DisplayAction::HideSpinner);
                let line = if *is_error {
                    tool_error(p, name.as_str(), output.as_str())
                } else {
                    tool_success(p, name.as_str(), output.as_str())
                };
                actions.push(DisplayAction::NoteLine(line));
                actions.push(DisplayAction::ShowSpinner("Thinking...".to_owned()));
                assert(action_views(actions@) =~= goal);
                self.first_text = true;
            },
            AgentEvent::ToolBlocked { name, reason } => {
                actions.push(DisplayAction::HideSpinner);
                actions.push(
                    DisplayAction::NoteLine(tool_blocked(p, name.as_str(), reason.as_str())),
                );
                assert(action_views(actions@) =~= goal);
            },
            AgentEvent::Cancelled => {
                actions.push(DisplayAction::HideSpinner);
                actions.push(DisplayAction::FinishRender);
                actions.push(DisplayAction::NoteLine("\nCancelled.".to_owned()));
                assert(action_views(actions@) =~= goal);
            },
            AgentEvent::Usage(_) => {
                assert(action_views(actions@) =~= goal);
            },
            AgentEvent::Done => {
                actions.push(DisplayAction::HideSpinner);
                actions.push(DisplayAction::FinishRender);
                actions.push(DisplayAction::EndOutput);
                assert(action_views(actions@) =~= goal);
            },
            AgentEvent::Error(message) => {
                actions.push(DisplayAction::HideSpinner);
                actions.push(DisplayAction::NoteLine(join2("Error: ", message.as_str())));
                assert(action_views(actions@) =~= goal);
            },
        }
        actions
    }
}

/// A text with spaces before it, so that it has `width` characters; a
/// text that has as many or more stays as it is.
pub open spec fn right_aligned(text: Seq<char>, width: int) -> Seq<char> {
    if text.len() >= width {
        text
    } else {
        Seq::new((width - text.len()) as nat, |i: int| ' ') + text
    }
}

/// Puts spaces before a text so that it has `width` characters.
pub fn align_right(text: &str, width: usize) -> (r: String)
    ensures
        r@ == right_aligned(text@, width as int),
{
    let mut chars = chars_of(text);
    if chars.len() >= width {
        return text.to_owned();
    }
    let gap: usize = width - chars.len();
    let mut out: Vec<char> = Vec::new();
    let mut i: usize = 0;
    while i < gap
        invariant
            i <= gap,
            out@ == Seq::new(i as nat, |k: int| ' '),
        decreases gap - i,
    {
        out.push(' ');
        i += 1;
        assert(out@ =~= Seq::new(i as nat, |k: int| ' '));
    }
    out.append(&mut chars);
    string_from_chars(out.as_slice())
}

/// The line of a session in the list of sessions: its short id, its age
/// in 8 columns, the number of its messages in 3, its model, its label
/// in brackets where it has one that is not empty, and its preview, or
/// `(empty)` where it has none.
pub open spec fn session_row_text(
    short_id: Seq<char>,
    age: Seq<char>,
    messages: nat,
    model: Seq<char>,
    label: Option<Seq<char>>,
    preview: Seq<char>,
) -> Seq<char> {
    "  "@ + short_id + " "@ + right_aligned(age, 8) + "  "@ + right_aligned(decimal(messages), 3)
        + " msgs  "@ + model + (match label {
        Some(l) => if l.len() > 0 {
            " ["@ + l + "]"@
        } else {
            Seq::empty()
        },
        None => Seq::empty(),
    }) + "  "@ + (if preview.len() == 0 {
        "(empty)"@
    } else {
        preview
    })
}

/// Writes the line of a session in the list of sessions, at the time
/// `now`.
pub fn session_row(summary: &SessionSummary, now: i64) -> (row: String)
    ensures
        row@ == session_row_text(
            crate::util::truncated(summary.id@, 8),
            crate::session::age_text(now as int, summary.updated_at as int),
            summary.message_count as nat,
            summary.model@,
            crate::message::opt_text(summary.label),
            summary.preview@,
        ),
{
    let id = summary.short_id();
    let age = align_right(summary.age(now).as_str(), 8);
    let count = align_right(u64_to_string(summary.message_count as u64).as_str(), 3);
    let label = match &summary.label {
        Some(l) => if l.unicode_len() > 0 {
            join3(" [", l.as_str(), "]")
        } else {
            String::new()
        },
        None => String::new(),
    };
    let preview = if summary.preview.unicode_len() == 0 {
        "(empty)".to_owned()
    } else {
        summary.preview.clone()
    };
    let head = join4("  ", id.as_str(), " ", age.as_str());
    let middle = join4("  ", count.as_str(), " msgs  ", summary.model.as_str());
    let tail = join3(label.as_str(), "  ", preview.as_str());
    let row = join3(head.as_str(), middle.as_str(), tail.as_str());
    assert(row@ =~= session_row_text(
        crate::util::truncated(summary.id@, 8),
        crate::session::age_text(now as int, summary.updated_at as int),
        summary.message_count as nat,
        summary.model@,
        crate::message::opt_text(summary.label),
        summary.preview@,
    ));
    row
}

} // verus!
