//! The line editor: what each key means, and what each action does to the
//! line under edit and to the history.
//!
//! Reading keys and drawing the line is the caller's part. The caller
//! hands each key over and is told what to draw.

use crate::buffer::{word_left, word_right, LineBuffer, LineState};
use crate::completion::{command_texts, Completer};
use crate::history::{added, History};
use vstd::prelude::*;
use vstd::string::*;

verus! {

/// What the line editor can do in answer to a key.
#[derive(Debug, Clone, Copy, PartialEq, Eq, Structural)]
pub enum EditorAction {
    /// Insert a character at the cursor.
    Insert(char),
    /// Delete the character before the cursor.
    Backspace,
    /// Delete the character at the cursor.
    Delete,
    MoveLeft,
    MoveRight,
    MoveWordLeft,
    MoveWordRight,
    /// Move to the start of the line.
    Home,
    /// Move to the end of the line.
    End,
    /// Show the previous entry of the history.
    HistoryUp,
    /// Show the next entry of the history.
    HistoryDown,
    /// Complete the line.
    Complete,
    /// Hand the line in.
    Submit,
    /// Give the line up.
    Cancel,
    /// End the input.
    Eof,
    /// Delete from the cursor to the end of the line.
    KillToEnd,
    /// Delete from the start of the line to the cursor.
    KillToStart,
    /// Delete the word before the cursor.
    DeleteWord,
    ClearScreen,
    /// Ignore the key.
    Noop,
}

/// The key that was pressed, as far as the editor tells keys apart.
#[derive(Debug, Clone, Copy, PartialEq, Eq, Structural)]
pub enum KeyCode {
    Char(char),
    Left,
    Right,
    Up,
    Down,
    Home,
    End,
    Backspace,
    Delete,
    Tab,
    Enter,
    Other,
}

/// A key press: the key, and whether Control and Alt were held.
#[derive(Debug, Clone, Copy, PartialEq, Eq, Structural)]
pub struct KeyEvent {
    pub code: KeyCode,
    pub ctrl: bool,
    pub alt: bool,
}

/// What a character means while Control is held; none for the characters
/// that Control gives no meaning.
pub open spec fn control_action(c: char) -> Option<EditorAction> {
    if c == 'a' {
        Some(EditorAction::Home)
    } else if c == 'e' {
        Some(EditorAction::End)
    } else if c == 'k' {
        Some(EditorAction::KillToEnd)
    } else if c == 'u' {
        Some(EditorAction::KillToStart)
    } else if c == 'w' {
        Some(EditorAction::DeleteWord)
    } else if c == 'c' {
        Some(EditorAction::Cancel)
    } else if c == 'd' {
        Some(EditorAction::Eof)
    } else if c == 'l' {
        Some(EditorAction::ClearScreen)
    } else if c == 'b' {
        Some(EditorAction::MoveLeft)
    } else if c == 'f' {
        Some(EditorAction::MoveRight)
    } else if c == 'p' {
        Some(EditorAction::HistoryUp)
    } else if c == 'n' {
        Some(EditorAction::HistoryDown)
    } else if c == 'h' {
        Some(EditorAction::Backspace)
    } else {
        None
    }
}

/// What a key press means. Control with a letter of the list above comes
/// first; then Alt with an arrow, `b` or `f` moves by words; every other
/// character is inserted; Control with an arrow moves by words too.
pub open spec fn action_of(event: KeyEvent) -> EditorAction {
    match event.code {
        KeyCode::Char(c) => if event.ctrl && control_action(c) is Some {
            control_action(c)->0
        } else if event.alt && c == 'b' {
            EditorAction::MoveWordLeft
        } else if event.alt && c == 'f' {
            EditorAction::MoveWordRight
        } else {
            EditorAction::Insert(c)
        },
        KeyCode::Left => if event.alt || event.ctrl {
            EditorAction::MoveWordLeft
        } else {
            EditorAction::MoveLeft
        },
        KeyCode::Right => if event.alt || event.ctrl {
            EditorAction::MoveWordRight
        } else {
            EditorAction::MoveRight
        },
        KeyCode::Home => EditorAction::Home,
        KeyCode::End => EditorAction::End,
        KeyCode::Up => EditorAction::HistoryUp,
        KeyCode::Down => EditorAction::HistoryDown,
        KeyCode::Backspace => EditorAction::Backspace,
        KeyCode::Delete => EditorAction::Delete,
        KeyCode::Tab => EditorAction::Complete,
        KeyCode::Enter => EditorAction::Submit,
        KeyCode::Other => EditorAction::Noop,
    }
}

/// What a character means while Control is held.
fn control_key(c: char) -> (r: Option<EditorAction>)
    ensures
        r == control_action(c),
{
    if c == 'a' {
        Some(EditorAction::Home)
    } else if c == 'e' {
        Some(EditorAction::End)
    } else if c == 'k' {
        Some(EditorAction::KillToEnd)
    } else if c == 'u' {
        Some(EditorAction::KillToStart)
    } else if c == 'w' {
        Some(EditorAction::DeleteWord)
    } else if c == 'c' {
        Some(EditorAction::Cancel)
    } else if c == 'd' {
        Some(EditorAction::Eof)
    } else if c == 'l' {
        Some(EditorAction::ClearScreen)
    } else if c == 'b' {
        Some(EditorAction::MoveLeft)
    } else if c == 'f' {
        Some(EditorAction::MoveRight)
    } else if c == 'p' {
        Some(EditorAction::HistoryUp)
    } else if c == 'n' {
        Some(EditorAction::HistoryDown)
    } else if c == 'h' {
        Some(EditorAction::Backspace)
    } else {
        None
    }
}

/// Tells what a key press means.
pub fn map_key(event: KeyEvent) -> (a: EditorAction)
    ensures
        a == action_of(event),
{
    match event.code {
        KeyCode::Char(c) => {
            if event.ctrl {
                match control_key(c) {
                    Some(action) => {
                        return action;
                    },
                    None => {},
                }
            }
            if event.alt && c == 'b' {
                EditorAction::MoveWordLeft
            } else if event.alt && c == 'f' {
                EditorAction::MoveWordRight
            } else {
                EditorAction::Insert(c)
            }
        },
        KeyCode::Left => if event.alt || event.ctrl {
            EditorAction::MoveWordLeft
        } else {
            EditorAction::MoveLeft
        },
        KeyCode::Right => if event.alt || event.ctrl {
            EditorAction::MoveWordRight
        } else {
            EditorAction::MoveRight
        },
        KeyCode::Home => EditorAction::Home,
        KeyCode::End => EditorAction::End,
        KeyCode::Up => EditorAction::HistoryUp,
        KeyCode::Down => EditorAction::HistoryDown,
        KeyCode::Backspace => EditorAction::Backspace,
        KeyCode::Delete => EditorAction::Delete,
        KeyCode::Tab => EditorAction::Complete,
        KeyCode::Enter => EditorAction::Submit,
        KeyCode::Other => EditorAction::Noop,
    }
}

/// How reading a line ended.
#[derive(Debug, Clone, PartialEq, Eq)]
pub enum ReadLineResult {
    /// The line was handed in, as it stood.
    Line(String),
    /// The input ended on an empty line.
    Eof,
    /// The line was given up.
    Interrupted,
}

/// What the caller is to do after an action.
#[derive(Debug, Clone, PartialEq, Eq)]
pub enum Effect {
    /// Nothing changed.
    Nothing,
    /// Draw the line again.
    Refresh,
    /// Clear the screen and draw the line again.
    ClearAndRedraw,
    /// Show these candidates under the line.
    ShowCompletions(Vec<String>),
    /// Reading the line is over.
    Done(ReadLineResult),
}

pub enum EffectView {
    Nothing,
    Refresh,
    ClearAndRedraw,
    ShowCompletions(Seq<Seq<char>>),
    Line(Seq<char>),
    Eof,
    Interrupted,
}

impl View for Effect {
    type V = EffectView;

    open spec fn view(&self) -> EffectView {
        match self {
            Effect::Nothing => EffectView::Nothing,
            Effect::Refresh => EffectView::Refresh,
            Effect::ClearAndRedraw => EffectView::ClearAndRedraw,
            Effect::ShowCompletions(c) => EffectView::ShowCompletions(command_texts(c@)),
            Effect::Done(ReadLineResult::Line(l)) => EffectView::Line(l@),
            Effect::Done(ReadLineResult::Eof) => EffectView::Eof,
            Effect::Done(ReadLineResult::Interrupted) => EffectView::Interrupted,
        }
    }
}

/// The line after an action that edits it or moves in it, and whether the
/// action changed anything.
pub open spec fn edited(line: LineState, action: EditorAction) -> (LineState, bool) {
    let text = line.text;
    let cursor = line.cursor;
    let end = text.len() as int;
    match action {
        EditorAction::Insert(c) => (
            LineState { text: text.insert(cursor, c), cursor: cursor + 1 },
            true,
        ),
        EditorAction::Backspace => if cursor > 0 {
            (LineState { text: text.remove(cursor - 1), cursor: cursor - 1 }, true)
        } else {
            (line, false)
        },
        EditorAction::Delete => if cursor < end {
            (LineState { text: text.remove(cursor), cursor }, true)
        } else {
            (line, false)
        },
        EditorAction::MoveLeft => if cursor > 0 {
            (LineState { text, cursor: cursor - 1 }, true)
        } else {
            (line, false)
        },
        EditorAction::MoveRight => if cursor < end {
            (LineState { text, cursor: cursor + 1 }, true)
        } else {
            (line, false)
        },
        EditorAction::MoveWordLeft => if cursor > 0 {
            (LineState { text, cursor: word_left(text, cursor) }, true)
        } else {
            (line, false)
        },
        EditorAction::MoveWordRight => if cursor < end {
            (LineState { text, cursor: word_right(text, cursor) }, true)
        } else {
            (line, false)
        },
        EditorAction::Home => (LineState { text, cursor: 0 }, true),
        EditorAction::End => (LineState { text, cursor: end }, true),
        EditorAction::KillToEnd => if cursor < end {
            (LineState { text: text.subrange(0, cursor), cursor }, true)
        } else {
            (line, false)
        },
        EditorAction::KillToStart => if cursor > 0 {
            (LineState { text: text.subrange(cursor, end), cursor: 0 }, true)
        } else {
            (line, false)
        },
        EditorAction::DeleteWord => if cursor > 0 {
            (
                LineState {
                    text: text.subrange(0, word_left(text, cursor)) + text.subrange(cursor, end),
                    cursor: word_left(text, cursor),
                },
                true,
            )
        } else {
            (line, false)
        },
        _ => (line, false),
    }
}

/// True for the actions that change the text of the line when they change
/// anything: they end the motion through the history.
pub open spec fn changes_text(action: EditorAction) -> bool {
    action is Insert || action is Backspace || action is Delete || action is KillToEnd
        || action is KillToStart || action is DeleteWord
}

/// True for the actions that edit the line or move in it.
pub open spec fn edits_line(action: EditorAction) -> bool {
    changes_text(action) || action is MoveLeft || action is MoveRight || action is MoveWordLeft
        || action is MoveWordRight || action is Home || action is End
}

/// The line that shows the text `text` with the cursor at its end.
pub open spec fn line_showing(text: Seq<char>) -> LineState {
    LineState { text, cursor: text.len() as int }
}

/// What the completion of a line does, given the candidates: none leaves
/// the line, one replaces it, more are shown.
pub open spec fn completion_effect(candidates: Seq<Seq<char>>) -> EffectView {
    if candidates.len() == 0 {
        EffectView::Nothing
    } else if candidates.len() == 1 {
        EffectView::Refresh
    } else {
        EffectView::ShowCompletions(candidates)
    }
}

/// Applies the candidates of a completion to the line.
pub fn apply_candidates(buffer: &mut LineBuffer, candidates: Vec<String>) -> (effect: Effect)
    requires
        old(buffer).wf(),
    ensures
        final(buffer).wf(),
        effect@ == completion_effect(command_texts(candidates@)),
        final(buffer)@ == if candidates@.len() == 1 {
            line_showing(candidates@[0]@)
        } else {
            old(buffer)@
        },
{
    if candidates.len() == 0 {
        Effect::Nothing
    } else if candidates.len() == 1 {
        buffer.set(candidates[0].as_str());
        Effect::Refresh
    } else {
        Effect::ShowCompletions(candidates)
    }
}

/// Applies an action that edits the line or moves in it.
pub fn apply_edit(buffer: &mut LineBuffer, history: &mut History, action: EditorAction) -> (effect:
    Effect)
    requires
        old(buffer).wf(),
        old(history).wf(),
        edits_line(action),
    ensures
        final(buffer).wf(),
        final(history).wf(),
        final(buffer)@ == edited(old(buffer)@, action).0,
        effect == if edited(old(buffer)@, action).1 {
            Effect::Refresh
        } else {
            Effect::Nothing
        },
        final(history)@.entries == old(history)@.entries,
        final(history).file_path() == old(history).file_path(),
        if changes_text(action) && edited(old(buffer)@, action).1 {
            final(history)@.nav is None && final(history)@.stash == Seq::<char>::empty()
        } else {
            final(history)@ == old(history)@
        },
{
    let changed = match action {
        EditorAction::Insert(c) => {
            buffer.insert(c);
            true
        },
        EditorAction::Backspace => buffer.delete_backward(),
        EditorAction::Delete => buffer.delete_forward(),
        EditorAction::MoveLeft => buffer.move_left(),
        EditorAction::MoveRight => buffer.move_right(),
        EditorAction::MoveWordLeft => buffer.move_word_left(),
        EditorAction::MoveWordRight => buffer.move_word_right(),
        EditorAction::Home => {
            buffer.move_home();
            true
        },
        EditorAction::End => {
            buffer.move_end();
            true
        },
        EditorAction::KillToEnd => buffer.delete_to_end(),
        EditorAction::KillToStart => buffer.delete_to_start(),
        EditorAction::DeleteWord => buffer.delete_word_backward(),
        _ => false,
    };
    proof {
        let before = old(buffer)@;
        assert(before.text.subrange(0, before.text.len() as int) =~= before.text);
        assert(buffer@.text =~= edited(before, action).0.text);
        assert(buffer@.cursor == edited(before, action).0.cursor);
    }
    let resets = match action {
        EditorAction::Insert(_) => true,
        EditorAction::Backspace => true,
        EditorAction::Delete => true,
        EditorAction::KillToEnd => true,
        EditorAction::KillToStart => true,
        EditorAction::DeleteWord => true,
        _ => false,
    };
    if changed && resets {
        history.reset_navigation();
    }
    if changed {
        Effect::Refresh
    } else {
        Effect::Nothing
    }
}

/// Applies an action to the line under edit and to the history, and tells
/// what the caller is to do.
///
/// Editing and moving draw the line again where they changed anything.
/// Moving through the history shows the entry reached, with the cursor at
/// its end. Completion asks `completer`, if there is one, and applies its
/// candidates. Handing the line in adds it to the history. The end of
/// input counts only on an empty line.
pub fn apply_action<C: Completer>(
    buffer: &mut LineBuffer,
    history: &mut History,
    completer: Option<&C>,
    action: EditorAction,
) -> (effect: Effect)
    requires
        old(buffer).wf(),
        old(history).wf(),
    ensures
        final(buffer).wf(),
        final(history).wf(),
        final(history).file_path() == old(history).file_path(),
        edits_line(action) ==> final(buffer)@ == edited(old(buffer)@, action).0 && effect == (
        if edited(old(buffer)@, action).1 {
            Effect::Refresh
        } else {
            Effect::Nothing
        }),
        action is Submit ==> effect@ == EffectView::Line(old(buffer)@.text) && final(buffer)@
            == old(buffer)@ && final(history)@.entries == added(
            old(history)@.entries,
            old(buffer)@.text,
        ) && final(history)@.nav is None,
        action is Cancel ==> effect@ == EffectView::Interrupted && final(buffer)@ == old(
            buffer,
        )@ && final(history)@.entries == old(history)@.entries && final(history)@.nav is None,
        action is Eof ==> effect@ == (if old(buffer)@.text.len() == 0 {
            EffectView::Eof
        } else {
            EffectView::Nothing
        }) && final(buffer)@ == old(buffer)@ && final(history)@ == old(history)@,
        action is ClearScreen ==> effect@ == EffectView::ClearAndRedraw && final(buffer)@ == old(
            buffer,
        )@ && final(history)@ == old(history)@,
        action is Noop ==> effect@ == EffectView::Nothing && final(buffer)@ == old(buffer)@
            && final(history)@ == old(history)@,
        action is HistoryUp ==> final(history)@.entries == old(history)@.entries && (
        match effect@ {
            EffectView::Refresh => final(history)@.nav is Some && final(buffer)@ == line_showing(
                final(history)@.entries[final(history)@.nav->0],
            ),
            _ => effect@ is Nothing && final(buffer)@ == old(buffer)@ && final(history)@ == old(
                history,
            )@,
        }),
        action is HistoryDown ==> final(history)@.entries == old(history)@.entries && (
        match old(history)@.nav {
            None => effect@ is Nothing && final(buffer)@ == old(buffer)@,
            Some(i) => effect@ is Refresh && final(buffer)@ == line_showing(
                if i + 1 < old(history)@.entries.len() {
                    old(history)@.entries[i + 1]
                } else {
                    old(history)@.stash
                },
            ),
        }),
        action is Complete ==> final(history)@ == old(history)@ && (completer is None
            ==> effect@ is Nothing && final(buffer)@ == old(buffer)@),
{
    match action {
        EditorAction::HistoryUp => {
            let current = buffer.as_str();
            match history.navigate_up(current.as_str()) {
                Some(entry) => {
                    buffer.set(entry.as_str());
                    Effect::Refresh
                },
                None => Effect::Nothing,
            }
        },
        EditorAction::HistoryDown => {
            match history.navigate_down() {
                Some(entry) => {
                    buffer.set(entry.as_str());
                    Effect::Refresh
                },
                None => Effect::Nothing,
            }
        },
        EditorAction::Complete => {
            match completer {
                Some(c) => {
                    let text = buffer.as_str();
                    let candidates = c.complete(text.as_str(), buffer.cursor());
                    apply_candidates(buffer, candidates)
                },
                None => Effect::Nothing,
            }
        },
        EditorAction::Submit => {
            let line = buffer.as_str();
            history.add(line.as_str());
            history.reset_navigation();
            Effect::Done(ReadLineResult::Line(line))
        },
        EditorAction::Cancel => {
            history.reset_navigation();
            Effect::Done(ReadLineResult::Interrupted)
        },
        EditorAction::Eof => {
            if buffer.is_empty() {
                Effect::Done(ReadLineResult::Eof)
            } else {
                Effect::Nothing
            }
        },
        EditorAction::ClearScreen => Effect::ClearAndRedraw,
        EditorAction::Noop => Effect::Nothing,
        _ => apply_edit(buffer, history, action),
    }
}

/// Where the cursor goes when the line is drawn: the rows to move up
/// before the line is drawn, from the row of the cursor to the row of the
/// prompt; the rows to move up after it is drawn, from its end to the row
/// of the cursor; and the column of the cursor.
#[derive(Debug, Clone, Copy, PartialEq, Eq, Structural)]
pub struct CursorPlan {
    pub rows_up_before: usize,
    pub rows_up_after: usize,
    pub column: usize,
}

/// The geometry of the prompt line: the width of the terminal, the prompt,
/// and the columns that the prompt takes.
#[derive(Debug, Clone)]
pub struct TerminalRenderer {
    pub term_width: u16,
    pub prompt: String,
    pub prompt_width: usize,
}

/// The plan for a line of `buffer_len` bytes behind a prompt of
/// `prompt_width` columns on a terminal of `width` columns, with the
/// cursor `cursor` places into the line.
pub open spec fn cursor_plan(width: int, prompt_width: int, buffer_len: int, cursor: int) -> CursorPlan {
    let at = prompt_width + cursor;
    let end = prompt_width + buffer_len;
    CursorPlan {
        rows_up_before: (at / width) as usize,
        rows_up_after: (end / width - at / width) as usize,
        column: (at % width) as usize,
    }
}

impl TerminalRenderer {
    /// The geometry for the prompt `prompt` on a terminal of `width`
    /// columns.
    pub fn new(prompt: &str, width: u16) -> (r: Self)
        ensures
            r.term_width == width,
            r.prompt@ == prompt@,
            r.prompt_width == prompt.spec_bytes().len(),
    {
        TerminalRenderer {
            term_width: width,
            prompt: prompt.to_owned(),
            prompt_width: crate::util::byte_len(prompt),
        }
    }

    /// Takes in a new width of the terminal.
    pub fn set_width(&mut self, width: u16)
        ensures
            final(self).term_width == width,
            final(self).prompt == old(self).prompt,
            final(self).prompt_width == old(self).prompt_width,
    {
        self.term_width = width;
    }

    /// Plans the motion of the cursor for drawing a line of `buffer_len`
    /// bytes with the cursor at `cursor_pos`. None on a terminal without
    /// width, where nothing is drawn, and where the positions pass what
    /// the machine can count.
    pub fn plan(&self, buffer_len: usize, cursor_pos: usize) -> (r: Option<CursorPlan>)
        requires
            cursor_pos <= buffer_len,
        ensures
            r == if self.term_width == 0 || self.prompt_width + buffer_len > usize::MAX {
                None
            } else {
                Some(
                    cursor_plan(
                        self.term_width as int,
                        self.prompt_width as int,
                        buffer_len as int,
                        cursor_pos as int,
                    ),
                )
            },
    {
        let width: usize = self.term_width as usize;
        if width == 0 {
            return None;
        }
        if buffer_len > usize::MAX - self.prompt_width {
            return None;
        }
        let at: usize = self.prompt_width + cursor_pos;
        let end: usize = self.prompt_width + buffer_len;
        assert(at / width <= end / width) by (nonlinear_arith)
            requires
                at <= end,
                width > 0,
        ;
        Some(
            CursorPlan {
                rows_up_before: at / width,
                rows_up_after: end / width - at / width,
                column: at % width,
            },
        )
    }
}

/// The first `n` candidates, each with two spaces behind it.
pub open spec fn candidates_text(candidates: Seq<Seq<char>>, n: int) -> Seq<char>
    decreases n,
{
    if n <= 0 || n > candidates.len() {
        Seq::empty()
    } else {
        candidates_text(candidates, n - 1) + candidates[n - 1] + "  "@
    }
}

/// What is written below the line to show the candidates of a
/// completion: a line of its own with the candidates, two spaces behind
/// each.
pub fn completions_line(candidates: &[String]) -> (line: String)
    ensures
        line@ == "\r\n"@ + candidates_text(
            candidates@.map_values(|c: String| c@),
            candidates@.len() as int,
        ) + "\r\n"@,
{
    let ghost texts = candidates@.map_values(|c: String| c@);
    let mut line = "\r\n".to_owned();
    let mut k: usize = 0;
    assert(line@ =~= "\r\n"@ + candidates_text(texts, 0));
    while k < candidates.len()
        invariant
            k <= candidates@.len(),
            texts == candidates@.map_values(|c: String| c@),
            line@ == "\r\n"@ + candidates_text(texts, k as int),
        decreases candidates.len() - k,
    {
        assert(texts[k as int] == candidates@[k as int]@);
        line = crate::text::join3(line.as_str(), candidates[k].as_str(), "  ");
        k += 1;
        assert(line@ =~= "\r\n"@ + candidates_text(texts, k as int));
    }
    crate::text::join2(line.as_str(), "\r\n")
}

} // verus!
