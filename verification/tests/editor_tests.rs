use chet::buffer::LineBuffer;
use chet::completion::SlashCommandCompleter;
use chet::editor::{
    apply_action, apply_candidates, map_key, CursorPlan, EditorAction, Effect, KeyCode, KeyEvent,
    ReadLineResult, TerminalRenderer,
};
use chet::history::History;

fn key(code: KeyCode) -> KeyEvent {
    KeyEvent {
        code,
        ctrl: false,
        alt: false,
    }
}

fn ctrl(code: KeyCode) -> KeyEvent {
    KeyEvent {
        code,
        ctrl: true,
        alt: false,
    }
}

fn alt(code: KeyCode) -> KeyEvent {
    KeyEvent {
        code,
        ctrl: false,
        alt: true,
    }
}

#[test]
fn insert_regular_chars() {
    assert_eq!(map_key(key(KeyCode::Char('a'))), EditorAction::Insert('a'));
    assert_eq!(map_key(key(KeyCode::Char('Z'))), EditorAction::Insert('Z'));
    assert_eq!(map_key(key(KeyCode::Char('5'))), EditorAction::Insert('5'));
}

#[test]
fn ctrl_a_is_home() {
    assert_eq!(map_key(ctrl(KeyCode::Char('a'))), EditorAction::Home);
}

#[test]
fn ctrl_e_is_end() {
    assert_eq!(map_key(ctrl(KeyCode::Char('e'))), EditorAction::End);
}

#[test]
fn ctrl_c_is_cancel() {
    assert_eq!(map_key(ctrl(KeyCode::Char('c'))), EditorAction::Cancel);
}

#[test]
fn ctrl_d_is_eof() {
    assert_eq!(map_key(ctrl(KeyCode::Char('d'))), EditorAction::Eof);
}

#[test]
fn ctrl_k_kills_to_end() {
    assert_eq!(map_key(ctrl(KeyCode::Char('k'))), EditorAction::KillToEnd);
}

#[test]
fn ctrl_u_kills_to_start() {
    assert_eq!(map_key(ctrl(KeyCode::Char('u'))), EditorAction::KillToStart);
}

#[test]
fn ctrl_w_deletes_word() {
    assert_eq!(map_key(ctrl(KeyCode::Char('w'))), EditorAction::DeleteWord);
}

#[test]
fn arrow_keys() {
    assert_eq!(map_key(key(KeyCode::Left)), EditorAction::MoveLeft);
    assert_eq!(map_key(key(KeyCode::Right)), EditorAction::MoveRight);
    assert_eq!(map_key(key(KeyCode::Up)), EditorAction::HistoryUp);
    assert_eq!(map_key(key(KeyCode::Down)), EditorAction::HistoryDown);
}

#[test]
fn word_movement() {
    assert_eq!(map_key(ctrl(KeyCode::Left)), EditorAction::MoveWordLeft);
    assert_eq!(map_key(ctrl(KeyCode::Right)), EditorAction::MoveWordRight);
    assert_eq!(map_key(alt(KeyCode::Char('b'))), EditorAction::MoveWordLeft);
    assert_eq!(
        map_key(alt(KeyCode::Char('f'))),
        EditorAction::MoveWordRight
    );
}

#[test]
fn special_keys() {
    assert_eq!(map_key(key(KeyCode::Backspace)), EditorAction::Backspace);
    assert_eq!(map_key(key(KeyCode::Delete)), EditorAction::Delete);
    assert_eq!(map_key(key(KeyCode::Tab)), EditorAction::Complete);
    assert_eq!(map_key(key(KeyCode::Enter)), EditorAction::Submit);
    assert_eq!(map_key(key(KeyCode::Home)), EditorAction::Home);
    assert_eq!(map_key(key(KeyCode::End)), EditorAction::End);
}

#[test]
fn unknown_keys_are_noop() {
    assert_eq!(map_key(key(KeyCode::Other)), EditorAction::Noop);
    assert_eq!(map_key(ctrl(KeyCode::Other)), EditorAction::Noop);
}

#[test]
fn remaining_control_and_alt_keys() {
    for (c, action) in [
        ('l', EditorAction::ClearScreen),
        ('b', EditorAction::MoveLeft),
        ('f', EditorAction::MoveRight),
        ('p', EditorAction::HistoryUp),
        ('n', EditorAction::HistoryDown),
        ('h', EditorAction::Backspace),
    ] {
        assert_eq!(map_key(ctrl(KeyCode::Char(c))), action);
    }
    assert_eq!(map_key(alt(KeyCode::Left)), EditorAction::MoveWordLeft);
    assert_eq!(map_key(alt(KeyCode::Right)), EditorAction::MoveWordRight);
    // Control with a letter that has no meaning inserts the letter.
    assert_eq!(map_key(ctrl(KeyCode::Char('x'))), EditorAction::Insert('x'));
    assert_eq!(map_key(alt(KeyCode::Char('x'))), EditorAction::Insert('x'));
    // Control wins over Alt.
    let both = KeyEvent {
        code: KeyCode::Char('b'),
        ctrl: true,
        alt: true,
    };
    assert_eq!(map_key(both), EditorAction::MoveLeft);
}

#[test]
fn read_line_result_variants() {
    let line = ReadLineResult::Line("hello".to_string());
    assert_eq!(line, ReadLineResult::Line("hello".to_string()));
    assert_ne!(line, ReadLineResult::Eof);
    assert_ne!(line, ReadLineResult::Interrupted);
}

fn type_text(buffer: &mut LineBuffer, history: &mut History, text: &str) {
    for c in text.chars() {
        let effect = apply_action::<SlashCommandCompleter>(
            buffer,
            history,
            None,
            EditorAction::Insert(c),
        );
        assert_eq!(effect, Effect::Refresh);
    }
}

#[test]
fn a_line_is_edited_and_handed_in() {
    let mut buffer = LineBuffer::new();
    let mut history = History::new("h");
    let none: Option<&SlashCommandCompleter> = None;
    type_text(&mut buffer, &mut history, "helo world");
    for _ in 0..7 {
        assert_eq!(
            apply_action(&mut buffer, &mut history, none, EditorAction::MoveLeft),
            Effect::Refresh
        );
    }
    apply_action(&mut buffer, &mut history, none, EditorAction::Insert('l'));
    assert_eq!(buffer.as_str(), "hello world");
    assert_eq!(
        apply_action(&mut buffer, &mut history, none, EditorAction::End),
        Effect::Refresh
    );
    assert_eq!(
        apply_action(&mut buffer, &mut history, none, EditorAction::MoveRight),
        Effect::Nothing
    );
    assert_eq!(
        apply_action(&mut buffer, &mut history, none, EditorAction::DeleteWord),
        Effect::Refresh
    );
    assert_eq!(buffer.as_str(), "hello ");
    assert_eq!(
        apply_action(&mut buffer, &mut history, none, EditorAction::Eof),
        Effect::Nothing
    );
    assert_eq!(
        apply_action(&mut buffer, &mut history, none, EditorAction::ClearScreen),
        Effect::ClearAndRedraw
    );
    assert_eq!(
        apply_action(&mut buffer, &mut history, none, EditorAction::Noop),
        Effect::Nothing
    );
    assert_eq!(
        apply_action(&mut buffer, &mut history, none, EditorAction::Submit),
        Effect::Done(ReadLineResult::Line("hello ".to_string()))
    );
    assert_eq!(history.len(), 1);
    assert_eq!(history.entry(0), "hello");
}

#[test]
fn history_motion_shows_entries_and_brings_the_input_back() {
    let mut buffer = LineBuffer::new();
    let mut history = History::new("h");
    let none: Option<&SlashCommandCompleter> = None;
    history.add("first");
    history.add("second");
    type_text(&mut buffer, &mut history, "draft");
    assert_eq!(
        apply_action(&mut buffer, &mut history, none, EditorAction::HistoryUp),
        Effect::Refresh
    );
    assert_eq!(buffer.as_str(), "second");
    assert_eq!(buffer.cursor(), 6);
    apply_action(&mut buffer, &mut history, none, EditorAction::HistoryUp);
    assert_eq!(buffer.as_str(), "first");
    assert_eq!(
        apply_action(&mut buffer, &mut history, none, EditorAction::HistoryUp),
        Effect::Nothing
    );
    apply_action(&mut buffer, &mut history, none, EditorAction::HistoryDown);
    apply_action(&mut buffer, &mut history, none, EditorAction::HistoryDown);
    assert_eq!(buffer.as_str(), "draft");
    assert_eq!(
        apply_action(&mut buffer, &mut history, none, EditorAction::HistoryDown),
        Effect::Nothing
    );
    // Editing ends the motion.
    apply_action(&mut buffer, &mut history, none, EditorAction::HistoryUp);
    apply_action(&mut buffer, &mut history, none, EditorAction::Backspace);
    assert_eq!(buffer.as_str(), "secon");
    assert_eq!(
        apply_action(&mut buffer, &mut history, none, EditorAction::HistoryDown),
        Effect::Nothing
    );
    assert_eq!(
        apply_action(&mut buffer, &mut history, none, EditorAction::Cancel),
        Effect::Done(ReadLineResult::Interrupted)
    );
    assert_eq!(history.len(), 2);
}

#[test]
fn end_of_input_counts_on_an_empty_line() {
    let mut buffer = LineBuffer::new();
    let mut history = History::new("h");
    let none: Option<&SlashCommandCompleter> = None;
    assert_eq!(
        apply_action(&mut buffer, &mut history, none, EditorAction::Backspace),
        Effect::Nothing
    );
    assert_eq!(
        apply_action(&mut buffer, &mut history, none, EditorAction::Eof),
        Effect::Done(ReadLineResult::Eof)
    );
}

#[test]
fn completion_replaces_or_shows() {
    let completer = SlashCommandCompleter::new(vec!["/help", "/cost", "/context"]);
    let mut buffer = LineBuffer::new();
    let mut history = History::new("h");
    type_text(&mut buffer, &mut history, "/he");
    assert_eq!(
        apply_action(&mut buffer, &mut history, Some(&completer), EditorAction::Complete),
        Effect::Refresh
    );
    assert_eq!(buffer.as_str(), "/help");
    assert_eq!(buffer.cursor(), 5);
    buffer.set("/co");
    assert_eq!(
        apply_action(&mut buffer, &mut history, Some(&completer), EditorAction::Complete),
        Effect::ShowCompletions(vec!["/cost".to_string(), "/context".to_string()])
    );
    assert_eq!(buffer.as_str(), "/co");
    buffer.set("/zz");
    assert_eq!(
        apply_action(&mut buffer, &mut history, Some(&completer), EditorAction::Complete),
        Effect::Nothing
    );
    let none: Option<&SlashCommandCompleter> = None;
    buffer.set("/he");
    assert_eq!(
        apply_action(&mut buffer, &mut history, none, EditorAction::Complete),
        Effect::Nothing
    );
    assert_eq!(apply_candidates(&mut buffer, Vec::new()), Effect::Nothing);
}

#[test]
fn prompt_width_calculated() {
    let r = TerminalRenderer::new("> ", 80);
    assert_eq!(r.prompt_width, 2);
    assert_eq!(r.prompt, "> ");
}

#[test]
fn set_width_updates() {
    let mut r = TerminalRenderer::new("> ", 80);
    r.set_width(120);
    assert_eq!(r.term_width, 120);
}

#[test]
fn cursor_position_math() {
    let r = TerminalRenderer::new("> ", 80);

    // Short input: everything on one row
    let plan = r.plan(5, 5).unwrap();
    assert_eq!(plan.rows_up_before, 0); // row 0
    assert_eq!(plan.column, 7); // col 7

    // Long input: wraps to second row
    let plan = r.plan(85, 85).unwrap();
    assert_eq!(plan.rows_up_before, 1); // row 1
    assert_eq!(plan.column, 7); // col 7
}

#[test]
fn cursor_plans_on_wrapped_lines() {
    let r = TerminalRenderer::new("> ", 10);
    assert_eq!(
        r.plan(30, 3),
        Some(CursorPlan {
            rows_up_before: 0,
            rows_up_after: 3,
            column: 5
        })
    );
    assert_eq!(
        r.plan(30, 18),
        Some(CursorPlan {
            rows_up_before: 2,
            rows_up_after: 1,
            column: 0
        })
    );
    assert_eq!(TerminalRenderer::new("> ", 0).plan(3, 1), None);
    assert_eq!(r.plan(usize::MAX, 0), None);
}
