use chet::completion::{Completer, SlashCommandCompleter};

fn completer() -> SlashCommandCompleter {
    SlashCommandCompleter::new(vec![
        "/quit", "/exit", "/clear", "/cost", "/help", "/context", "/compact",
    ])
}

#[test]
fn complete_prefix() {
    let c = completer();
    let results = c.complete("/he", 3);
    assert_eq!(results, vec!["/help"]);
}

#[test]
fn complete_multiple_matches() {
    let c = completer();
    let mut results = c.complete("/co", 3);
    results.sort();
    assert_eq!(results, vec!["/compact", "/context", "/cost"]);
}

#[test]
fn no_match() {
    let c = completer();
    let results = c.complete("/xyz", 4);
    assert!(results.is_empty());
}

#[test]
fn exact_match_returns_empty() {
    let c = completer();
    let results = c.complete("/help", 5);
    assert!(results.is_empty());
}

#[test]
fn non_slash_returns_empty() {
    let c = completer();
    let results = c.complete("hello", 5);
    assert!(results.is_empty());
}

#[test]
fn arguments_and_padding() {
    let c = completer();
    assert!(c.complete("/he lp", 6).is_empty());
    assert_eq!(c.complete("  /qu  ", 7), vec!["/quit"]);
    assert!(c.complete("", 0).is_empty());
    assert_eq!(c.complete("/", 1).len(), 7);
    assert_eq!(c.completions_of("/cl"), vec!["/clear"]);
}
