use chet::history::{History, MAX_ENTRIES};
use chet::text::trim;

fn mem_history() -> History {
    History::new("/dev/null")
}

#[test]
fn add_and_len() {
    let mut h = mem_history();
    h.add("first");
    h.add("second");
    assert_eq!(h.len(), 2);
}

#[test]
fn skip_empty() {
    let mut h = mem_history();
    h.add("");
    h.add("   ");
    assert!(h.is_empty());
}

#[test]
fn skip_consecutive_duplicates() {
    let mut h = mem_history();
    h.add("same");
    h.add("same");
    h.add("same");
    assert_eq!(h.len(), 1);
}

#[test]
fn non_consecutive_duplicates_kept() {
    let mut h = mem_history();
    h.add("a");
    h.add("b");
    h.add("a");
    assert_eq!(h.len(), 3);
}

#[test]
fn navigate_up_and_down() {
    let mut h = mem_history();
    h.add("first");
    h.add("second");
    h.add("third");

    assert_eq!(h.navigate_up("current").as_deref(), Some("third"));
    assert_eq!(h.navigate_up("current").as_deref(), Some("second"));
    assert_eq!(h.navigate_up("current").as_deref(), Some("first"));
    assert_eq!(h.navigate_up("current"), None); // at oldest

    assert_eq!(h.navigate_down().as_deref(), Some("second"));
    assert_eq!(h.navigate_down().as_deref(), Some("third"));
    assert_eq!(h.navigate_down().as_deref(), Some("current")); // stash restored
    assert_eq!(h.navigate_down(), None); // not navigating
}

#[test]
fn navigate_up_empty_history() {
    let mut h = mem_history();
    assert_eq!(h.navigate_up("input"), None);
}

#[test]
fn reset_navigation() {
    let mut h = mem_history();
    h.add("entry");
    h.navigate_up("current");
    h.reset_navigation();
    // After reset, navigate_down should return None (not navigating)
    assert_eq!(h.navigate_down(), None);
}

#[test]
fn max_entries_enforced() {
    let mut h = mem_history();
    for i in 0..1100 {
        h.add(&format!("entry {i}"));
    }
    assert_eq!(h.len(), MAX_ENTRIES);
    // Oldest entries should be dropped
    assert_eq!(h.entry(0), "entry 100");
}

#[test]
fn load_and_file_content_round_trip() {
    let mut h = History::new("history");
    h.add("line one");
    h.add("line two");
    let content = h.file_content();
    assert_eq!(content, "line one\nline two\n");

    let mut h2 = History::new("history");
    h2.load_from(content.as_bytes());
    assert_eq!(h2.len(), 2);
    assert_eq!(h2.entry(0), "line one");
    assert_eq!(h2.entry(1), "line two");
    assert_eq!(h2.path(), "history");
}

#[test]
fn load_skips_empty_lines_and_keeps_the_newest() {
    let mut h = mem_history();
    h.load_from(b"a\n\nb\r\n\nc");
    assert_eq!(h.len(), 3);
    assert_eq!(h.entry(0), "a");
    assert_eq!(h.entry(1), "b");
    assert_eq!(h.entry(2), "c");

    let mut text = String::new();
    for i in 0..1100 {
        text.push_str(&format!("entry {i}\n"));
    }
    h.load_from(text.as_bytes());
    assert_eq!(h.len(), MAX_ENTRIES);
    assert_eq!(h.entry(0), "entry 100");
    assert_eq!(h.entry(999), "entry 1099");
    assert_eq!(History::new("x").file_content(), "");
}

#[test]
fn add_trims_the_line() {
    let mut h = mem_history();
    h.add("  spaced out \t");
    assert_eq!(h.entry(0), "spaced out");
    assert_eq!(trim("\u{2003} x y \n"), "x y");
    assert_eq!(trim(" \t "), "");
}
