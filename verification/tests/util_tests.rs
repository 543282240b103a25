use chet::util::{truncate_str, truncate_string};

#[test]
fn truncate_str_short() {
    assert_eq!(truncate_str("hello", 10), "hello");
}

#[test]
fn truncate_str_exact_boundary() {
    assert_eq!(truncate_str("hello", 5), "hello");
}

#[test]
fn truncate_str_ascii() {
    assert_eq!(truncate_str("hello world", 5), "hello");
}

#[test]
fn truncate_str_empty() {
    assert_eq!(truncate_str("", 5), "");
}

#[test]
fn truncate_str_zero_max() {
    assert_eq!(truncate_str("hello", 0), "");
}

#[test]
fn truncate_str_emoji() {
    // Each emoji is 4 bytes
    let s = "\u{1F600}\u{1F601}\u{1F602}"; // 12 bytes
    assert_eq!(truncate_str(s, 4), "\u{1F600}");
    assert_eq!(truncate_str(s, 5), "\u{1F600}"); // can't fit partial emoji
    assert_eq!(truncate_str(s, 8), "\u{1F600}\u{1F601}");
}

#[test]
fn truncate_str_cjk() {
    // CJK chars are 3 bytes each
    let s = "\u{4e16}\u{754c}"; // 6 bytes
    assert_eq!(truncate_str(s, 3), "\u{4e16}");
    assert_eq!(truncate_str(s, 4), "\u{4e16}"); // can't fit partial char
    assert_eq!(truncate_str(s, 6), "\u{4e16}\u{754c}");
}

#[test]
fn truncate_str_accented() {
    let s = "caf\u{00e9}"; // 'e' with accent = 2 bytes, total 5
    assert_eq!(truncate_str(s, 4), "caf"); // can't fit the 2-byte char
    assert_eq!(truncate_str(s, 5), "caf\u{00e9}");
}

#[test]
fn truncate_string_in_place() {
    let mut s = String::from("hello world");
    truncate_string(&mut s, 5);
    assert_eq!(s, "hello");
}

#[test]
fn truncate_string_no_op() {
    let mut s = String::from("hi");
    truncate_string(&mut s, 10);
    assert_eq!(s, "hi");
}

#[test]
fn truncate_string_emoji() {
    let mut s = String::from("\u{1F600}\u{1F601}"); // 8 bytes
    truncate_string(&mut s, 5);
    assert_eq!(s, "\u{1F600}"); // only first emoji fits
}

#[test]
fn white_space_is_what_the_standard_library_counts_as_such() {
    let mut seen = 0;
    for n in 0..=0x10FFFFu32 {
        let c = match char::from_u32(n) {
            Some(c) => c,
            None => continue,
        };
        let text = c.to_string();
        let trimmed_away = chet::text::trim(&text).is_empty();
        assert_eq!(trimmed_away, c.is_whitespace(), "U+{n:04X}");
        if trimmed_away {
            seen += 1;
        }
    }
    assert_eq!(seen, 25);
    assert_eq!(chet::text::trim("\u{2003}a b\u{3000}\n"), "a b");
    assert_eq!(chet::text::trim("\u{200B}a"), "\u{200B}a");
}
