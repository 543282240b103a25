use chet::error::ToolError;
use chet::json::Json;
use chet::tool::ToolOutputContent;
use chet::tools::bash::{
    bash_definition, decode_bash_input, effective_timeout, shape_output, BashTool,
    MAX_OUTPUT_BYTES,
};
use chet::tools::edit::{
    changes_nothing, decode_edit_input, edit_definition, plan_edit, EditInput, EditPlan,
};
use chet::tools::read::{decode_read_input, read_definition, render_file};
use chet::tools::write::{decode_write_input, write_definition, write_success};

fn json(text: &str) -> Json {
    Json::parse(text).expect("test input is well-formed JSON")
}

fn invalid(result: Result<impl std::fmt::Debug, ToolError>) -> (String, String) {
    match result {
        Err(ToolError::InvalidInput { tool, message }) => (tool, message),
        other => panic!("expected an input error, got {other:?}"),
    }
}

fn text_of(content: &[ToolOutputContent]) -> String {
    match content {
        [ToolOutputContent::Text { text }] => text.clone(),
        other => panic!("expected one text, got {other:?}"),
    }
}

#[test]
fn read_input_is_decoded() {
    let input = decode_read_input(&json(r#"{"file_path":"/tmp/x","offset":3,"limit":10}"#)).unwrap();
    assert_eq!(input.file_path, "/tmp/x");
    assert_eq!(input.offset, Some(3));
    assert_eq!(input.limit, Some(10));
    let input = decode_read_input(&json(r#"{"file_path":"/tmp/x","offset":null,"more":1}"#)).unwrap();
    assert_eq!(input.offset, None);
    assert_eq!(input.limit, None);
    assert_eq!(
        invalid(decode_read_input(&json(r#"{"offset":3}"#))),
        ("Read".to_string(), "missing field `file_path`".to_string())
    );
    assert_eq!(
        invalid(decode_read_input(&json(r#"{"file_path":7}"#))),
        ("Read".to_string(), "invalid type for field `file_path`".to_string())
    );
    assert_eq!(
        invalid(decode_read_input(&json(r#"{"file_path":"x","limit":-1}"#))),
        ("Read".to_string(), "invalid type for field `limit`".to_string())
    );
    assert_eq!(
        invalid(decode_read_input(&json("[]"))),
        ("Read".to_string(), "missing field `file_path`".to_string())
    );
}

#[test]
fn files_are_shown_with_line_numbers() {
    assert_eq!(render_file("", None, None), "(empty file)");
    assert_eq!(render_file("one\ntwo\n", None, None), "1\tone\n2\ttwo\n");
    assert_eq!(render_file("one\r\ntwo", None, None), "1\tone\n2\ttwo\n");
    let ten: String = (1..=10).map(|i| format!("line {i}\n")).collect();
    let shown = render_file(&ten, None, None);
    assert!(shown.starts_with(" 1\tline 1\n 2\tline 2\n"));
    assert!(shown.ends_with(" 9\tline 9\n10\tline 10\n"));
    assert_eq!(
        render_file(&ten, Some(3), Some(2)),
        "3\tline 3\n4\tline 4\n\n(showing lines 3-4 of 10)"
    );
    assert_eq!(
        render_file(&ten, Some(9), Some(5)),
        " 9\tline 9\n10\tline 10\n"
    );
    assert_eq!(
        render_file(&ten, Some(0), Some(1)),
        "1\tline 1\n\n(showing lines 1-1 of 10)"
    );
    assert_eq!(render_file(&ten, Some(11), None), "");
    assert_eq!(render_file(&ten, Some(50), Some(3)), "");
    assert_eq!(
        render_file(&ten, Some(2), Some(0)),
        "\n(showing lines 2-1 of 10)"
    );
    assert_eq!(
        render_file(&ten, Some(u64::MAX), Some(u64::MAX)),
        ""
    );
}

#[test]
fn long_lines_are_clipped_on_a_character() {
    let long = format!("{}\n", "\u{e9}".repeat(1500));
    let shown = render_file(&long, None, None);
    assert_eq!(shown, format!("1\t{}\n", "\u{e9}".repeat(1000)));
    let odd = format!("a{}", "\u{e9}".repeat(1500));
    let shown = render_file(&odd, None, None);
    assert_eq!(shown, format!("1\ta{}\n", "\u{e9}".repeat(999)));
}

#[test]
fn write_input_and_message() {
    let input = decode_write_input(&json(r#"{"file_path":"/tmp/x","content":"hello"}"#)).unwrap();
    assert_eq!(input.file_path, "/tmp/x");
    assert_eq!(input.content, "hello");
    assert_eq!(
        invalid(decode_write_input(&json(r#"{"content":"hello"}"#))),
        ("Write".to_string(), "missing field `file_path`".to_string())
    );
    assert_eq!(
        invalid(decode_write_input(&json(r#"{"file_path":"x"}"#))),
        ("Write".to_string(), "missing field `content`".to_string())
    );
    assert_eq!(
        write_success(5, "/tmp/x"),
        "Successfully wrote 5 bytes to /tmp/x"
    );
}

fn edit(old: &str, new: &str, replace_all: bool) -> EditInput {
    EditInput {
        file_path: "/f".to_string(),
        old_string: old.to_string(),
        new_string: new.to_string(),
        replace_all,
    }
}

#[test]
fn edit_input_is_decoded() {
    let input = decode_edit_input(&json(
        r#"{"file_path":"/f","old_string":"a","new_string":"b","replace_all":true}"#,
    ))
    .unwrap();
    assert_eq!(input, edit("a", "b", true));
    let input =
        decode_edit_input(&json(r#"{"file_path":"/f","old_string":"a","new_string":"b"}"#)).unwrap();
    assert!(!input.replace_all);
    assert_eq!(
        invalid(decode_edit_input(&json(
            r#"{"file_path":"/f","old_string":"a","new_string":"b","replace_all":null}"#
        ))),
        (
            "Edit".to_string(),
            "invalid type for field `replace_all`".to_string()
        )
    );
    assert_eq!(
        invalid(decode_edit_input(&json(r#"{"file_path":"/f","new_string":"b"}"#))),
        ("Edit".to_string(), "missing field `old_string`".to_string())
    );
}

#[test]
fn edits_replace_once_or_everywhere() {
    assert_eq!(
        plan_edit("let x = 1;\nlet y = 2;\n", &edit("x = 1", "x = 10", false)),
        EditPlan::Apply {
            content: "let x = 10;\nlet y = 2;\n".to_string(),
            message: "Successfully edited /f".to_string()
        }
    );
    assert_eq!(
        plan_edit("a-a-a", &edit("a", "bb", true)),
        EditPlan::Apply {
            content: "bb-bb-bb".to_string(),
            message: "Replaced 3 occurrences in /f".to_string()
        }
    );
    assert_eq!(
        plan_edit("aaaa", &edit("aa", "b", true)),
        EditPlan::Apply {
            content: "bb".to_string(),
            message: "Replaced 2 occurrences in /f".to_string()
        }
    );
    assert_eq!(
        plan_edit("aaa", &edit("aa", "b", true)),
        EditPlan::Apply {
            content: "ba".to_string(),
            message: "Replaced 1 occurrences in /f".to_string()
        }
    );
    assert_eq!(
        plan_edit("caf\u{e9} caf\u{e9}", &edit("\u{e9}", "e", true)),
        EditPlan::Apply {
            content: "cafe cafe".to_string(),
            message: "Replaced 2 occurrences in /f".to_string()
        }
    );
    assert_eq!(
        plan_edit("tail", &edit("il", "", false)),
        EditPlan::Apply {
            content: "ta".to_string(),
            message: "Successfully edited /f".to_string()
        }
    );
}

#[test]
fn edits_are_refused() {
    assert_eq!(
        plan_edit("abc", &edit("x", "y", false)),
        EditPlan::Refuse("old_string not found in /f".to_string())
    );
    assert_eq!(
        plan_edit("a-a", &edit("a", "b", false)),
        EditPlan::Refuse(
            "old_string found 2 times in /f \u{2014} provide more context to make it unique, or set replace_all to true"
                .to_string()
        )
    );
    assert_eq!(
        plan_edit("ab", &edit("abc", "x", true)),
        EditPlan::Refuse("old_string not found in /f".to_string())
    );
    assert_eq!(
        changes_nothing(&edit("same", "same", false)),
        Some("old_string and new_string are identical \u{2014} no change needed".to_string())
    );
    assert_eq!(changes_nothing(&edit("a", "b", false)), None);
}

#[test]
fn the_empty_pattern_stands_everywhere() {
    assert_eq!(
        plan_edit("ab", &edit("", "x", true)),
        EditPlan::Apply {
            content: "ab".replace("", "x"),
            message: "Replaced 3 occurrences in /f".to_string()
        }
    );
    assert_eq!("ab".replace("", "x"), "xaxbx");
    assert_eq!(
        plan_edit("", &edit("", "x", false)),
        EditPlan::Apply {
            content: "x".to_string(),
            message: "Successfully edited /f".to_string()
        }
    );
    assert!(matches!(
        plan_edit("ab", &edit("", "x", false)),
        EditPlan::Refuse(m) if m.starts_with("old_string found 3 times")
    ));
}

#[test]
fn replacements_agree_with_the_standard_library() {
    let texts = ["", "a", "aaa", "abcabc", "xxabxxabxx", "\u{4e16}\u{754c}\u{4e16}"];
    let patterns = ["a", "ab", "abc", "xx", "\u{4e16}", "aa", "zzz"];
    for text in texts {
        for pattern in patterns {
            let count = text.matches(pattern).count();
            let all = plan_edit(text, &edit(pattern, "<>", true));
            let one = plan_edit(text, &edit(pattern, "<>", false));
            if count == 0 {
                assert!(matches!(all, EditPlan::Refuse(_)));
                assert!(matches!(one, EditPlan::Refuse(_)));
            } else {
                assert_eq!(
                    all,
                    EditPlan::Apply {
                        content: text.replace(pattern, "<>"),
                        message: format!("Replaced {count} occurrences in /f")
                    }
                );
                if count == 1 {
                    assert_eq!(
                        one,
                        EditPlan::Apply {
                            content: text.replacen(pattern, "<>", 1),
                            message: "Successfully edited /f".to_string()
                        }
                    );
                } else {
                    assert!(matches!(one, EditPlan::Refuse(_)));
                }
            }
        }
    }
}

#[test]
fn bash_input_and_timeouts() {
    let input = decode_bash_input(&json(r#"{"command":"ls","timeout":5000}"#)).unwrap();
    assert_eq!(input.command, "ls");
    assert_eq!(input.timeout, Some(5000));
    assert_eq!(
        invalid(decode_bash_input(&json(r#"{"timeout":5000}"#))),
        ("Bash".to_string(), "missing field `command`".to_string())
    );
    assert_eq!(
        invalid(decode_bash_input(&json(r#"{"command":"ls","timeout":"soon"}"#))),
        ("Bash".to_string(), "invalid type for field `timeout`".to_string())
    );
    assert_eq!(effective_timeout(None), 120_000);
    assert_eq!(effective_timeout(Some(5)), 5);
    assert_eq!(effective_timeout(Some(600_000)), 600_000);
    assert_eq!(effective_timeout(Some(600_001)), 600_000);
}

#[test]
fn bash_output_is_shaped() {
    let out = shape_output("out\n", "", 0);
    assert_eq!(text_of(&out.content), "out\n");
    assert!(!out.is_error);
    let out = shape_output("out", "err", 1);
    assert_eq!(text_of(&out.content), "out\nerr");
    assert!(out.is_error);
    let out = shape_output("", "err", 0);
    assert_eq!(text_of(&out.content), "err");
    let out = shape_output("", "", 0);
    assert_eq!(text_of(&out.content), "(no output)");
    let out = shape_output("", "", 3);
    assert_eq!(text_of(&out.content), "Command exited with code 3");
    assert!(out.is_error);
    let out = shape_output("", "", -1);
    assert_eq!(text_of(&out.content), "Command exited with code -1");
}

#[test]
fn long_bash_output_is_clipped_on_a_character() {
    let long = "x".repeat(MAX_OUTPUT_BYTES + 10);
    let out = shape_output(&long, "", 0);
    assert_eq!(
        text_of(&out.content),
        format!("{}\n\n(output truncated)", "x".repeat(MAX_OUTPUT_BYTES))
    );
    let exact = "x".repeat(MAX_OUTPUT_BYTES);
    assert_eq!(text_of(&shape_output(&exact, "", 0).content), exact);
    let wide = format!("a{}", "\u{e9}".repeat(MAX_OUTPUT_BYTES));
    let out = shape_output(&wide, "", 0);
    assert_eq!(
        text_of(&out.content),
        format!(
            "a{}\n\n(output truncated)",
            "\u{e9}".repeat((MAX_OUTPUT_BYTES - 1) / 2)
        )
    );
}

#[test]
fn bash_keeps_its_working_directory() {
    let mut tool = BashTool::new();
    assert_eq!(tool.working_dir("/start"), "/start");
    assert_eq!(BashTool::cd_request("cd /tmp").as_deref(), Some("/tmp"));
    assert_eq!(BashTool::cd_request("ls"), None);
    tool.remember("/tmp".to_string());
    assert_eq!(tool.working_dir("/start"), "/tmp");
    assert_eq!(BashTool::default().working_dir("/x"), "/x");
}

#[test]
fn definitions_announce_the_schema() {
    let read = read_definition();
    assert_eq!(read.name, "Read");
    assert!(read.description.starts_with("Read a file from the filesystem."));
    assert!(read.cache_control.is_none());
    let schema = &read.input_schema;
    assert_eq!(schema.get_str("type"), Some("object"));
    assert!(matches!(schema.get("required"), Some(Json::Array(r)) if r.len() == 1 && r[0].as_str() == Some("file_path")));
    let properties = schema.get("properties").unwrap();
    assert_eq!(
        properties.get("offset").and_then(|p| p.get_str("type")),
        Some("integer")
    );
    assert_eq!(
        properties.get("limit").and_then(|p| p.get_str("description")),
        Some("Maximum number of lines to read")
    );

    let write = write_definition();
    assert_eq!(write.name, "Write");
    assert!(matches!(write.input_schema.get("required"), Some(Json::Array(r)) if r.len() == 2));

    let edit = edit_definition();
    assert_eq!(edit.name, "Edit");
    assert_eq!(
        edit.input_schema
            .get("properties")
            .and_then(|p| p.get("replace_all"))
            .and_then(|p| p.get_str("type")),
        Some("boolean")
    );

    let bash = bash_definition();
    assert_eq!(bash.name, "Bash");
    assert!(bash.description.contains("time out after 2 minutes"));
    assert_eq!(
        bash.input_schema
            .get("properties")
            .and_then(|p| p.get("timeout"))
            .and_then(|p| p.get_str("description")),
        Some("Timeout in milliseconds (max 600000)")
    );
}
