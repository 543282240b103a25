//! The tool that replaces text in a file.

use crate::error::ToolError;
use crate::json::{Json, JsonView};
use crate::markdown::stands_at;
use crate::message::{ToolDefinition, ToolDefinitionView};
use crate::text::{chars_of, decimal, join2, join4, str_eq, string_from_chars, u64_to_string};
use crate::tools::input::{prop, property_views, PropertyView, 
    build_schema, define, flag_member, input_schema, is_invalid_input, names, property,
    read_flag_member, read_text_member, text_member, Property,
};
use vstd::prelude::*;
use vstd::string::*;

verus! {

/// What the tool is asked to do: in the file at `file_path`, put
/// `new_string` in the place of `old_string`, once or everywhere.
#[derive(Debug, Clone, PartialEq, Eq)]
pub struct EditInput {
    pub file_path: String,
    pub old_string: String,
    pub new_string: String,
    pub replace_all: bool,
}

pub struct EditInputView {
    pub file_path: Seq<char>,
    pub old_string: Seq<char>,
    pub new_string: Seq<char>,
    pub replace_all: bool,
}

impl View for EditInput {
    type V = EditInputView;

    open spec fn view(&self) -> EditInputView {
        EditInputView {
            file_path: self.file_path@,
            old_string: self.old_string@,
            new_string: self.new_string@,
            replace_all: self.replace_all,
        }
    }
}

/// The input that a JSON value stands for, or the message of the error.
pub open spec fn edit_input_of(j: JsonView) -> Result<EditInputView, Seq<char>> {
    match text_member(j, "file_path"@) {
        Err(m) => Err(m),
        Ok(file_path) => match text_member(j, "old_string"@) {
            Err(m) => Err(m),
            Ok(old_string) => match text_member(j, "new_string"@) {
                Err(m) => Err(m),
                Ok(new_string) => match flag_member(j, "replace_all"@) {
                    Err(m) => Err(m),
                    Ok(replace_all) => Ok(
                        EditInputView { file_path, old_string, new_string, replace_all },
                    ),
                },
            },
        },
    }
}

/// Reads the input of a call.
pub fn decode_edit_input(input: &Json) -> (r: Result<EditInput, ToolError>)
    ensures
        match r {
            Ok(i) => edit_input_of(input@) == Ok::<EditInputView, Seq<char>>(i@),
            Err(e) => edit_input_of(input@) is Err && is_invalid_input(
                e,
                "Edit"@,
                edit_input_of(input@)->Err_0,
            ),
        },
{
    let file_path = match read_text_member(input, "Edit", "file_path") {
        Ok(p) => p,
        Err(e) => {
            return Err(e);
        },
    };
    let old_string = match read_text_member(input, "Edit", "old_string") {
        Ok(p) => p,
        Err(e) => {
            return Err(e);
        },
    };
    let new_string = match read_text_member(input, "Edit", "new_string") {
        Ok(p) => p,
        Err(e) => {
            return Err(e);
        },
    };
    let replace_all = match read_flag_member(input, "Edit", "replace_all") {
        Ok(p) => p,
        Err(e) => {
            return Err(e);
        },
    };
    Ok(EditInput { file_path, old_string, new_string, replace_all })
}

/// The number of places from `from` on at which `pattern` stands in
/// `text`, places that overlap an earlier one not counted. The empty
/// pattern stands before every character and at the end.
pub open spec fn occurrences(text: Seq<char>, pattern: Seq<char>, from: int) -> nat
    decreases text.len() - from,
{
    if from < 0 || from + pattern.len() > text.len() {
        0
    } else if pattern.len() == 0 {
        (text.len() - from + 1) as nat
    } else if stands_at(text, pattern, from) {
        1 + occurrences(text, pattern, from + pattern.len())
    } else {
        occurrences(text, pattern, from + 1)
    }
}

/// The text from `from` on with `replacement` in the place of `pattern`:
/// at every place counted by `occurrences`, or, with `once`, at the first.
pub open spec fn replaced(
    text: Seq<char>,
    pattern: Seq<char>,
    replacement: Seq<char>,
    from: int,
    once: bool,
) -> Seq<char>
    decreases text.len() - from,
{
    if from < 0 || from > text.len() {
        Seq::empty()
    } else if from + pattern.len() > text.len() {
        text.subrange(from, text.len() as int)
    } else if stands_at(text, pattern, from) {
        if once {
            replacement + text.subrange(from + pattern.len(), text.len() as int)
        } else if pattern.len() == 0 {
            if from == text.len() {
                replacement
            } else {
                replacement + seq![text[from]] + replaced(text, pattern, replacement, from + 1, once)
            }
        } else {
            replacement + replaced(text, pattern, replacement, from + pattern.len(), once)
        }
    } else if from >= text.len() {
        Seq::empty()
    } else {
        seq![text[from]] + replaced(text, pattern, replacement, from + 1, once)
    }
}

/// What the edit comes to.
#[derive(Debug, Clone, PartialEq, Eq)]
pub enum EditPlan {
    /// The file stays as it is; the message says why.
    Refuse(String),
    /// The file gets this content; the message reports the edit.
    Apply { content: String, message: String },
}

pub enum EditPlanView {
    Refuse(Seq<char>),
    Apply { content: Seq<char>, message: Seq<char> },
}

impl View for EditPlan {
    type V = EditPlanView;

    open spec fn view(&self) -> EditPlanView {
        match self {
            EditPlan::Refuse(m) => EditPlanView::Refuse(m@),
            EditPlan::Apply { content, message } => EditPlanView::Apply {
                content: content@,
                message: message@,
            },
        }
    }
}

/// The message for an edit that would change nothing.
pub open spec fn identical_message() -> Seq<char> {
    "old_string and new_string are identical \u{2014} no change needed"@
}

/// What an edit of the text `content` comes to. The old text must stand
/// in the file, and, unless every place is to be replaced, at one place
/// only.
pub open spec fn planned(content: Seq<char>, input: EditInputView) -> EditPlanView {
    let count = occurrences(content, input.old_string, 0);
    if count == 0 {
        EditPlanView::Refuse("old_string not found in "@ + input.file_path)
    } else if !input.replace_all && count > 1 {
        EditPlanView::Refuse(
            "old_string found "@ + decimal(count) + " times in "@ + input.file_path
                + " \u{2014} provide more context to make it unique, or set replace_all to true"@,
        )
    } else if input.replace_all {
        EditPlanView::Apply {
            content: replaced(content, input.old_string, input.new_string, 0, false),
            message: "Replaced "@ + decimal(count) + " occurrences in "@ + input.file_path,
        }
    } else {
        EditPlanView::Apply {
            content: replaced(content, input.old_string, input.new_string, 0, true),
            message: "Successfully edited "@ + input.file_path,
        }
    }
}

/// Tells whether the edit would put the old text in its own place, which
/// is refused before the file is read.
pub fn changes_nothing(input: &EditInput) -> (r: Option<String>)
    ensures
        match r {
            Some(m) => input@.old_string == input@.new_string && m@ == identical_message(),
            None => input@.old_string != input@.new_string,
        },
{
    if str_eq(input.old_string.as_str(), input.new_string.as_str()) {
        Some("old_string and new_string are identical \u{2014} no change needed".to_owned())
    } else {
        None
    }
}

/// Tells whether `pattern` stands in `text` at `i`.
fn pattern_at(text: &Vec<char>, pattern: &Vec<char>, i: usize) -> (r: bool)
    requires
        i + pattern@.len() <= text@.len(),
    ensures
        r == stands_at(text@, pattern@, i as int),
{
    let m: usize = pattern.len();
    let n: usize = text.len();
    let mut k: usize = 0;
    while k < m
        invariant
            k <= m,
            m == pattern@.len(),
            n == text@.len(),
            i + m <= n,
            forall|j: int| 0 <= j < k ==> text@[i + j] == pattern@[j],
        decreases m - k,
    {
        if text[i + k] != pattern[k] {
            assert(text@.subrange(i as int, i + m)[k as int] != pattern@[k as int]);
            return false;
        }
        k += 1;
    }
    assert(text@.subrange(i as int, i + m) =~= pattern@);
    true
}

/// Counts the places at which `pattern` stands in `text`.
pub fn count_occurrences(text: &Vec<char>, pattern: &Vec<char>) -> (n: u64)
    requires
        text@.len() < u64::MAX,
    ensures
        n == occurrences(text@, pattern@, 0),
{
    let len: usize = text.len();
    let m: usize = pattern.len();
    if m > len {
        return 0;
    }
    if m == 0 {
        return len as u64 + 1;
    }
    let last: usize = len - m;
    let mut i: usize = 0;
    let mut found: u64 = 0;
    while i <= last
        invariant
            m == pattern@.len(),
            m > 0,
            len == text@.len(),
            last == len - m,
            len < u64::MAX,
            i <= len,
            found <= i,
            found + occurrences(text@, pattern@, i as int) == occurrences(text@, pattern@, 0),
        decreases len - i,
    {
        if pattern_at(text, pattern, i) {
            found += 1;
            i += m;
        } else {
            i += 1;
        }
    }
    found
}

/// Puts `replacement` in the place of `pattern`, everywhere or once.
pub fn replace_in(
    text: &Vec<char>,
    pattern: &Vec<char>,
    replacement: &Vec<char>,
    once: bool,
) -> (out: Vec<char>)
    ensures
        out@ == replaced(text@, pattern@, replacement@, 0, once),
{
    let len: usize = text.len();
    let m: usize = pattern.len();
    let mut out: Vec<char> = Vec::new();
    let mut i: usize = 0;
    let mut done = false;
    assert(out@ + replaced(text@, pattern@, replacement@, 0, once) =~= replaced(
        text@,
        pattern@,
        replacement@,
        0,
        once,
    ));
    while !done && m <= len - i
        invariant
            m == pattern@.len(),
            len == text@.len(),
            i <= len,
            done ==> out@ == replaced(text@, pattern@, replacement@, 0, once),
            !done ==> out@ + replaced(text@, pattern@, replacement@, i as int, once) == replaced(
                text@,
                pattern@,
                replacement@,
                0,
                once,
            ),
        decreases (if done { 0int } else { 1int }), len - i,
    {
        let ghost before = out@;
        let ghost rest = replaced(text@, pattern@, replacement@, i as int, once);
        if pattern_at(text, pattern, i) {
            append_chars(&mut out, replacement);
            if once {
                let mut k: usize = i + m;
                assert(out@ =~= before + replacement@ + text@.subrange(i + m, k as int));
                while k < len
                    invariant
                        i + m <= k <= len,
                        len == text@.len(),
                        out@ == before + replacement@ + text@.subrange(i + m, k as int),
                    decreases len - k,
                {
                    out.push(text[k]);
                    k += 1;
                    assert(out@ =~= before + replacement@ + text@.subrange(i + m, k as int));
                }
                assert(out@ =~= before + rest);
                done = true;
            } else if m == 0 {
                if i == len {
                    assert(out@ =~= before + rest);
                    done = true;
                } else {
                    out.push(text[i]);
                    assert(out@ + replaced(text@, pattern@, replacement@, i + 1, once)
                        =~= before + rest);
                    i += 1;
                }
            } else {
                assert(out@ + replaced(text@, pattern@, replacement@, i + m, once) =~= before
                    + rest);
                i += m;
            }
        } else {
            proof {
                if m == 0 {
                    assert(text@.subrange(i as int, i as int) =~= pattern@);
                }
            }
            out.push(text[i]);
            assert(out@ + replaced(text@, pattern@, replacement@, i + 1, once) =~= before
                + rest);
            i += 1;
        }
    }
    if !done {
        let ghost before = out@;
        let mut k: usize = i;
        assert(out@ =~= before + text@.subrange(i as int, k as int));
        while k < len
            invariant
                i <= k <= len,
                len == text@.len(),
                out@ == before + text@.subrange(i as int, k as int),
            decreases len - k,
        {
            out.push(text[k]);
            k += 1;
            assert(out@ =~= before + text@.subrange(i as int, k as int));
        }
    }
    out
}

/// Adds the characters of `more` to `out`.
fn append_chars(out: &mut Vec<char>, more: &Vec<char>)
    ensures
        final(out)@ == old(out)@ + more@,
{
    let mut k: usize = 0;
    assert(out@ =~= old(out)@ + more@.subrange(0, 0));
    while k < more.len()
        invariant
            k <= more@.len(),
            out@ == old(out)@ + more@.subrange(0, k as int),
        decreases more.len() - k,
    {
        out.push(more[k]);
        k += 1;
        assert(out@ =~= old(out)@ + more@.subrange(0, k as int));
    }
    assert(more@.subrange(0, more@.len() as int) =~= more@);
}

/// Plans the edit of a file with the text `content`.
pub fn plan_edit(content: &str, input: &EditInput) -> (plan: EditPlan)
    requires
        content@.len() < u64::MAX,
    ensures
        plan@ == planned(content@, input@),
{
    let text = chars_of(content);
    let pattern = chars_of(input.old_string.as_str());
    let replacement = chars_of(input.new_string.as_str());
    let count = count_occurrences(&text, &pattern);
    if count == 0 {
        return EditPlan::Refuse(join2("old_string not found in ", input.file_path.as_str()));
    }
    if !input.replace_all && count > 1 {
        let head = join4(
            "old_string found ",
            u64_to_string(count).as_str(),
            " times in ",
            input.file_path.as_str(),
        );
        return EditPlan::Refuse(
            join2(
                head.as_str(),
                " \u{2014} provide more context to make it unique, or set replace_all to true",
            ),
        );
    }
    let changed = replace_in(&text, &pattern, &replacement, !input.replace_all);
    let new_content = string_from_chars(changed.as_slice());
    let message = if input.replace_all {
        join4(
            "Replaced ",
            u64_to_string(count).as_str(),
            " occurrences in ",
            input.file_path.as_str(),
        )
    } else {
        join2("Successfully edited ", input.file_path.as_str())
    };
    EditPlan::Apply { content: new_content, message }
}

/// The properties of the input of the tool.
pub open spec fn edit_properties() -> Seq<PropertyView> {
    seq![
        prop("file_path"@, "string"@, "Absolute path to the file to edit"@),
        prop("old_string"@, "string"@, "The exact text to find and replace"@),
        prop("new_string"@, "string"@, "The replacement text"@),
        prop("replace_all"@, "boolean"@, "Replace all occurrences (default: false, requires unique match)"@),
    ]
}

/// What the tool announces of itself: its name, what it is for, and the
/// schema of its input.
pub open spec fn edit_definition_view() -> ToolDefinitionView {
    ToolDefinitionView {
        name: "Edit"@,
        description: "Perform exact string replacements in files. The old_string must be unique in the file unless replace_all is true. Use this for targeted edits to existing files."@,
        input_schema: input_schema(seq!["file_path"@, "old_string"@, "new_string"@], edit_properties()),
        cache_control: None,
    }
}

/// What the tool announces of itself.
pub fn edit_definition() -> (d: ToolDefinition)
    ensures
        d@ == edit_definition_view(),
{
    let mut required: Vec<&str> = Vec::new();
    required.push("file_path");
    required.push("old_string");
    required.push("new_string");
    let mut properties: Vec<Property> = Vec::new();
    properties.push(property("file_path", "string", "Absolute path to the file to edit"));
    properties.push(property("old_string", "string", "The exact text to find and replace"));
    properties.push(property("new_string", "string", "The replacement text"));
    properties.push(
        property(
            "replace_all",
            "boolean",
            "Replace all occurrences (default: false, requires unique match)",
        ),
    );
    let schema = build_schema(&required, &properties);
    assert(names(required@) =~= seq!["file_path"@, "old_string"@, "new_string"@]);
    assert(property_views(properties@) =~= edit_properties());
    define(
        "Edit",
        "Perform exact string replacements in files. The old_string must be unique in the file unless replace_all is true. Use this for targeted edits to existing files.",
        schema,
    )
}

} // verus!
