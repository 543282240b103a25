//! The tools that search: finding files by a pattern and lines by a
//! regular expression. Walking the directories and matching is the
//! caller's part; here the input is read and the findings are reported.

use crate::buffer::skip_left;
use crate::error::ToolError;
use crate::json::{Json, JsonView};
use crate::message::{opt_text, ToolDefinition, ToolDefinitionView};
use crate::text::{
    char_is_whitespace, chars_of, decimal, join3, str_eq, string_from_chars, u64_to_string,
};
use crate::tool::{ToolOutput, ToolOutputContentView};
use crate::tools::input::{
    build_schema, choice, choice_property, count_member, define, flag_member, input_schema,
    is_invalid_input, names, optional_text_member, prop, property, property_views,
    read_count_member, read_flag_member, read_optional_text_member, read_text_member,
    text_member, Property, PropertyView,
};
use vstd::prelude::*;
use vstd::slice::*;
use vstd::string::*;

verus! {

/// What the tool that finds files is asked: the pattern, and the
/// directory to search where it is not the working directory.
#[derive(Debug, Clone, PartialEq, Eq)]
pub struct GlobInput {
    pub pattern: String,
    pub path: Option<String>,
}

/// The input that a JSON value stands for, or the message of the error.
pub open spec fn glob_input_of(j: JsonView) -> Result<(Seq<char>, Option<Seq<char>>), Seq<char>> {
    match text_member(j, "pattern"@) {
        Err(m) => Err(m),
        Ok(pattern) => match optional_text_member(j, "path"@) {
            Err(m) => Err(m),
            Ok(path) => Ok((pattern, path)),
        },
    }
}

/// Reads the input of a call of the tool that finds files.
pub fn decode_glob_input(input: &Json) -> (r: Result<GlobInput, ToolError>)
    ensures
        match r {
            Ok(g) => glob_input_of(input@) == Ok::<(Seq<char>, Option<Seq<char>>), Seq<char>>(
                (g.pattern@, opt_text(g.path)),
            ),
            Err(e) => glob_input_of(input@) is Err && is_invalid_input(
                e,
                "Glob"@,
                glob_input_of(input@)->Err_0,
            ),
        },
{
    let pattern = match read_text_member(input, "Glob", "pattern") {
        Ok(p) => p,
        Err(e) => {
            return Err(e);
        },
    };
    let path = match read_optional_text_member(input, "Glob", "path") {
        Ok(p) => p,
        Err(e) => {
            return Err(e);
        },
    };
    Ok(GlobInput { pattern, path })
}

/// The directory that a search goes through: the one that the input
/// names, or the working directory.
pub fn search_dir(path: &Option<String>, cwd: &str) -> (dir: String)
    ensures
        dir@ == match path {
            Some(p) => p@,
            None => cwd@,
        },
{
    match path {
        Some(p) => p.clone(),
        None => cwd.to_owned(),
    }
}

/// A file that was found, and when it was last changed: a later time is
/// a larger number.
#[derive(Debug, Clone, PartialEq, Eq)]
pub struct FoundFile {
    pub path: String,
    pub modified: u64,
}

/// The paths and times of a list of files.
pub open spec fn found_views(found: Seq<FoundFile>) -> Seq<(Seq<char>, u64)> {
    found.map_values(|f: FoundFile| (f.path@, f.modified))
}

/// The place of a file in a list that has the newest first: behind all
/// files that are as new or newer.
pub open spec fn place_of(sorted: Seq<(Seq<char>, u64)>, time: u64, from: int) -> int
    decreases sorted.len() - from,
{
    if from < 0 || from >= sorted.len() {
        sorted.len() as int
    } else if sorted[from].1 < time {
        from
    } else {
        place_of(sorted, time, from + 1)
    }
}

/// The first `n` files, the newest first; files of one time stay in the
/// order in which they were found.
pub open spec fn newest_first(found: Seq<(Seq<char>, u64)>, n: int) -> Seq<(Seq<char>, u64)>
    decreases n,
{
    if n <= 0 || n > found.len() {
        Seq::empty()
    } else {
        let before = newest_first(found, n - 1);
        before.insert(place_of(before, found[n - 1].1, 0), found[n - 1])
    }
}

/// True when no file stands before a newer one.
pub open spec fn is_newest_first(files: Seq<(Seq<char>, u64)>) -> bool {
    forall|i: int, j: int| 0 <= i < j < files.len() ==> files[i].1 >= files[j].1
}

/// The place of a file lies within the list; the files before it are as
/// new or newer, and the file at it is older.
pub proof fn lemma_place_of(sorted: Seq<(Seq<char>, u64)>, time: u64, from: int)
    requires
        0 <= from <= sorted.len(),
    ensures
        from <= place_of(sorted, time, from) <= sorted.len(),
        forall|k: int| from <= k < place_of(sorted, time, from) ==> sorted[k].1 >= time,
        place_of(sorted, time, from) < sorted.len() ==> sorted[place_of(sorted, time, from)].1
            < time,
    decreases sorted.len() - from,
{
    if from < sorted.len() && sorted[from].1 >= time {
        lemma_place_of(sorted, time, from + 1);
    }
}

/// The list of the files found has as many files as were found, and the
/// newest first.
pub proof fn lemma_newest_first(found: Seq<(Seq<char>, u64)>, n: int)
    requires
        0 <= n <= found.len(),
    ensures
        newest_first(found, n).len() == n,
        is_newest_first(newest_first(found, n)),
    decreases n,
{
    if n > 0 {
        lemma_newest_first(found, n - 1);
        let before = newest_first(found, n - 1);
        let item = found[n - 1];
        let at = place_of(before, item.1, 0);
        lemma_place_of(before, item.1, 0);
        let after = before.insert(at, item);
        assert forall|i: int, j: int| 0 <= i < j < after.len() implies after[i].1
            >= after[j].1 by {
            if j < at {
                assert(after[i] == before[i] && after[j] == before[j]);
            } else if j == at {
                assert(after[i] == before[i]);
            } else if i < at {
                assert(after[i] == before[i] && after[j] == before[j - 1]);
            } else if i == at {
                assert(after[j] == before[j - 1]);
                assert(before[at].1 >= before[j - 1].1 || at == j - 1);
            } else {
                assert(after[i] == before[i - 1] && after[j] == before[j - 1]);
            }
        }
    }
}

/// The list of the files found holds exactly the files that were found,
/// each as often as it was found.
pub proof fn lemma_newest_first_keeps_the_files(found: Seq<(Seq<char>, u64)>, n: int)
    requires
        0 <= n <= found.len(),
    ensures
        newest_first(found, n).to_multiset() == found.take(n).to_multiset(),
    decreases n,
{
    if n > 0 {
        lemma_newest_first_keeps_the_files(found, n - 1);
        lemma_newest_first(found, n - 1);
        let before = newest_first(found, n - 1);
        let item = found[n - 1];
        let at = place_of(before, item.1, 0);
        lemma_place_of(before, item.1, 0);
        vstd::seq_lib::to_multiset_insert(before, at, item);
        vstd::seq_lib::to_multiset_build(found.take(n - 1), item);
        assert(found.take(n) =~= found.take(n - 1).push(item));
    } else {
        assert(newest_first(found, 0) =~= found.take(0));
    }
}

/// The first `n` texts, with `sep` between them.
pub open spec fn joined(items: Seq<Seq<char>>, sep: Seq<char>, n: int) -> Seq<char>
    decreases n,
{
    if n <= 0 || n > items.len() {
        Seq::empty()
    } else if n == 1 {
        items[0]
    } else {
        joined(items, sep, n - 1) + sep + items[n - 1]
    }
}

/// The views of a list of texts.
pub open spec fn text_views(items: Seq<String>) -> Seq<Seq<char>> {
    items.map_values(|s: String| s@)
}

/// Joins texts with `sep` between them.
pub fn join_with(items: &Vec<String>, sep: &str) -> (r: String)
    ensures
        r@ == joined(text_views(items@), sep@, items@.len() as int),
{
    let ghost views = text_views(items@);
    let mut out = String::new();
    let mut i: usize = 0;
    while i < items.len()
        invariant
            i <= items@.len(),
            views == text_views(items@),
            out@ == joined(views, sep@, i as int),
        decreases items.len() - i,
    {
        assert(views[i as int] == items@[i as int]@);
        if i == 0 {
            out = items[i].clone();
        } else {
            out = join3(out.as_str(), sep, items[i].as_str());
        }
        i += 1;
    }
    out
}

/// What the tool that finds files answers: the paths of the files, the
/// newest first, one on a line; or that there are none.
pub open spec fn listing_of(found: Seq<(Seq<char>, u64)>) -> Seq<char> {
    if found.len() == 0 {
        "No files found"@
    } else {
        joined(
            newest_first(found, found.len() as int).map_values(|f: (Seq<char>, u64)| f.0),
            "\n"@,
            found.len() as int,
        )
    }
}

/// Puts the files in order, the newest first.
pub fn sort_newest_first(found: Vec<FoundFile>) -> (sorted: Vec<FoundFile>)
    ensures
        found_views(sorted@) == newest_first(found_views(found@), found@.len() as int),
{
    let ghost views = found_views(found@);
    let mut sorted: Vec<FoundFile> = Vec::new();
    let mut n: usize = 0;
    assert(found_views(sorted@) =~= newest_first(views, 0));
    while n < found.len()
        invariant
            n <= found@.len(),
            views == found_views(found@),
            found_views(sorted@) == newest_first(views, n as int),
        decreases found.len() - n,
    {
        proof {
            lemma_newest_first(views, n as int);
        }
        let ghost before = found_views(sorted@);
        let time = found[n].modified;
        assert(views[n as int] == (found@[n as int].path@, found@[n as int].modified));
        let mut at: usize = 0;
        while at < sorted.len() && sorted[at].modified >= time
            invariant
                at <= sorted@.len(),
                before == found_views(sorted@),
                place_of(before, time, at as int) == place_of(before, time, 0),
            decreases sorted.len() - at,
        {
            assert(before[at as int].1 == sorted@[at as int].modified);
            at += 1;
        }
        assert(place_of(before, time, 0) == at) by {
            if at < sorted@.len() {
                assert(before[at as int].1 == sorted@[at as int].modified);
            }
        }
        let item = FoundFile { path: found[n].path.clone(), modified: time };
        sorted.insert(at, item);
        assert(found_views(sorted@) =~= before.insert(at as int, views[n as int]));
        n += 1;
    }
    sorted
}

/// Reports the files that were found.
pub fn list_found(found: Vec<FoundFile>) -> (out: ToolOutput)
    ensures
        !out@.is_error,
        out@.content == seq![
            ToolOutputContentView::Text { text: listing_of(found_views(found@)) },
        ],
{
    if found.len() == 0 {
        return ToolOutput::text("No files found");
    }
    let ghost views = found_views(found@);
    let sorted = sort_newest_first(found);
    proof {
        lemma_newest_first(views, views.len() as int);
    }
    let mut paths: Vec<String> = Vec::new();
    let mut i: usize = 0;
    while i < sorted.len()
        invariant
            i <= sorted@.len(),
            paths@.len() == i,
            forall|k: int| 0 <= k < i ==> paths@[k]@ == sorted@[k].path@,
        decreases sorted.len() - i,
    {
        paths.push(sorted[i].path.clone());
        i += 1;
    }
    assert(text_views(paths@) =~= found_views(sorted@).map_values(|f: (Seq<char>, u64)| f.0));
    let text = join_with(&paths, "\n");
    ToolOutput::text(text.as_str())
}

/// The properties of the input of the tool that finds files.
pub open spec fn glob_properties() -> Seq<PropertyView> {
    seq![
        prop("pattern"@, "string"@, "Glob pattern (e.g. \"**/*.rs\", \"src/**/*.ts\")"@),
        prop("path"@, "string"@, "Directory to search in (defaults to cwd)"@),
    ]
}

/// What the tool announces of itself: its name, what it is for, and the
/// schema of its input.
pub open spec fn glob_definition_view() -> ToolDefinitionView {
    ToolDefinitionView {
        name: "Glob"@,
        description: "Find files matching a glob pattern. Results are sorted by modification time (newest first). Respects .gitignore."@,
        input_schema: input_schema(seq!["pattern"@], glob_properties()),
        cache_control: None,
    }
}

/// What the tool that finds files announces of itself.
pub fn glob_definition() -> (d: ToolDefinition)
    ensures
        d@ == glob_definition_view(),
{
    let mut required: Vec<&str> = Vec::new();
    required.push("pattern");
    let mut properties: Vec<Property> = Vec::new();
    properties.push(
        property("pattern", "string", "Glob pattern (e.g. \"**/*.rs\", \"src/**/*.ts\")"),
    );
    properties.push(property("path", "string", "Directory to search in (defaults to cwd)"));
    let schema = build_schema(&required, &properties);
    assert(names(required@) =~= seq!["pattern"@]);
    assert(property_views(properties@) =~= glob_properties());
    define(
        "Glob",
        "Find files matching a glob pattern. Results are sorted by modification time (newest first). Respects .gitignore.",
        schema,
    )
}

/// What the tool that searches lines is asked.
#[derive(Debug, Clone, PartialEq, Eq)]
pub struct GrepInput {
    pub pattern: String,
    pub path: Option<String>,
    pub output_mode: String,
    pub file_type: Option<String>,
    pub glob: Option<String>,
    pub head_limit: Option<u64>,
    pub context: Option<u64>,
    pub case_insensitive: bool,
}

/// A [`GrepInput`] with its texts as sequences.
pub struct GrepInputView {
    pub pattern: Seq<char>,
    pub path: Option<Seq<char>>,
    pub output_mode: Seq<char>,
    pub file_type: Option<Seq<char>>,
    pub glob: Option<Seq<char>>,
    pub head_limit: Option<u64>,
    pub context: Option<u64>,
    pub case_insensitive: bool,
}

impl View for GrepInput {
    type V = GrepInputView;

    open spec fn view(&self) -> GrepInputView {
        GrepInputView {
            pattern: self.pattern@,
            path: opt_text(self.path),
            output_mode: self.output_mode@,
            file_type: opt_text(self.file_type),
            glob: opt_text(self.glob),
            head_limit: self.head_limit,
            context: self.context,
            case_insensitive: self.case_insensitive,
        }
    }
}

/// The output mode that an input asks for: the one it names, or the
/// paths of the files with matches where it names none.
pub open spec fn mode_member(j: JsonView) -> Result<Seq<char>, Seq<char>> {
    match j.field("output_mode"@) {
        None => Ok("files_with_matches"@),
        Some(v) => match v.text() {
            Some(t) => Ok(t),
            None => Err(crate::tools::input::invalid_text("output_mode"@)),
        },
    }
}

/// The input that a JSON value stands for, or the message of the error
/// of the first member that is wrong.
pub open spec fn grep_input_of(j: JsonView) -> Result<GrepInputView, Seq<char>> {
    match text_member(j, "pattern"@) {
        Err(m) => Err(m),
        Ok(pattern) => match optional_text_member(j, "path"@) {
            Err(m) => Err(m),
            Ok(path) => match mode_member(j) {
                Err(m) => Err(m),
                Ok(output_mode) => match grep_filters_of(j) {
                    Err(m) => Err(m),
                    Ok(f) => Ok(GrepInputView { pattern, path, output_mode, ..f }),
                },
            },
        },
    }
}

/// The members of the input that narrow a search, the others left empty.
pub open spec fn grep_filters_of(j: JsonView) -> Result<GrepInputView, Seq<char>> {
    match optional_text_member(j, "type"@) {
        Err(m) => Err(m),
        Ok(file_type) => match optional_text_member(j, "glob"@) {
            Err(m) => Err(m),
            Ok(glob) => match count_member(j, "head_limit"@) {
                Err(m) => Err(m),
                Ok(head_limit) => match count_member(j, "context"@) {
                    Err(m) => Err(m),
                    Ok(context) => match flag_member(j, "-i"@) {
                        Err(m) => Err(m),
                        Ok(case_insensitive) => Ok(
                            GrepInputView {
                                pattern: Seq::empty(),
                                path: None,
                                output_mode: Seq::empty(),
                                file_type,
                                glob,
                                head_limit,
                                context,
                                case_insensitive,
                            },
                        ),
                    },
                },
            },
        },
    }
}

fn read_mode_member(j: &Json) -> (r: Result<String, ToolError>)
    ensures
        match r {
            Ok(t) => mode_member(j@) == Ok::<Seq<char>, Seq<char>>(t@),
            Err(e) => mode_member(j@) is Err && is_invalid_input(
                e,
                "Grep"@,
                mode_member(j@)->Err_0,
            ),
        },
{
    match j.get("output_mode") {
        None => Ok("files_with_matches".to_owned()),
        Some(v) => match v.as_str() {
            Some(t) => Ok(t.to_owned()),
            None => Err(
                ToolError::InvalidInput {
                    tool: "Grep".to_owned(),
                    message: join3("invalid type for field `", "output_mode", "`"),
                },
            ),
        },
    }
}

fn read_grep_filters(input: &Json) -> (r: Result<GrepInput, ToolError>)
    ensures
        match r {
            Ok(g) => grep_filters_of(input@) == Ok::<GrepInputView, Seq<char>>(g@),
            Err(e) => grep_filters_of(input@) is Err && is_invalid_input(
                e,
                "Grep"@,
                grep_filters_of(input@)->Err_0,
            ),
        },
{
    let file_type = match read_optional_text_member(input, "Grep", "type") {
        Ok(v) => v,
        Err(e) => {
            return Err(e);
        },
    };
    let glob = match read_optional_text_member(input, "Grep", "glob") {
        Ok(v) => v,
        Err(e) => {
            return Err(e);
        },
    };
    let head_limit = match read_count_member(input, "Grep", "head_limit") {
        Ok(v) => v,
        Err(e) => {
            return Err(e);
        },
    };
    let context = match read_count_member(input, "Grep", "context") {
        Ok(v) => v,
        Err(e) => {
            return Err(e);
        },
    };
    let case_insensitive = match read_flag_member(input, "Grep", "-i") {
        Ok(v) => v,
        Err(e) => {
            return Err(e);
        },
    };
    Ok(
        GrepInput {
            pattern: String::new(),
            path: None,
            output_mode: String::new(),
            file_type,
            glob,
            head_limit,
            context,
            case_insensitive,
        },
    )
}

/// Reads the input of a call of the tool that searches lines.
pub fn decode_grep_input(input: &Json) -> (r: Result<GrepInput, ToolError>)
    ensures
        match r {
            Ok(g) => grep_input_of(input@) == Ok::<GrepInputView, Seq<char>>(g@),
            Err(e) => grep_input_of(input@) is Err && is_invalid_input(
                e,
                "Grep"@,
                grep_input_of(input@)->Err_0,
            ),
        },
{
    let pattern = match read_text_member(input, "Grep", "pattern") {
        Ok(p) => p,
        Err(e) => {
            return Err(e);
        },
    };
    let path = match read_optional_text_member(input, "Grep", "path") {
        Ok(p) => p,
        Err(e) => {
            return Err(e);
        },
    };
    let output_mode = match read_mode_member(input) {
        Ok(m) => m,
        Err(e) => {
            return Err(e);
        },
    };
    let filters = match read_grep_filters(input) {
        Ok(f) => f,
        Err(e) => {
            return Err(e);
        },
    };
    Ok(
        GrepInput {
            pattern,
            path,
            output_mode,
            file_type: filters.file_type,
            glob: filters.glob,
            head_limit: filters.head_limit,
            context: filters.context,
            case_insensitive: filters.case_insensitive,
        },
    )
}

/// A line that matched, and its number in its file.
#[derive(Debug, Clone, PartialEq, Eq)]
pub struct LineMatch {
    pub line_number: u64,
    pub line: String,
}

/// The numbers and texts of a list of matches.
pub open spec fn match_views(matches: Seq<LineMatch>) -> Seq<(u64, Seq<char>)> {
    matches.map_values(|m: LineMatch| (m.line_number, m.line@))
}

/// A text without the white space that trails it.
pub open spec fn trimmed_end(s: Seq<char>) -> Seq<char> {
    let to = skip_left(s, s.len() as int, true);
    if to <= 0 {
        Seq::empty()
    } else {
        s.subrange(0, to)
    }
}

/// The text of `s` without the white space that trails it.
pub fn trim_end(s: &str) -> (r: String)
    ensures
        r@ == trimmed_end(s@),
{
    let chars = chars_of(s);
    let n: usize = chars.len();
    let mut to: usize = n;
    while to > 0 && char_is_whitespace(chars[to - 1])
        invariant
            to <= n,
            n == chars@.len(),
            skip_left(chars@, to as int, true) == skip_left(chars@, n as int, true),
        decreases to,
    {
        to -= 1;
    }
    if to == 0 {
        String::new()
    } else {
        string_from_chars(slice_subrange(chars.as_slice(), 0, to))
    }
}

/// The line that reports one match: the path, the number of the line,
/// and the line without the white space that trails it.
pub open spec fn match_line(path: Seq<char>, m: (u64, Seq<char>)) -> Seq<char> {
    path + ":"@ + decimal(m.0 as nat) + ":"@ + trimmed_end(m.1)
}

/// What is reported of one file. Where the paths of the files with
/// matches are asked for: the path, if a line matched. Where counts are
/// asked for: the path and the number of matches, if there are any. In
/// every other mode: a line for each match.
pub open spec fn file_report(mode: Seq<char>, path: Seq<char>, matches: Seq<(u64, Seq<char>)>) -> Seq<
    Seq<char>,
> {
    if mode == "files_with_matches"@ {
        if matches.len() > 0 {
            seq![path]
        } else {
            Seq::empty()
        }
    } else if mode == "count"@ {
        if matches.len() > 0 {
            seq![path + ":"@ + decimal(matches.len())]
        } else {
            Seq::empty()
        }
    } else {
        matches.map_values(|m: (u64, Seq<char>)| match_line(path, m))
    }
}

/// Adds to `results` what is reported of one file.
pub fn report_file(mode: &str, path: &str, matches: &[LineMatch], results: &mut Vec<String>)
    ensures
        text_views(final(results)@) == text_views(old(results)@) + file_report(
            mode@,
            path@,
            match_views(matches@),
        ),
{
    let ghost before = text_views(results@);
    let ghost views = match_views(matches@);
    if str_eq(mode, "files_with_matches") {
        if matches.len() > 0 {
            results.push(path.to_owned());
            assert(text_views(results@) =~= before + seq![path@]);
        } else {
            assert(text_views(results@) =~= before + Seq::<Seq<char>>::empty());
        }
    } else if str_eq(mode, "count") {
        if matches.len() > 0 {
            let line = join3(path, ":", u64_to_string(matches.len() as u64).as_str());
            results.push(line);
            assert(text_views(results@) =~= before + seq![
                path@ + ":"@ + decimal(views.len()),
            ]);
        } else {
            assert(text_views(results@) =~= before + Seq::<Seq<char>>::empty());
        }
    } else {
        let mut i: usize = 0;
        assert(text_views(results@) =~= before + file_report(mode@, path@, views).take(0));
        while i < matches.len()
            invariant
                i <= matches@.len(),
                views == match_views(matches@),
                mode@ != "files_with_matches"@,
                mode@ != "count"@,
                text_views(results@) == before + file_report(mode@, path@, views).take(i as int),
            decreases matches.len() - i,
        {
            let ghost so_far = text_views(results@);
            let m = &matches[i];
            assert(views[i as int] == (m.line_number, m.line@));
            let head = join3(path, ":", u64_to_string(m.line_number).as_str());
            let line = join3(head.as_str(), ":", trim_end(m.line.as_str()).as_str());
            assert(line@ =~= match_line(path@, views[i as int]));
            results.push(line);
            proof {
                let report = file_report(mode@, path@, views);
                assert(report.len() == views.len());
                assert(report[i as int] == match_line(path@, views[i as int]));
                assert(report.take(i + 1) =~= report.take(i as int).push(report[i as int]));
                assert(text_views(results@) =~= so_far.push(line@));
            }
            i += 1;
            assert(text_views(results@) =~= before + file_report(mode@, path@, views).take(
                i as int,
            ));
        }
        assert(file_report(mode@, path@, views).take(i as int) =~= file_report(
            mode@,
            path@,
            views,
        ));
    }
}

/// True when the search has found as much as was asked for: a limit of
/// zero is none.
pub open spec fn limit_reached(head_limit: u64, found: int) -> bool {
    head_limit > 0 && found >= head_limit
}

/// The results within the limit.
pub open spec fn within_limit(results: Seq<Seq<char>>, head_limit: u64) -> Seq<Seq<char>> {
    if limit_reached(head_limit, results.len() as int) {
        results.take(head_limit as int)
    } else {
        results
    }
}

/// Cuts the results to the limit, and tells whether the search is done.
pub fn apply_limit(results: &mut Vec<String>, head_limit: u64) -> (done: bool)
    ensures
        done == limit_reached(head_limit, old(results)@.len() as int),
        text_views(final(results)@) == within_limit(text_views(old(results)@), head_limit),
{
    if head_limit > 0 && results.len() as u64 >= head_limit {
        results.truncate(head_limit as usize);
        assert(text_views(results@) =~= text_views(old(results)@).take(head_limit as int));
        true
    } else {
        false
    }
}

/// What the tool that searches lines answers: the results, one on a
/// line; or that there are none.
pub open spec fn grep_answer(results: Seq<Seq<char>>) -> Seq<char> {
    let text = joined(results, "\n"@, results.len() as int);
    if text.len() == 0 {
        "No matches found"@
    } else {
        text
    }
}

/// Reports the results of a search.
pub fn grep_output(results: &Vec<String>) -> (out: ToolOutput)
    ensures
        !out@.is_error,
        out@.content == seq![
            ToolOutputContentView::Text { text: grep_answer(text_views(results@)) },
        ],
{
    let text = join_with(results, "\n");
    if text.unicode_len() == 0 {
        ToolOutput::text("No matches found")
    } else {
        ToolOutput::text(text.as_str())
    }
}

/// The properties of the input of the tool that searches lines.
pub open spec fn grep_properties() -> Seq<PropertyView> {
    seq![
        prop("pattern"@, "string"@, "Regex pattern to search for"@),
        prop("path"@, "string"@, "File or directory to search in (defaults to cwd)"@),
        choice(
            "output_mode"@,
            "string"@,
            seq!["content"@, "files_with_matches"@, "count"@],
            "Output mode (default: files_with_matches)"@,
        ),
        prop("glob"@, "string"@, "Glob pattern to filter files (e.g. \"*.rs\")"@),
        prop("head_limit"@, "integer"@, "Limit output to first N results"@),
        prop("context"@, "integer"@, "Lines of context around matches (for content mode)"@),
        prop("-i"@, "boolean"@, "Case-insensitive search"@),
    ]
}

/// What the tool announces of itself: its name, what it is for, and the
/// schema of its input.
pub open spec fn grep_definition_view() -> ToolDefinitionView {
    ToolDefinitionView {
        name: "Grep"@,
        description: "Search file contents using regex patterns. Supports output modes: 'content' (matching lines), 'files_with_matches' (file paths only), 'count' (match counts). Defaults to 'files_with_matches'."@,
        input_schema: input_schema(seq!["pattern"@], grep_properties()),
        cache_control: None,
    }
}

/// What the tool that searches lines announces of itself.
pub fn grep_definition() -> (d: ToolDefinition)
    ensures
        d@ == grep_definition_view(),
{
    let mut required: Vec<&str> = Vec::new();
    required.push("pattern");
    let mut modes: Vec<&str> = Vec::new();
    modes.push("content");
    modes.push("files_with_matches");
    modes.push("count");
    assert(names(modes@) =~= seq!["content"@, "files_with_matches"@, "count"@]);
    let mut properties: Vec<Property> = Vec::new();
    properties.push(property("pattern", "string", "Regex pattern to search for"));
    properties.push(
        property("path", "string", "File or directory to search in (defaults to cwd)"),
    );
    properties.push(
        choice_property(
            "output_mode",
            "string",
            &modes,
            "Output mode (default: files_with_matches)",
        ),
    );
    properties.push(property("glob", "string", "Glob pattern to filter files (e.g. \"*.rs\")"));
    properties.push(property("head_limit", "integer", "Limit output to first N results"));
    properties.push(
        property("context", "integer", "Lines of context around matches (for content mode)"),
    );
    properties.push(property("-i", "boolean", "Case-insensitive search"));
    let schema = build_schema(&required, &properties);
    assert(names(required@) =~= seq!["pattern"@]);
    assert(property_views(properties@) =~= grep_properties());
    define(
        "Grep",
        "Search file contents using regex patterns. Supports output modes: 'content' (matching lines), 'files_with_matches' (file paths only), 'count' (match counts). Defaults to 'files_with_matches'.",
        schema,
    )
}

} // verus!
