//! The tool that writes a file.

use crate::error::ToolError;
use crate::json::{Json, JsonView};
use crate::message::{ToolDefinition, ToolDefinitionView};
use crate::text::{decimal, join4, u64_to_string};
use crate::tools::input::{prop, property_views, PropertyView, 
    build_schema, define, input_schema, is_invalid_input, names, property, read_text_member,
    text_member, Property,
};
use vstd::prelude::*;
use vstd::string::*;

verus! {

/// What the tool is asked to do: write `content` to the file at
/// `file_path`.
#[derive(Debug, Clone, PartialEq, Eq)]
pub struct WriteInput {
    pub file_path: String,
    pub content: String,
}

/// The input that a JSON value stands for, or the message of the error
/// for the first member that is missing or no string.
pub open spec fn write_input_of(j: JsonView) -> Result<(Seq<char>, Seq<char>), Seq<char>> {
    match text_member(j, "file_path"@) {
        Err(m) => Err(m),
        Ok(path) => match text_member(j, "content"@) {
            Err(m) => Err(m),
            Ok(content) => Ok((path, content)),
        },
    }
}

/// Reads the input of a call.
pub fn decode_write_input(input: &Json) -> (r: Result<WriteInput, ToolError>)
    ensures
        match r {
            Ok(w) => write_input_of(input@) == Ok::<(Seq<char>, Seq<char>), Seq<char>>(
                (w.file_path@, w.content@),
            ),
            Err(e) => write_input_of(input@) is Err && is_invalid_input(
                e,
                "Write"@,
                write_input_of(input@)->Err_0,
            ),
        },
{
    let file_path = match read_text_member(input, "Write", "file_path") {
        Ok(p) => p,
        Err(e) => {
            return Err(e);
        },
    };
    let content = match read_text_member(input, "Write", "content") {
        Ok(c) => c,
        Err(e) => {
            return Err(e);
        },
    };
    Ok(WriteInput { file_path, content })
}

/// The message after `bytes` bytes were written to `file_path`.
pub open spec fn write_message(bytes: nat, file_path: Seq<char>) -> Seq<char> {
    "Successfully wrote "@ + decimal(bytes) + " bytes to "@ + file_path
}

/// Words the message of a successful write.
pub fn write_success(bytes: usize, file_path: &str) -> (m: String)
    ensures
        m@ == write_message(bytes as nat, file_path@),
{
    join4("Successfully wrote ", u64_to_string(bytes as u64).as_str(), " bytes to ", file_path)
}

/// The properties of the input of the tool.
pub open spec fn write_properties() -> Seq<PropertyView> {
    seq![
        prop("file_path"@, "string"@, "Absolute path to the file to write"@),
        prop("content"@, "string"@, "The content to write to the file"@),
    ]
}

/// What the tool announces of itself: its name, what it is for, and the
/// schema of its input.
pub open spec fn write_definition_view() -> ToolDefinitionView {
    ToolDefinitionView {
        name: "Write"@,
        description: "Write content to a file. Creates the file and any parent directories if they don't exist. Overwrites existing files."@,
        input_schema: input_schema(seq!["file_path"@, "content"@], write_properties()),
        cache_control: None,
    }
}

/// What the tool announces of itself.
pub fn write_definition() -> (d: ToolDefinition)
    ensures
        d@ == write_definition_view(),
{
    let mut required: Vec<&str> = Vec::new();
    required.push("file_path");
    required.push("content");
    let mut properties: Vec<Property> = Vec::new();
    properties.push(property("file_path", "string", "Absolute path to the file to write"));
    properties.push(property("content", "string", "The content to write to the file"));
    let schema = build_schema(&required, &properties);
    assert(names(required@) =~= seq!["file_path"@, "content"@]);
    assert(property_views(properties@) =~= write_properties());
    define(
        "Write",
        "Write content to a file. Creates the file and any parent directories if they don't exist. Overwrites existing files.",
        schema,
    )
}

} // verus!
