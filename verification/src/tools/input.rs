//! Reading the input of a tool call, and writing the schema of it.

use crate::error::ToolError;
use crate::json::{Json, JsonView};
use crate::message::{ToolDefinition, ToolDefinitionView};
use crate::stream::present;
use crate::text::{join3};
use vstd::prelude::*;
use vstd::string::*;

verus! {

/// The message of the error for a member that is not there.
pub open spec fn missing_text(key: Seq<char>) -> Seq<char> {
    "missing field `"@ + key + "`"@
}

/// The message of the error for a member of the wrong kind.
pub open spec fn invalid_text(key: Seq<char>) -> Seq<char> {
    "invalid type for field `"@ + key + "`"@
}

/// True when `e` is the error of the tool `tool` for the input message
/// `message`.
pub open spec fn is_invalid_input(e: ToolError, tool: Seq<char>, message: Seq<char>) -> bool {
    e matches ToolError::InvalidInput { tool: t, message: m } && t@ == tool && m@ == message
}

/// What reading the text member `key` gives: the text, or the message of
/// the error where the member is missing or no string.
pub open spec fn text_member(j: JsonView, key: Seq<char>) -> Result<Seq<char>, Seq<char>> {
    match j.field(key) {
        None => Err(missing_text(key)),
        Some(v) => match v.text() {
            Some(t) => Ok(t),
            None => Err(invalid_text(key)),
        },
    }
}

/// What reading the optional count `key` gives: none where the member is
/// missing or `null`, the count where it is a non-negative integer, and
/// the message of the error otherwise.
pub open spec fn count_member(j: JsonView, key: Seq<char>) -> Result<Option<u64>, Seq<char>> {
    match present(j, key) {
        None => Ok(None),
        Some(v) => match v.unsigned() {
            Some(n) => Ok(Some(n)),
            None => Err(invalid_text(key)),
        },
    }
}

/// What reading the flag `key` gives: false where the member is missing,
/// its value where it is a boolean, and the message of the error
/// otherwise.
pub open spec fn flag_member(j: JsonView, key: Seq<char>) -> Result<bool, Seq<char>> {
    match j.field(key) {
        None => Ok(false),
        Some(v) => match v.boolean() {
            Some(b) => Ok(b),
            None => Err(invalid_text(key)),
        },
    }
}

/// The error of the tool `tool` for an input that lacks the member `key`
/// or holds it in the wrong kind.
fn input_error(tool: &str, head: &str, key: &str) -> (e: ToolError)
    ensures
        is_invalid_input(e, tool@, head@ + key@ + "`"@),
{
    ToolError::InvalidInput { tool: tool.to_owned(), message: join3(head, key, "`") }
}

/// Reads a text member that must be there.
pub fn read_text_member(j: &Json, tool: &str, key: &str) -> (r: Result<String, ToolError>)
    ensures
        match r {
            Ok(t) => text_member(j@, key@) == Ok::<Seq<char>, Seq<char>>(t@),
            Err(e) => text_member(j@, key@) is Err && is_invalid_input(
                e,
                tool@,
                text_member(j@, key@)->Err_0,
            ),
        },
{
    match j.get(key) {
        None => Err(input_error(tool, "missing field `", key)),
        Some(v) => match v.as_str() {
            Some(t) => Ok(t.to_owned()),
            None => Err(input_error(tool, "invalid type for field `", key)),
        },
    }
}

/// Reads a count that may be missing.
pub fn read_count_member(j: &Json, tool: &str, key: &str) -> (r: Result<Option<u64>, ToolError>)
    ensures
        match r {
            Ok(n) => count_member(j@, key@) == Ok::<Option<u64>, Seq<char>>(n),
            Err(e) => count_member(j@, key@) is Err && is_invalid_input(
                e,
                tool@,
                count_member(j@, key@)->Err_0,
            ),
        },
{
    match j.get(key) {
        None => Ok(None),
        Some(v) => if v.is_null() {
            Ok(None)
        } else {
            match v.as_u64() {
                Some(n) => Ok(Some(n)),
                None => Err(input_error(tool, "invalid type for field `", key)),
            }
        },
    }
}

/// Reads a flag that is false where it is missing.
pub fn read_flag_member(j: &Json, tool: &str, key: &str) -> (r: Result<bool, ToolError>)
    ensures
        match r {
            Ok(b) => flag_member(j@, key@) == Ok::<bool, Seq<char>>(b),
            Err(e) => flag_member(j@, key@) is Err && is_invalid_input(
                e,
                tool@,
                flag_member(j@, key@)->Err_0,
            ),
        },
{
    match j.get(key) {
        None => Ok(false),
        Some(v) => match v.as_bool() {
            Some(b) => Ok(b),
            None => Err(input_error(tool, "invalid type for field `", key)),
        },
    }
}

/// What reading the optional text `key` gives: none where the member is
/// missing or `null`, the text where it is a string, and the message of
/// the error otherwise.
pub open spec fn optional_text_member(j: JsonView, key: Seq<char>) -> Result<
    Option<Seq<char>>,
    Seq<char>,
> {
    match present(j, key) {
        None => Ok(None),
        Some(v) => match v.text() {
            Some(t) => Ok(Some(t)),
            None => Err(invalid_text(key)),
        },
    }
}

/// Reads a text that may be missing.
pub fn read_optional_text_member(j: &Json, tool: &str, key: &str) -> (r: Result<
    Option<String>,
    ToolError,
>)
    ensures
        match r {
            Ok(t) => optional_text_member(j@, key@) == Ok::<Option<Seq<char>>, Seq<char>>(
                crate::message::opt_text(t),
            ),
            Err(e) => optional_text_member(j@, key@) is Err && is_invalid_input(
                e,
                tool@,
                optional_text_member(j@, key@)->Err_0,
            ),
        },
{
    match j.get(key) {
        None => Ok(None),
        Some(v) => if v.is_null() {
            Ok(None)
        } else {
            match v.as_str() {
                Some(t) => Ok(Some(t.to_owned())),
                None => Err(input_error(tool, "invalid type for field `", key)),
            }
        },
    }
}

/// A property of an input schema: its name, its JSON type, the values
/// that it may take where they are few, and what it is for.
#[derive(Debug, Clone)]
pub struct Property {
    pub name: String,
    pub kind: String,
    pub choices: Vec<String>,
    pub description: String,
}

/// A [`Property`] with its texts as sequences.
pub struct PropertyView {
    pub name: Seq<char>,
    pub kind: Seq<char>,
    pub choices: Seq<Seq<char>>,
    pub description: Seq<char>,
}

impl View for Property {
    type V = PropertyView;

    open spec fn view(&self) -> PropertyView {
        PropertyView {
            name: self.name@,
            kind: self.kind@,
            choices: self.choices@.map_values(|c: String| c@),
            description: self.description@,
        }
    }
}

/// The views of a list of properties.
pub open spec fn property_views(properties: Seq<Property>) -> Seq<PropertyView> {
    properties.map_values(|p: Property| p@)
}

/// A property that may take any value of its type.
pub open spec fn prop(name: Seq<char>, kind: Seq<char>, description: Seq<char>) -> PropertyView {
    PropertyView { name, kind, choices: Seq::empty(), description }
}

/// A property that takes one of the given values.
pub open spec fn choice(
    name: Seq<char>,
    kind: Seq<char>,
    choices: Seq<Seq<char>>,
    description: Seq<char>,
) -> PropertyView {
    PropertyView { name, kind, choices, description }
}

/// The schema of one property: its type, the values it may take where
/// they are named, and its description.
pub open spec fn property_schema(p: PropertyView) -> JsonView {
    if p.choices.len() == 0 {
        JsonView::Object(
            seq![
                ("type"@, JsonView::String(p.kind)),
                ("description"@, JsonView::String(p.description)),
            ],
        )
    } else {
        JsonView::Object(
            seq![
                ("type"@, JsonView::String(p.kind)),
                ("enum"@, JsonView::Array(p.choices.map_values(|c| JsonView::String(c)))),
                ("description"@, JsonView::String(p.description)),
            ],
        )
    }
}

/// The schema of the input of a tool: an object with the given
/// properties, of which the required ones are named.
pub open spec fn input_schema(required: Seq<Seq<char>>, properties: Seq<PropertyView>) -> JsonView {
    JsonView::Object(
        seq![
            ("type"@, JsonView::String("object"@)),
            ("required"@, JsonView::Array(required.map_values(|n| JsonView::String(n)))),
            (
                "properties"@,
                JsonView::Object(
                    properties.map_values(|p: PropertyView| (p.name, property_schema(p))),
                ),
            ),
        ],
    )
}

/// The views of a list of names.
pub open spec fn names(words: Seq<&str>) -> Seq<Seq<char>> {
    words.map_values(|w: &str| w@)
}

/// A property of an input schema.
pub fn property(name: &str, kind: &str, description: &str) -> (p: Property)
    ensures
        p@ == prop(name@, kind@, description@),
{
    let p = Property {
        name: name.to_owned(),
        kind: kind.to_owned(),
        choices: Vec::new(),
        description: description.to_owned(),
    };
    assert(p@.choices =~= Seq::empty());
    p
}

/// A property that takes one of the given values.
pub fn choice_property(name: &str, kind: &str, choices: &Vec<&str>, description: &str) -> (p:
    Property)
    ensures
        p@ == choice(name@, kind@, names(choices@), description@),
{
    let mut owned: Vec<String> = Vec::new();
    let mut i: usize = 0;
    while i < choices.len()
        invariant
            i <= choices@.len(),
            owned@.len() == i,
            forall|k: int| 0 <= k < i ==> owned@[k]@ == choices@[k]@,
        decreases choices.len() - i,
    {
        owned.push(choices[i].to_owned());
        i += 1;
    }
    let p = Property {
        name: name.to_owned(),
        kind: kind.to_owned(),
        choices: owned,
        description: description.to_owned(),
    };
    assert(p@.choices =~= names(choices@));
    p
}

/// A list of texts as a JSON array of strings.
fn text_array(words: &Vec<String>) -> (j: Json)
    ensures
        j@ == JsonView::Array(words@.map_values(|c: String| c@).map_values(|c| JsonView::String(c))),
{
    let mut items: Vec<Json> = Vec::new();
    let mut i: usize = 0;
    while i < words.len()
        invariant
            i <= words@.len(),
            items@.len() == i,
            forall|k: int| 0 <= k < i ==> items@[k]@ == JsonView::String(words@[k]@),
        decreases words.len() - i,
    {
        items.push(Json::text(words[i].as_str()));
        i += 1;
    }
    let j = Json::array(items);
    assert(j@->Array_0 =~= words@.map_values(|c: String| c@).map_values(
        |c| JsonView::String(c),
    ));
    j
}

/// Writes the schema of one property.
fn build_property(p: &Property) -> (j: Json)
    ensures
        j@ == property_schema(p@),
{
    let mut parts: Vec<(String, Json)> = Vec::new();
    parts.push(("type".to_owned(), Json::text(p.kind.as_str())));
    if p.choices.len() > 0 {
        parts.push(("enum".to_owned(), text_array(&p.choices)));
    }
    parts.push(("description".to_owned(), Json::text(p.description.as_str())));
    let j = Json::object(parts);
    assert(j@->Object_0 =~= property_schema(p@)->Object_0);
    j
}

/// Writes the schema of the input of a tool.
pub fn build_schema(required: &Vec<&str>, properties: &Vec<Property>) -> (j: Json)
    ensures
        j@ == input_schema(names(required@), property_views(properties@)),
{
    let mut wanted: Vec<Json> = Vec::new();
    let mut i: usize = 0;
    while i < required.len()
        invariant
            i <= required@.len(),
            wanted@.len() == i,
            forall|k: int| 0 <= k < i ==> wanted@[k]@ == JsonView::String(required@[k]@),
        decreases required.len() - i,
    {
        wanted.push(Json::text(required[i]));
        i += 1;
    }
    let wanted = Json::array(wanted);
    assert(wanted@->Array_0 =~= names(required@).map_values(|n| JsonView::String(n)));
    let mut members: Vec<(String, Json)> = Vec::new();
    let mut k: usize = 0;
    while k < properties.len()
        invariant
            k <= properties@.len(),
            members@.len() == k,
            forall|m: int|
                0 <= m < k ==> members@[m].0@ == properties@[m].name@ && members@[m].1@
                    == property_schema(properties@[m]@),
        decreases properties.len() - k,
    {
        let p = &properties[k];
        let schema = build_property(p);
        members.push((p.name.clone(), schema));
        k += 1;
    }
    let described = Json::object(members);
    assert(described@->Object_0 =~= property_views(properties@).map_values(
        |p: PropertyView| (p.name, property_schema(p)),
    ));
    let mut top: Vec<(String, Json)> = Vec::new();
    top.push(("type".to_owned(), Json::text("object")));
    top.push(("required".to_owned(), wanted));
    top.push(("properties".to_owned(), described));
    let j = Json::object(top);
    assert(j@->Object_0 =~= input_schema(names(required@), property_views(properties@))->Object_0);
    j
}

/// The definition of a tool with the given name, description and schema,
/// without a cache marker.
pub fn define(name: &str, description: &str, schema: Json) -> (d: ToolDefinition)
    ensures
        d@ == (ToolDefinitionView {
            name: name@,
            description: description@,
            input_schema: schema@,
            cache_control: None,
        }),
{
    ToolDefinition {
        name: name.to_owned(),
        description: description.to_owned(),
        input_schema: schema,
        cache_control: None,
    }
}

} // verus!
