//! What a tool receives and what it hands back.

use crate::message::{ImageSource, ImageSourceView};
use vstd::prelude::*;
use vstd::string::*;

verus! {

/// The surroundings in which a tool runs: working directory, environment
/// variables as name and value, and whether it runs in a sandbox.
#[derive(Debug, Clone)]
pub struct ToolContext {
    pub cwd: String,
    pub env: Vec<(String, String)>,
    pub sandboxed: bool,
}

/// One item of a tool's output.
#[derive(Debug, Clone)]
pub enum ToolOutputContent {
    Text { text: String },
    Image { source: ImageSource },
}

pub enum ToolOutputContentView {
    Text { text: Seq<char> },
    Image { source: ImageSourceView },
}

impl View for ToolOutputContent {
    type V = ToolOutputContentView;

    open spec fn view(&self) -> ToolOutputContentView {
        match self {
            ToolOutputContent::Text { text } => ToolOutputContentView::Text { text: text@ },
            ToolOutputContent::Image { source } => ToolOutputContentView::Image {
                source: source@,
            },
        }
    }
}

/// What a tool hands back: its output items, and whether it failed.
#[derive(Debug, Clone)]
pub struct ToolOutput {
    pub content: Vec<ToolOutputContent>,
    pub is_error: bool,
}

pub struct ToolOutputView {
    pub content: Seq<ToolOutputContentView>,
    pub is_error: bool,
}

/// The views of a run of output items.
pub open spec fn output_items(items: Seq<ToolOutputContent>) -> Seq<ToolOutputContentView> {
    items.map_values(|c: ToolOutputContent| c@)
}

impl View for ToolOutput {
    type V = ToolOutputView;

    open spec fn view(&self) -> ToolOutputView {
        ToolOutputView { content: output_items(self.content@), is_error: self.is_error }
    }
}

impl ToolOutput {
    /// The output of a tool that succeeded with the single text `text`.
    pub fn text(text: &str) -> (out: Self)
        ensures
            out@.content == seq![ToolOutputContentView::Text { text: text@ }],
            !out@.is_error,
    {
        let mut content: Vec<ToolOutputContent> = Vec::new();
        content.push(ToolOutputContent::Text { text: text.to_owned() });
        let out = ToolOutput { content, is_error: false };
        assert(out@.content =~= seq![ToolOutputContentView::Text { text: text@ }]);
        out
    }

    /// The output of a tool that failed with the single text `text`.
    pub fn error(text: &str) -> (out: Self)
        ensures
            out@.content == seq![ToolOutputContentView::Text { text: text@ }],
            out@.is_error,
    {
        let mut content: Vec<ToolOutputContent> = Vec::new();
        content.push(ToolOutputContent::Text { text: text.to_owned() });
        let out = ToolOutput { content, is_error: true };
        assert(out@.content =~= seq![ToolOutputContentView::Text { text: text@ }]);
        out
    }
}

} // verus!
