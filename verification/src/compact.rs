//! Compaction of a long conversation: the older part is replaced by a
//! summary of what happened in it, and the whole is kept as an archive.

use crate::json::json_text;
use crate::message::{
    blocks, result_items, transcript, ContentBlock, ContentBlockView, Message, MessageView, Role,
    ToolResultContent, ToolResultContentView,
};
use crate::text::{join2, join3, str_eq};
use crate::util::{byte_len, truncate_str, truncated};
use vstd::prelude::*;
use vstd::string::*;
use vstd::utf8::*;

verus! {

/// The shortest conversation that is compacted.
pub const MIN_MESSAGES_FOR_COMPACTION: usize = 12;

/// The number of recent user turns that stay as they are.
pub const KEEP_RECENT_TURNS: usize = 5;

/// What compaction yields: the archive of the whole conversation, the new
/// conversation, and the number of messages that the summary replaces.
#[derive(Debug, Clone)]
pub struct CompactionResult {
    pub archive_markdown: String,
    pub new_messages: Vec<Message>,
    pub messages_removed: usize,
}

/// The index of the `k`-th user message, counted back from `to`; -1 where
/// there are fewer.
pub open spec fn user_back(messages: Seq<MessageView>, to: int, k: int) -> int
    decreases to,
{
    if to <= 0 || k <= 0 {
        -1
    } else if messages[to - 1].role == Role::User {
        if k == 1 {
            to - 1
        } else {
            user_back(messages, to - 1, k - 1)
        }
    } else {
        user_back(messages, to - 1, k)
    }
}

/// The index at which the conversation is split: that of the user message
/// that begins the last `KEEP_RECENT_TURNS` turns. Zero where there are
/// not so many turns, or nothing before them.
pub open spec fn split_point(messages: Seq<MessageView>) -> int {
    let i = user_back(messages, messages.len() as int, KEEP_RECENT_TURNS as int);
    if i <= 0 {
        0
    } else {
        i
    }
}

/// Finds the index at which the conversation is split.
pub fn find_split_point(messages: &[Message]) -> (split: usize)
    ensures
        split == split_point(transcript(messages@)),
        split < messages@.len() || split == 0,
{
    let mut i: usize = messages.len();
    let mut wanted: usize = KEEP_RECENT_TURNS;
    while i > 0
        invariant
            i <= messages@.len(),
            1 <= wanted <= KEEP_RECENT_TURNS,
            user_back(transcript(messages@), i as int, wanted as int) == user_back(
                transcript(messages@),
                messages@.len() as int,
                KEEP_RECENT_TURNS as int,
            ),
        decreases i,
    {
        assert(transcript(messages@)[i - 1] == messages@[i - 1]@);
        if messages[i - 1].role == Role::User {
            if wanted == 1 {
                return i - 1;
            }
            wanted -= 1;
        }
        i -= 1;
    }
    0
}

/// The text `text` where it has at most `limit` bytes; else its first
/// `keep` bytes, cut on a character, and an ellipsis.
pub open spec fn shortened(text: Seq<char>, limit: int, keep: int) -> Seq<char> {
    if encode_utf8(text).len() > limit {
        truncated(text, keep) + "..."@
    } else {
        text
    }
}

/// Shortens a text for the summary.
pub fn shorten(text: &str, limit: usize, keep: usize) -> (r: String)
    ensures
        r@ == shortened(text@, limit as int, keep as int),
{
    if byte_len(text) > limit {
        join2(truncate_str(text, keep), "...")
    } else {
        text.to_owned()
    }
}

/// What was gathered from the older messages.
pub struct Gathered {
    pub commands: Seq<Seq<char>>,
    pub tools: Seq<Seq<char>>,
    pub files_read: Seq<Seq<char>>,
    pub files_written: Seq<Seq<char>>,
    pub errors: Seq<Seq<char>>,
}

/// `list` with `item` added behind, unless it is in the list already.
pub open spec fn with_once(list: Seq<Seq<char>>, item: Seq<char>) -> Seq<Seq<char>> {
    if list.contains(item) {
        list
    } else {
        list.push(item)
    }
}

/// True for the tools that read the file they name.
pub open spec fn reads_file(tool: Seq<char>) -> bool {
    tool == "Read"@ || tool == "Glob"@ || tool == "Grep"@
}

/// True for the tools that change the file they name.
pub open spec fn writes_file(tool: Seq<char>) -> bool {
    tool == "Write"@ || tool == "Edit"@
}

/// The errors after the first `n` items of a failed tool result have been
/// gone through: each text adds one, shortened.
pub open spec fn errors_after(errors: Seq<Seq<char>>, items: Seq<ToolResultContentView>, n: int) -> Seq<
    Seq<char>,
>
    decreases n,
{
    if n <= 0 {
        errors
    } else {
        let before = errors_after(errors, items, n - 1);
        match items[n - 1] {
            ToolResultContentView::Text { text } => before.push(shortened(text, 100, 97)),
            _ => before,
        }
    }
}

/// What is gathered after one more block. A tool call adds its tool, the
/// file that it reads or changes, and, for the shell, its command. A
/// failed tool result adds its texts as errors.
pub open spec fn gather_block(g: Gathered, b: ContentBlockView) -> Gathered {
    match b {
        ContentBlockView::ToolUse { name, input, .. } => {
            let path = input.text_field("file_path"@);
            let command = input.text_field("command"@);
            Gathered {
                tools: with_once(g.tools, name),
                files_read: if path is Some && reads_file(name) {
                    with_once(g.files_read, path->0)
                } else {
                    g.files_read
                },
                files_written: if path is Some && !reads_file(name) && writes_file(name) {
                    with_once(g.files_written, path->0)
                } else {
                    g.files_written
                },
                commands: if name == "Bash"@ && command is Some {
                    g.commands.push("Ran command: `"@ + shortened(command->0, 60, 57) + "`"@)
                } else {
                    g.commands
                },
                errors: g.errors,
            }
        },
        ContentBlockView::ToolResult { content, is_error, .. } => if is_error == Some(true) {
            Gathered { errors: errors_after(g.errors, content, content.len() as int), ..g }
        } else {
            g
        },
        _ => g,
    }
}

/// What is gathered after the first `n` blocks of a message.
pub open spec fn gather_blocks(g: Gathered, items: Seq<ContentBlockView>, n: int) -> Gathered
    decreases n,
{
    if n <= 0 {
        g
    } else {
        gather_block(gather_blocks(g, items, n - 1), items[n - 1])
    }
}

/// What is gathered after the first `n` messages.
pub open spec fn gather_messages(messages: Seq<MessageView>, n: int) -> Gathered
    decreases n,
{
    if n <= 0 {
        Gathered {
            commands: Seq::empty(),
            tools: Seq::empty(),
            files_read: Seq::empty(),
            files_written: Seq::empty(),
            errors: Seq::empty(),
        }
    } else {
        gather_blocks(
            gather_messages(messages, n - 1),
            messages[n - 1].content,
            messages[n - 1].content.len() as int,
        )
    }
}

/// The items joined by a comma and a space.
pub open spec fn comma_list(items: Seq<Seq<char>>) -> Seq<char>
    decreases items.len(),
{
    if items.len() == 0 {
        Seq::empty()
    } else if items.len() == 1 {
        items[0]
    } else {
        comma_list(items.drop_last()) + ", "@ + items.last()
    }
}

/// The fact that lists `items` under `label`, where there are any.
pub open spec fn listing(label: Seq<char>, items: Seq<Seq<char>>) -> Seq<Seq<char>> {
    if items.len() == 0 {
        Seq::empty()
    } else {
        seq![label + comma_list(items)]
    }
}

/// The facts of what was gathered: the commands, in the order in which
/// they ran; the tools used; the files read; the files changed; and the
/// errors met.
pub open spec fn facts_of(g: Gathered) -> Seq<Seq<char>> {
    g.commands + listing("Tools used: "@, g.tools) + listing("Files read: "@, g.files_read)
        + listing("Files modified: "@, g.files_written) + g.errors.map_values(
        |e: Seq<char>| "Error encountered: "@ + e,
    )
}

/// The views of a list of texts.
pub open spec fn texts(items: Seq<String>) -> Seq<Seq<char>> {
    items.map_values(|s: String| s@)
}

/// The key facts of the messages.
pub open spec fn key_facts(messages: Seq<MessageView>) -> Seq<Seq<char>> {
    facts_of(gather_messages(messages, messages.len() as int))
}

/// Tells whether `list` holds `item`.
fn holds(list: &Vec<String>, item: &str) -> (r: bool)
    ensures
        r == texts(list@).contains(item@),
{
    let mut i: usize = 0;
    while i < list.len()
        invariant
            i <= list@.len(),
            forall|k: int| 0 <= k < i ==> texts(list@)[k] != item@,
        decreases list.len() - i,
    {
        assert(texts(list@)[i as int] == list@[i as int]@);
        if str_eq(list[i].as_str(), item) {
            return true;
        }
        i += 1;
    }
    false
}

/// Adds `item` to `list` unless it is there already.
fn push_once(list: &mut Vec<String>, item: &str)
    ensures
        texts(final(list)@) == with_once(texts(old(list)@), item@),
{
    if !holds(list, item) {
        let ghost before = texts(list@);
        list.push(item.to_owned());
        assert(texts(list@) =~= before.push(item@));
    }
}

/// Joins the items by a comma and a space.
fn join_commas(items: &Vec<String>) -> (r: String)
    ensures
        r@ == comma_list(texts(items@)),
{
    let mut out = String::new();
    let mut i: usize = 0;
    let ghost all = texts(items@);
    assert(all.subrange(0, 0) =~= Seq::<Seq<char>>::empty());
    while i < items.len()
        invariant
            i <= items@.len(),
            all == texts(items@),
            out@ == comma_list(all.subrange(0, i as int)),
        decreases items.len() - i,
    {
        assert(all.subrange(0, i + 1).drop_last() =~= all.subrange(0, i as int));
        assert(all.subrange(0, i + 1).last() == items@[i as int]@);
        if i > 0 {
            out.append(", ");
        }
        out.append(items[i].as_str());
        i += 1;
    }
    assert(all.subrange(0, items@.len() as int) =~= all);
    out
}

/// What was gathered, as it is held while the messages are gone through.
struct Notes {
    commands: Vec<String>,
    tools: Vec<String>,
    files_read: Vec<String>,
    files_written: Vec<String>,
    errors: Vec<String>,
}

impl View for Notes {
    type V = Gathered;

    closed spec fn view(&self) -> Gathered {
        Gathered {
            commands: texts(self.commands@),
            tools: texts(self.tools@),
            files_read: texts(self.files_read@),
            files_written: texts(self.files_written@),
            errors: texts(self.errors@),
        }
    }
}

/// Takes in one block.
fn note_block(notes: &mut Notes, block: &ContentBlock)
    ensures
        final(notes)@ == gather_block(old(notes)@, block@),
{
    match block {
        ContentBlock::ToolUse { name, input, .. } => {
            push_once(&mut notes.tools, name.as_str());
            match input.get_str("file_path") {
                Some(path) => {
                    if str_eq(name.as_str(), "Read") || str_eq(name.as_str(), "Glob") || str_eq(
                        name.as_str(),
                        "Grep",
                    ) {
                        push_once(&mut notes.files_read, path);
                    } else if str_eq(name.as_str(), "Write") || str_eq(name.as_str(), "Edit") {
                        push_once(&mut notes.files_written, path);
                    }
                },
                None => {},
            }
            if str_eq(name.as_str(), "Bash") {
                match input.get_str("command") {
                    Some(command) => {
                        let ghost before = texts(notes.commands@);
                        let fact = join3("Ran command: `", shorten(command, 60, 57).as_str(), "`");
                        notes.commands.push(fact);
                        assert(texts(notes.commands@) =~= before.push(fact@));
                    },
                    None => {},
                }
            }
        },
        ContentBlock::ToolResult { content, is_error, .. } => {
            let failed = match is_error {
                Some(true) => true,
                _ => false,
            };
            if failed {
                let ghost start = texts(notes.errors@);
                let ghost items = result_items(content@);
                let mut i: usize = 0;
                while i < content.len()
                    invariant
                        i <= content@.len(),
                        items == result_items(content@),
                        texts(notes.errors@) == errors_after(start, items, i as int),
                        notes.commands == old(notes).commands,
                        notes.tools == old(notes).tools,
                        notes.files_read == old(notes).files_read,
                        notes.files_written == old(notes).files_written,
                    decreases content.len() - i,
                {
                    assert(items[i as int] == content@[i as int]@);
                    match &content[i] {
                        ToolResultContent::Text { text } => {
                            let ghost before = texts(notes.errors@);
                            let short = shorten(text.as_str(), 100, 97);
                            notes.errors.push(short);
                            assert(texts(notes.errors@) =~= before.push(short@));
                        },
                        _ => {},
                    }
                    i += 1;
                }
            }
        },
        _ => {},
    }
}

/// Adds the fact that lists `items` under `label`, where there are any.
fn push_listing(facts: &mut Vec<String>, label: &str, items: &Vec<String>)
    ensures
        texts(final(facts)@) == texts(old(facts)@) + listing(label@, texts(items@)),
{
    let ghost before = texts(facts@);
    if items.len() > 0 {
        let fact = join2(label, join_commas(items).as_str());
        facts.push(fact);
        assert(texts(facts@) =~= before + seq![fact@]);
    } else {
        assert(before + Seq::<Seq<char>>::empty() =~= before);
    }
}

/// Extracts the key facts of the messages for the summary.
pub fn extract_key_facts(messages: &[Message]) -> (facts: Vec<String>)
    ensures
        texts(facts@) == key_facts(transcript(messages@)),
{
    let mut notes = Notes {
        commands: Vec::new(),
        tools: Vec::new(),
        files_read: Vec::new(),
        files_written: Vec::new(),
        errors: Vec::new(),
    };
    let ghost all = transcript(messages@);
    assert(notes@.commands =~= Seq::<Seq<char>>::empty());
    assert(notes@.tools =~= Seq::<Seq<char>>::empty());
    assert(notes@.files_read =~= Seq::<Seq<char>>::empty());
    assert(notes@.files_written =~= Seq::<Seq<char>>::empty());
    assert(notes@.errors =~= Seq::<Seq<char>>::empty());
    let mut i: usize = 0;
    while i < messages.len()
        invariant
            i <= messages@.len(),
            all == transcript(messages@),
            notes@ == gather_messages(all, i as int),
        decreases messages.len() - i,
    {
        assert(all[i as int] == messages@[i as int]@);
        let content = &messages[i].content;
        let ghost start = notes@;
        let mut k: usize = 0;
        while k < content.len()
            invariant
                k <= content@.len(),
                notes@ == gather_blocks(start, blocks(content@), k as int),
            decreases content.len() - k,
        {
            assert(blocks(content@)[k as int] == content@[k as int]@);
            note_block(&mut notes, &content[k]);
            k += 1;
        }
        i += 1;
    }
    let mut facts: Vec<String> = Vec::new();
    let mut c: usize = 0;
    assert(texts(facts@) =~= texts(notes.commands@).subrange(0, 0));
    while c < notes.commands.len()
        invariant
            c <= notes.commands@.len(),
            texts(facts@) == texts(notes.commands@).subrange(0, c as int),
        decreases notes.commands.len() - c,
    {
        let ghost before = texts(facts@);
        let copy = notes.commands[c].clone();
        assert(copy@ == texts(notes.commands@)[c as int]);
        facts.push(copy);
        assert(texts(facts@) =~= before.push(copy@));
        c += 1;
        assert(texts(facts@) =~= texts(notes.commands@).subrange(0, c as int));
    }
    assert(texts(notes.commands@).subrange(0, notes.commands@.len() as int) =~= texts(
        notes.commands@,
    ));
    push_listing(&mut facts, "Tools used: ", &notes.tools);
    push_listing(&mut facts, "Files read: ", &notes.files_read);
    push_listing(&mut facts, "Files modified: ", &notes.files_written);
    let ghost head = texts(facts@);
    let ghost errors = texts(notes.errors@);
    let mut e: usize = 0;
    assert(texts(facts@) =~= head + errors.subrange(0, 0).map_values(
        |e: Seq<char>| "Error encountered: "@ + e,
    ));
    while e < notes.errors.len()
        invariant
            e <= notes.errors@.len(),
            errors == texts(notes.errors@),
            texts(facts@) == head + errors.subrange(0, e as int).map_values(
                |e: Seq<char>| "Error encountered: "@ + e,
            ),
        decreases notes.errors.len() - e,
    {
        assert(errors[e as int] == notes.errors@[e as int]@);
        let ghost before = texts(facts@);
        let fact = join2("Error encountered: ", notes.errors[e].as_str());
        facts.push(fact);
        assert(texts(facts@) =~= before.push(fact@));
        assert(fact@ == "Error encountered: "@ + errors[e as int]);
        e += 1;
        assert(texts(facts@) =~= head + errors.subrange(0, e as int).map_values(
            |e: Seq<char>| "Error encountered: "@ + e,
        ));
    }
    assert(errors.subrange(0, errors.len() as int) =~= errors);
    facts
}

/// The lines of the summary: one for each fact, or a note that there is
/// none.
pub open spec fn fact_lines(facts: Seq<Seq<char>>, n: int) -> Seq<char>
    decreases n,
{
    if n <= 0 {
        Seq::empty()
    } else {
        fact_lines(facts, n - 1) + "- "@ + facts[n - 1] + "\n"@
    }
}

/// The text of the summary.
pub open spec fn summary_text(facts: Seq<Seq<char>>) -> Seq<char> {
    "[This conversation was compacted. Key facts from the earlier conversation:]\n\n"@ + if facts.len()
        == 0 {
        "- (No specific facts extracted from the compacted portion)\n"@
    } else {
        fact_lines(facts, facts.len() as int)
    }
}

/// Builds the user message that stands for the compacted messages.
pub fn build_summary_message(facts: &[String]) -> (m: Message)
    ensures
        m@.role == Role::User,
        m@.content == seq![ContentBlockView::Text { text: summary_text(texts(facts@)) }],
{
    let mut text =
        "[This conversation was compacted. Key facts from the earlier conversation:]\n\n".to_owned();
    let ghost head = text@;
    if facts.len() == 0 {
        text.append("- (No specific facts extracted from the compacted portion)\n");
    } else {
        let mut i: usize = 0;
        assert(text@ =~= head + fact_lines(texts(facts@), 0));
        while i < facts.len()
            invariant
                i <= facts@.len(),
                text@ == head + fact_lines(texts(facts@), i as int),
            decreases facts.len() - i,
        {
            assert(texts(facts@)[i as int] == facts@[i as int]@);
            text.append("- ");
            text.append(facts[i].as_str());
            text.append("\n");
            i += 1;
            assert(text@ =~= head + fact_lines(texts(facts@), i as int));
        }
    }
    let mut content: Vec<ContentBlock> = Vec::new();
    content.push(ContentBlock::Text { text });
    let m = Message { role: Role::User, content };
    assert(m@.content =~= seq![ContentBlockView::Text { text: summary_text(texts(facts@)) }]);
    m
}

/// The texts of a tool result as the archive shows them: each in a code
/// fence, clipped where it is longer than 2000 bytes.
pub open spec fn archived_items(items: Seq<ToolResultContentView>, n: int) -> Seq<char>
    decreases n,
{
    if n <= 0 {
        Seq::empty()
    } else {
        archived_items(items, n - 1) + match items[n - 1] {
            ToolResultContentView::Text { text } => if encode_utf8(text).len() > 2000 {
                "```\n"@ + truncated(text, 2000) + "...\n(truncated)\n```\n\n"@
            } else {
                "```\n"@ + text + "\n```\n\n"@
            },
            _ => Seq::empty(),
        }
    }
}

/// A block as the archive shows it.
pub open spec fn archived_block(b: ContentBlockView) -> Seq<char> {
    match b {
        ContentBlockView::Text { text } => text + "\n\n"@,
        ContentBlockView::ToolUse { name, input, .. } => "**Tool call: "@ + name + "**\n"@
            + "```json\n"@ + json_text(input) + "\n```\n\n"@,
        ContentBlockView::ToolResult { content, is_error, .. } => (if is_error == Some(true) {
            "**Tool error:**\n"@
        } else {
            "**Tool result:**\n"@
        }) + archived_items(content, content.len() as int),
        ContentBlockView::Thinking { thinking, .. } => "*Thinking: "@ + truncated(thinking, 200)
            + "*\n\n"@,
        ContentBlockView::Image { .. } => "*[Image]*\n\n"@,
        ContentBlockView::Unknown { .. } => "*[Unknown block]*\n\n"@,
    }
}

/// The first `n` blocks of a message as the archive shows them.
pub open spec fn archived_blocks(items: Seq<ContentBlockView>, n: int) -> Seq<char>
    decreases n,
{
    if n <= 0 {
        Seq::empty()
    } else {
        archived_blocks(items, n - 1) + archived_block(items[n - 1])
    }
}

/// A message as the archive shows it: a heading with the role, then the
/// blocks.
pub open spec fn archived_message(m: MessageView) -> Seq<char> {
    (match m.role {
        Role::User => "## **User**\n\n"@,
        Role::Assistant => "## **Assistant**\n\n"@,
    }) + archived_blocks(m.content, m.content.len() as int)
}

/// The first `n` messages as the archive shows them.
pub open spec fn archived_messages(messages: Seq<MessageView>, n: int) -> Seq<char>
    decreases n,
{
    if n <= 0 {
        Seq::empty()
    } else {
        archived_messages(messages, n - 1) + archived_message(messages[n - 1])
    }
}

/// The archive of a conversation, in markdown.
pub open spec fn archive_of(messages: Seq<MessageView>) -> Seq<char> {
    "# Conversation Archive\n\n"@ + archived_messages(messages, messages.len() as int)
}

/// Adds a block to the archive.
fn archive_block(md: &mut String, block: &ContentBlock)
    ensures
        final(md)@ == old(md)@ + archived_block(block@),
{
    let ghost before = md@;
    match block {
        ContentBlock::Text { text } => {
            md.append(text.as_str());
            md.append("\n\n");
            assert(md@ =~= before + archived_block(block@));
        },
        ContentBlock::ToolUse { name, input, .. } => {
            md.append("**Tool call: ");
            md.append(name.as_str());
            md.append("**\n");
            md.append("```json\n");
            md.append(input.to_text().as_str());
            md.append("\n```\n\n");
            assert(md@ =~= before + archived_block(block@));
        },
        ContentBlock::ToolResult { content, is_error, .. } => {
            let failed = match is_error {
                Some(true) => true,
                _ => false,
            };
            if failed {
                md.append("**Tool error:**\n");
            } else {
                md.append("**Tool result:**\n");
            }
            let ghost head = md@;
            let ghost items = result_items(content@);
            let mut i: usize = 0;
            assert(md@ =~= head + archived_items(items, 0));
            while i < content.len()
                invariant
                    i <= content@.len(),
                    items == result_items(content@),
                    md@ == head + archived_items(items, i as int),
                decreases content.len() - i,
            {
                assert(items[i as int] == content@[i as int]@);
                match &content[i] {
                    ToolResultContent::Text { text } => {
                        md.append("```\n");
                        if byte_len(text.as_str()) > 2000 {
                            md.append(truncate_str(text.as_str(), 2000));
                            md.append("...\n(truncated)\n```\n\n");
                        } else {
                            md.append(text.as_str());
                            md.append("\n```\n\n");
                        }
                    },
                    _ => {},
                }
                i += 1;
                assert(md@ =~= head + archived_items(items, i as int));
            }
            assert(md@ =~= before + archived_block(block@));
        },
        ContentBlock::Thinking { thinking, .. } => {
            md.append("*Thinking: ");
            md.append(truncate_str(thinking.as_str(), 200));
            md.append("*\n\n");
            assert(md@ =~= before + archived_block(block@));
        },
        ContentBlock::Image { .. } => {
            md.append("*[Image]*\n\n");
        },
        ContentBlock::Unknown { .. } => {
            md.append("*[Unknown block]*\n\n");
        },
    }
}

/// Turns the whole conversation into its archive.
pub fn messages_to_markdown(messages: &[Message]) -> (md: String)
    ensures
        md@ == archive_of(transcript(messages@)),
{
    let mut md = "# Conversation Archive\n\n".to_owned();
    let ghost head = md@;
    let ghost all = transcript(messages@);
    let mut i: usize = 0;
    assert(md@ =~= head + archived_messages(all, 0));
    while i < messages.len()
        invariant
            i <= messages@.len(),
            all == transcript(messages@),
            md@ == head + archived_messages(all, i as int),
        decreases messages.len() - i,
    {
        assert(all[i as int] == messages@[i as int]@);
        let ghost before = md@;
        match messages[i].role {
            Role::User => {
                md.append("## **User**\n\n");
            },
            Role::Assistant => {
                md.append("## **Assistant**\n\n");
            },
        }
        let content = &messages[i].content;
        let ghost start = md@;
        let mut k: usize = 0;
        assert(md@ =~= start + archived_blocks(blocks(content@), 0));
        while k < content.len()
            invariant
                k <= content@.len(),
                md@ == start + archived_blocks(blocks(content@), k as int),
            decreases content.len() - k,
        {
            assert(blocks(content@)[k as int] == content@[k as int]@);
            archive_block(&mut md, &content[k]);
            k += 1;
            assert(md@ =~= start + archived_blocks(blocks(content@), k as int));
        }
        i += 1;
        assert(md@ =~= head + archived_messages(all, i as int));
    }
    md
}

/// Compacts a conversation: the messages before the last
/// `KEEP_RECENT_TURNS` turns give way to one summary of their key facts,
/// and the whole conversation is archived. None where the conversation
/// is shorter than `MIN_MESSAGES_FOR_COMPACTION` messages or has nothing
/// before its recent turns.
pub fn compact(messages: &[Message]) -> (r: Option<CompactionResult>)
    ensures
        match r {
            Some(c) => {
                let all = transcript(messages@);
                let split = split_point(all);
                &&& messages@.len() >= MIN_MESSAGES_FOR_COMPACTION
                &&& split > 0
                &&& c.messages_removed == split
                &&& c.archive_markdown@ == archive_of(all)
                &&& transcript(c.new_messages@).len() == all.len() - split + 1
                &&& transcript(c.new_messages@)[0].role == Role::User
                &&& transcript(c.new_messages@)[0].content == seq![
                    ContentBlockView::Text {
                        text: summary_text(key_facts(all.subrange(0, split))),
                    },
                ]
                &&& transcript(c.new_messages@).subrange(
                    1,
                    transcript(c.new_messages@).len() as int,
                ) == all.subrange(split, all.len() as int)
            },
            None => messages@.len() < MIN_MESSAGES_FOR_COMPACTION || split_point(
                transcript(messages@),
            ) == 0,
        },
{
    if messages.len() < MIN_MESSAGES_FOR_COMPACTION {
        return None;
    }
    let split: usize = find_split_point(messages);
    if split == 0 {
        return None;
    }
    let ghost all = transcript(messages@);
    let archive_markdown = messages_to_markdown(messages);
    let old = vstd::slice::slice_subrange(messages, 0, split);
    assert(transcript(old@) =~= all.subrange(0, split as int));
    let facts = extract_key_facts(old);
    let summary = build_summary_message(facts.as_slice());
    let mut new_messages: Vec<Message> = Vec::new();
    new_messages.push(summary);
    let mut i: usize = split;
    while i < messages.len()
        invariant
            split <= i <= messages@.len(),
            all == transcript(messages@),
            new_messages@.len() == 1 + (i - split),
            new_messages@[0] == summary,
            forall|k: int| 1 <= k < new_messages@.len() ==> new_messages@[k]@ == all[split + k - 1],
        decreases messages.len() - i,
    {
        assert(all[i as int] == messages@[i as int]@);
        new_messages.push(messages[i].duplicate());
        i += 1;
    }
    assert(transcript(new_messages@).subrange(1, transcript(new_messages@).len() as int)
        =~= all.subrange(split as int, all.len() as int));
    Some(CompactionResult { archive_markdown, new_messages, messages_removed: split })
}

} // verus!
