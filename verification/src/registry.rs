//! The tools that the assistant knows, by name.
//!
//! The registry holds what the agent decides on: each tool's definition
//! and whether it only reads. Running a tool is the caller's part.

use crate::error::ToolError;
use crate::message::{definition_views, ToolDefinition, ToolDefinitionView};
use crate::text::str_eq;
use vstd::prelude::*;
use vstd::string::*;

verus! {

/// One tool of the registry: its name, the definition announced to the
/// model, and whether it only reads data.
#[derive(Debug, Clone)]
pub struct ToolEntry {
    pub name: String,
    pub definition: ToolDefinition,
    pub read_only: bool,
}

pub struct ToolEntryView {
    pub name: Seq<char>,
    pub definition: ToolDefinitionView,
    pub read_only: bool,
}

impl View for ToolEntry {
    type V = ToolEntryView;

    open spec fn view(&self) -> ToolEntryView {
        ToolEntryView {
            name: self.name@,
            definition: self.definition@,
            read_only: self.read_only,
        }
    }
}

/// The views of a list of entries.
pub open spec fn entry_views(entries: Seq<ToolEntry>) -> Seq<ToolEntryView> {
    entries.map_values(|e: ToolEntry| e@)
}

/// The index of the first entry at or after `from` that is named `name`.
pub open spec fn position(entries: Seq<ToolEntryView>, name: Seq<char>, from: int) -> Option<int>
    decreases entries.len() - from,
{
    if from < 0 || from >= entries.len() {
        None
    } else if entries[from].name == name {
        Some(from)
    } else {
        position(entries, name, from + 1)
    }
}

/// True when no two entries share a name.
pub open spec fn names_unique(entries: Seq<ToolEntryView>) -> bool {
    forall|i: int, j: int|
        0 <= i < j < entries.len() ==> (#[trigger] entries[i]).name != (#[trigger] entries[j]).name
}

/// The entries after `entry` has been registered: it takes the place of
/// the entry of the same name, or the last place where there is none.
pub open spec fn registered(entries: Seq<ToolEntryView>, entry: ToolEntryView) -> Seq<
    ToolEntryView,
> {
    match position(entries, entry.name, 0) {
        Some(i) => entries.update(i, entry),
        None => entries.push(entry),
    }
}

/// The definitions of the first `n` entries, in order; with `only_readers`
/// only those of the tools that only read.
pub open spec fn definitions_of(entries: Seq<ToolEntryView>, only_readers: bool, n: int) -> Seq<
    ToolDefinitionView,
>
    decreases n,
{
    if n <= 0 {
        Seq::empty()
    } else if only_readers && !entries[n - 1].read_only {
        definitions_of(entries, only_readers, n - 1)
    } else {
        definitions_of(entries, only_readers, n - 1).push(entries[n - 1].definition)
    }
}

/// Whether the tool named `name` only reads; none where it is not
/// registered.
pub open spec fn reads_only(entries: Seq<ToolEntryView>, name: Seq<char>) -> Option<bool> {
    match position(entries, name, 0) {
        Some(i) => Some(entries[i].read_only),
        None => None,
    }
}

pub proof fn lemma_position(entries: Seq<ToolEntryView>, name: Seq<char>, from: int)
    requires
        0 <= from,
    ensures
        match position(entries, name, from) {
            Some(i) => from <= i < entries.len() && entries[i].name == name && forall|j: int|
                from <= j < i ==> (#[trigger] entries[j]).name != name,
            None => forall|j: int| from <= j < entries.len() ==> (#[trigger] entries[j]).name != name,
        },
    decreases entries.len() - from,
{
    if from < entries.len() && entries[from].name != name {
        lemma_position(entries, name, from + 1);
    }
}

/// Registering keeps the names unique, and the registered tool is found
/// under its name afterwards.
pub proof fn lemma_registered(entries: Seq<ToolEntryView>, entry: ToolEntryView)
    requires
        names_unique(entries),
    ensures
        names_unique(registered(entries, entry)),
        position(registered(entries, entry), entry.name, 0) is Some,
        registered(entries, entry)[position(registered(entries, entry), entry.name, 0)->0]
            == entry,
{
    lemma_position(entries, entry.name, 0);
    let after = registered(entries, entry);
    lemma_position(after, entry.name, 0);
    match position(entries, entry.name, 0) {
        Some(i) => {
            assert(after[i] == entry);
            assert forall|a: int, b: int| 0 <= a < b < after.len() implies (#[trigger] after[a]).name
                != (#[trigger] after[b]).name by {
                assert(after[a].name == entries[a].name);
                assert(after[b].name == entries[b].name);
            }
        },
        None => {
            assert(after[entries.len() as int] == entry);
            assert forall|a: int, b: int| 0 <= a < b < after.len() implies (#[trigger] after[a]).name
                != (#[trigger] after[b]).name by {
                if b < entries.len() {
                    assert(after[a] == entries[a]);
                    assert(after[b] == entries[b]);
                } else {
                    assert(after[a] == entries[a]);
                }
            }
        },
    }
}

/// The registry of tools.
#[derive(Debug)]
pub struct ToolRegistry {
    tools: Vec<ToolEntry>,
}

impl View for ToolRegistry {
    type V = Seq<ToolEntryView>;

    closed spec fn view(&self) -> Seq<ToolEntryView> {
        entry_views(self.tools@)
    }
}

impl ToolRegistry {
    /// No two tools of the registry share a name.
    pub open spec fn wf(&self) -> bool {
        names_unique(self@)
    }

    /// A registry without tools.
    pub fn new() -> (r: Self)
        ensures
            r@ == Seq::<ToolEntryView>::empty(),
            r.wf(),
    {
        let r = ToolRegistry { tools: Vec::new() };
        assert(r@ =~= Seq::<ToolEntryView>::empty());
        r
    }

    /// The index of the tool named `name`.
    fn index_of(&self, name: &str) -> (r: Option<usize>)
        ensures
            match r {
                Some(i) => position(self@, name@, 0) == Some(i as int) && i < self.tools@.len(),
                None => position(self@, name@, 0) is None,
            },
    {
        let mut i: usize = 0;
        while i < self.tools.len()
            invariant
                i <= self.tools@.len(),
                position(self@, name@, i as int) == position(self@, name@, 0),
            decreases self.tools.len() - i,
        {
            assert(self@[i as int] == self.tools@[i as int]@);
            if str_eq(self.tools[i].name.as_str(), name) {
                return Some(i);
            }
            i += 1;
        }
        None
    }

    /// Registers a tool under its name. A tool registered under that name
    /// before is replaced.
    pub fn register(&mut self, entry: ToolEntry)
        ensures
            final(self)@ == registered(old(self)@, entry@),
            old(self).wf() ==> final(self).wf(),
    {
        proof {
            if self.wf() {
                lemma_registered(self@, entry@);
            }
        }
        let ghost before = self@;
        match self.index_of(entry.name.as_str()) {
            Some(i) => {
                self.tools.set(i, entry);
                assert(self@ =~= before.update(i as int, entry@));
            },
            None => {
                self.tools.push(entry);
                assert(self@ =~= before.push(entry@));
            },
        }
    }

    /// Collects definitions, of all tools or of the read-only ones.
    fn collect(&self, only_readers: bool) -> (defs: Vec<ToolDefinition>)
        ensures
            definition_views(defs@) == definitions_of(self@, only_readers, self@.len() as int),
    {
        let mut defs: Vec<ToolDefinition> = Vec::new();
        let mut i: usize = 0;
        assert(definition_views(defs@) =~= definitions_of(self@, only_readers, 0));
        while i < self.tools.len()
            invariant
                i <= self.tools@.len(),
                definition_views(defs@) == definitions_of(self@, only_readers, i as int),
            decreases self.tools.len() - i,
        {
            assert(self@[i as int] == self.tools@[i as int]@);
            if !only_readers || self.tools[i].read_only {
                let ghost before = definition_views(defs@);
                defs.push(self.tools[i].definition.duplicate());
                assert(definition_views(defs@) =~= before.push(self.tools@[i as int].definition@));
            }
            i += 1;
        }
        assert(self@.len() == self.tools@.len());
        defs
    }

    /// The definitions of all tools, in the order of registration.
    pub fn definitions(&self) -> (defs: Vec<ToolDefinition>)
        ensures
            definition_views(defs@) == definitions_of(self@, false, self@.len() as int),
    {
        self.collect(false)
    }

    /// The definitions of the tools that only read, in the order of
    /// registration.
    pub fn read_only_definitions(&self) -> (defs: Vec<ToolDefinition>)
        ensures
            definition_views(defs@) == definitions_of(self@, true, self@.len() as int),
    {
        self.collect(true)
    }

    /// Tells whether a tool is registered under `name`.
    pub fn has_tool(&self, name: &str) -> (r: bool)
        ensures
            r == position(self@, name@, 0) is Some,
    {
        self.index_of(name).is_some()
    }

    /// Tells whether the tool named `name` only reads; none where no tool
    /// has that name.
    pub fn is_read_only(&self, name: &str) -> (r: Option<bool>)
        ensures
            r == reads_only(self@, name@),
    {
        match self.index_of(name) {
            Some(i) => {
                assert(self@[i as int] == self.tools@[i as int]@);
                Some(self.tools[i].read_only)
            },
            None => None,
        }
    }

    /// Resolves the tool to run for a call of `name`: its place in the
    /// registry, or the error of an unknown tool.
    pub fn resolve(&self, name: &str) -> (r: Result<usize, ToolError>)
        ensures
            match r {
                Ok(i) => position(self@, name@, 0) == Some(i as int),
                Err(e) => position(self@, name@, 0) is None && (e matches ToolError::UnknownTool {
                    name: n,
                } && n@ == name@),
            },
    {
        match self.index_of(name) {
            Some(i) => Ok(i),
            None => Err(ToolError::UnknownTool { name: name.to_owned() }),
        }
    }

    /// The number of registered tools.
    pub fn len(&self) -> (n: usize)
        ensures
            n == self@.len(),
    {
        self.tools.len()
    }
}

impl Default for ToolRegistry {
    fn default() -> (r: Self)
        ensures
            r@ == Seq::<ToolEntryView>::empty(),
            r.wf(),
    {
        ToolRegistry::new()
    }
}

/// The entry of a tool that is registered under the name of its
/// definition.
pub open spec fn entry_of(definition: ToolDefinitionView, read_only: bool) -> ToolEntryView {
    ToolEntryView { name: definition.name, definition, read_only }
}

/// The built-in tools, in the order in which they are registered: the
/// tools that read a file, find files and search lines only read.
pub open spec fn builtin_entries() -> Seq<ToolEntryView> {
    seq![
        entry_of(crate::tools::read::read_definition_view(), true),
        entry_of(crate::tools::write::write_definition_view(), false),
        entry_of(crate::tools::edit::edit_definition_view(), false),
        entry_of(crate::tools::bash::bash_definition_view(), false),
        entry_of(crate::tools::search::glob_definition_view(), true),
        entry_of(crate::tools::search::grep_definition_view(), true),
    ]
}

/// Makes the entry of a tool from its definition.
fn entry(definition: ToolDefinition, read_only: bool) -> (e: ToolEntry)
    ensures
        e@ == entry_of(definition@, read_only),
{
    ToolEntry { name: definition.name.clone(), definition, read_only }
}

impl ToolRegistry {
    /// A registry with the built-in tools.
    pub fn with_builtins() -> (r: Self)
        ensures
            r@ == builtin_entries(),
            r.wf(),
    {
        let mut tools: Vec<ToolEntry> = Vec::new();
        tools.push(entry(crate::tools::read::read_definition(), true));
        tools.push(entry(crate::tools::write::write_definition(), false));
        tools.push(entry(crate::tools::edit::edit_definition(), false));
        tools.push(entry(crate::tools::bash::bash_definition(), false));
        tools.push(entry(crate::tools::search::glob_definition(), true));
        tools.push(entry(crate::tools::search::grep_definition(), true));
        let r = ToolRegistry { tools };
        assert(r@ =~= builtin_entries());
        proof {
            lemma_builtin_names();
        }
        r
    }
}

/// The built-in tools have six different names.
pub proof fn lemma_builtin_names()
    ensures
        names_unique(builtin_entries()),
{
    let e = builtin_entries();
    reveal_strlit("Read");
    reveal_strlit("Write");
    reveal_strlit("Edit");
    reveal_strlit("Bash");
    reveal_strlit("Glob");
    reveal_strlit("Grep");
    assert(e[0].name =~= "Read"@ && e[1].name =~= "Write"@ && e[2].name =~= "Edit"@);
    assert(e[3].name =~= "Bash"@ && e[4].name =~= "Glob"@ && e[5].name =~= "Grep"@);
    assert(e[0].name[0] == 'R' && e[1].name[0] == 'W' && e[2].name[0] == 'E');
    assert(e[3].name[0] == 'B' && e[4].name[1] == 'l' && e[5].name[1] == 'r');
    assert(e[4].name[0] == 'G' && e[5].name[0] == 'G');
}

} // verus!
