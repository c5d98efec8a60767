//! The tools that are available, by name.

use vstd::prelude::*;

use crate::sorting;
use crate::sorting::comes_before;
use crate::text::same_text;
use crate::tools::builtin;
use crate::tools::contract::{ToolDefinition, ToolName};

verus! {

/// What a tool says of itself.
#[verifier::ext_equal]
pub struct DefinitionView {
    pub name: Seq<char>,
    pub description: Seq<char>,
    pub schema: Seq<char>,
}

impl View for ToolDefinition {
    type V = DefinitionView;

    open spec fn view(&self) -> DefinitionView {
        DefinitionView {
            name: self.name@,
            description: self.description@,
            schema: self.input_schema@,
        }
    }
}

/// Something through which the agent affects the project.
pub trait Tool {
    /// What the tool says of itself.
    spec fn defined(&self) -> DefinitionView;

    /// Says what the tool does and takes.
    fn definition(&self) -> (r: ToolDefinition)
        ensures
            r@ == self.defined(),
    ;
}

/// The tools that come with the agent.
#[derive(Clone, Copy, Debug, PartialEq, Eq, Structural)]
pub enum BuiltinTool {
    ListFiles,
    ReadFile,
    Search,
    WriteFile,
    ApplyPatch,
    RunCommand,
    GitStatus,
    GitDiff,
}

impl Tool for BuiltinTool {
    open spec fn defined(&self) -> DefinitionView {
        match *self {
            BuiltinTool::ListFiles => DefinitionView {
                name: builtin::list_files::NAME@,
                description: builtin::list_files::DESCRIPTION@,
                schema: builtin::list_files::SCHEMA@,
            },
            BuiltinTool::ReadFile => DefinitionView {
                name: builtin::read_file::NAME@,
                description: builtin::read_file::DESCRIPTION@,
                schema: builtin::read_file::SCHEMA@,
            },
            BuiltinTool::Search => DefinitionView {
                name: builtin::search::NAME@,
                description: builtin::search::DESCRIPTION@,
                schema: builtin::search::SCHEMA@,
            },
            BuiltinTool::WriteFile => DefinitionView {
                name: builtin::write_file::NAME@,
                description: builtin::write_file::DESCRIPTION@,
                schema: builtin::write_file::SCHEMA@,
            },
            BuiltinTool::ApplyPatch => DefinitionView {
                name: builtin::apply_patch::NAME@,
                description: builtin::apply_patch::DESCRIPTION@,
                schema: builtin::apply_patch::SCHEMA@,
            },
            BuiltinTool::RunCommand => DefinitionView {
                name: builtin::run_command::NAME@,
                description: builtin::run_command::DESCRIPTION@,
                schema: builtin::run_command::SCHEMA@,
            },
            BuiltinTool::GitStatus => DefinitionView {
                name: builtin::git::STATUS_NAME@,
                description: builtin::git::STATUS_DESCRIPTION@,
                schema: builtin::git::STATUS_SCHEMA@,
            },
            BuiltinTool::GitDiff => DefinitionView {
                name: builtin::git::DIFF_NAME@,
                description: builtin::git::DIFF_DESCRIPTION@,
                schema: builtin::git::DIFF_SCHEMA@,
            },
        }
    }

    fn definition(&self) -> (r: ToolDefinition) {
        match *self {
            BuiltinTool::ListFiles => builtin::list_files::definition(),
            BuiltinTool::ReadFile => builtin::read_file::definition(),
            BuiltinTool::Search => builtin::search::definition(),
            BuiltinTool::WriteFile => builtin::write_file::definition(),
            BuiltinTool::ApplyPatch => builtin::apply_patch::definition(),
            BuiltinTool::RunCommand => builtin::run_command::definition(),
            BuiltinTool::GitStatus => builtin::git::status_definition(),
            BuiltinTool::GitDiff => builtin::git::diff_definition(),
        }
    }
}

/// A tool of any kind, with what it says of itself.
#[derive(Clone, Debug)]
pub struct DefinedTool<T> {
    pub definition: ToolDefinition,
    pub tool: T,
}

impl<T> Tool for DefinedTool<T> {
    open spec fn defined(&self) -> DefinitionView {
        self.definition@
    }

    fn definition(&self) -> (r: ToolDefinition) {
        ToolDefinition::new(
            self.definition.name.as_str(),
            self.definition.description.as_str(),
            self.definition.input_schema.as_str(),
        )
    }
}

/// The available tools.
#[derive(Debug)]
pub struct ToolRegistry<T> {
    pub tools: Vec<T>,
}

/// The place of the tool with a name, or -1.
pub open spec fn row<T: Tool>(tools: Seq<T>, name: Seq<char>, from: int) -> int
    decreases tools.len() - from,
{
    if from >= tools.len() {
        -1
    } else if tools[from].defined().name == name {
        from
    } else {
        row(tools, name, from + 1)
    }
}

/// Whether no two tools have the same name.
pub open spec fn is_unique<T: Tool>(tools: Seq<T>) -> bool {
    forall|i: int, j: int|
        0 <= i < j < tools.len() ==> (#[trigger] tools[i]).defined().name != (
        #[trigger] tools[j]).defined().name
}

/// The tools after one was registered, in place of one with the same name.
pub open spec fn registered<T: Tool>(tools: Seq<T>, tool: T) -> Seq<T> {
    let i = row(tools, tool.defined().name, 0);
    if i >= 0 {
        tools.update(i, tool)
    } else {
        tools.push(tool)
    }
}

/// What tools say of themselves.
pub open spec fn definitions_of<T: Tool>(tools: Seq<T>) -> Seq<DefinitionView> {
    Seq::new(tools.len(), |i: int| tools[i].defined())
}

/// The name by which definitions are sorted.
pub open spec fn definition_key() -> spec_fn(DefinitionView) -> Seq<char> {
    |d: DefinitionView| d.name
}

/// Definitions over plain values.
pub open spec fn definitions(v: Seq<ToolDefinition>) -> Seq<DefinitionView> {
    Seq::new(v.len(), |i: int| v[i]@)
}

proof fn lemma_row<T: Tool>(tools: Seq<T>, name: Seq<char>, from: int)
    requires
        0 <= from,
    ensures
        -1 <= row(tools, name, from) < tools.len(),
        row(tools, name, from) >= 0 ==> tools[row(tools, name, from)].defined().name == name,
        row(tools, name, from) < 0 ==> forall|i: int|
            from <= i < tools.len() ==> (#[trigger] tools[i]).defined().name != name,
    decreases tools.len() - from,
{
    if from < tools.len() && tools[from].defined().name != name {
        lemma_row(tools, name, from + 1);
    }
}

proof fn lemma_row_is<T: Tool>(tools: Seq<T>, name: Seq<char>, from: int, k: int)
    requires
        0 <= from <= k < tools.len(),
        tools[k].defined().name == name,
        is_unique(tools),
    ensures
        row(tools, name, from) == k,
    decreases k - from,
{
    if from < k {
        assert(tools[from].defined().name != tools[k].defined().name);
        lemma_row_is(tools, name, from + 1, k);
    }
}

proof fn lemma_registered_is_unique<T: Tool>(tools: Seq<T>, tool: T)
    requires
        is_unique(tools),
    ensures
        is_unique(registered(tools, tool)),
{
    let name = tool.defined().name;
    lemma_row(tools, name, 0);
    let k = row(tools, name, 0);
    let after = registered(tools, tool);
    assert forall|i: int, j: int| 0 <= i < j < after.len() implies (#[trigger]
    after[i]).defined().name != (#[trigger] after[j]).defined().name by {
        if k >= 0 {
            let a = if i == k {
                tools[k]
            } else {
                after[i]
            };
            assert(tools[i].defined().name != tools[j].defined().name);
        } else if j < tools.len() {
            assert(after[i] == tools[i] && after[j] == tools[j]);
        } else {
            assert(after[i] == tools[i]);
        }
    }
}

/// A registered tool is found by its name, whatever was registered under that name before, and
/// every other name leads where it led before.
pub proof fn law_a_registered_tool_is_found<T: Tool>(tools: Seq<T>, tool: T, other: Seq<char>)
    requires
        is_unique(tools),
    ensures
        is_unique(registered(tools, tool)),
        ({
            let after = registered(tools, tool);
            let i = row(after, tool.defined().name, 0);
            i >= 0 && after[i] == tool
        }),
        other != tool.defined().name ==> ({
            let after = registered(tools, tool);
            let i = row(after, other, 0);
            let j = row(tools, other, 0);
            i == j && (j >= 0 ==> after[i] == tools[j])
        }),
{
    let name = tool.defined().name;
    let after = registered(tools, tool);
    lemma_registered_is_unique(tools, tool);
    lemma_row(tools, name, 0);
    let k = row(tools, name, 0);
    let at = if k >= 0 {
        k
    } else {
        tools.len() as int
    };
    lemma_row_is(after, name, 0, at);
    if other != name {
        lemma_row(tools, other, 0);
        lemma_row(after, other, 0);
        let j = row(tools, other, 0);
        if j >= 0 {
            assert(after[j] == tools[j]);
            lemma_row_is(after, other, 0, j);
        } else {
            let i = row(after, other, 0);
            if i >= 0 {
                if i != at {
                    assert(after[i] == tools[i]);
                }
            }
        }
    }
}

impl<T: Tool> ToolRegistry<T> {
    /// No two tools have the same name.
    pub open spec fn wf(self) -> bool {
        is_unique(self.tools@)
    }

    /// A registry without tools.
    #[must_use]
    pub fn new() -> (r: ToolRegistry<T>)
        ensures
            r.tools@.len() == 0,
            r.wf(),
    {
        ToolRegistry { tools: Vec::new() }
    }

    /// Finds the tool with a name.
    fn find(&self, name: &str) -> (r: Option<usize>)
        ensures
            match r {
                Some(i) => row(self.tools@, name@, 0) == i && i < self.tools@.len(),
                None => row(self.tools@, name@, 0) == -1,
            },
    {
        let ghost all = self.tools@;
        let mut i: usize = 0;
        while i < self.tools.len()
            invariant
                i <= self.tools@.len(),
                all == self.tools@,
                row(all, name@, 0) == row(all, name@, i as int),
            decreases self.tools@.len() - i,
        {
            let own: ToolDefinition = self.tools[i].definition();
            assert(own@.name == all[i as int].defined().name);
            if same_text(own.name.as_str(), name) {
                return Some(i);
            }
            i = i + 1;
        }
        None
    }

    /// Registers a tool, in place of one with the same name.
    pub fn register(&mut self, tool: T)
        requires
            old(self).wf(),
        ensures
            final(self).wf(),
            final(self).tools@ == registered(old(self).tools@, tool),
    {
        proof {
            lemma_registered_is_unique(self.tools@, tool);
        }
        let own: ToolDefinition = tool.definition();
        assert(own@.name == tool.defined().name);
        match self.find(own.name.as_str()) {
            Some(i) => {
                self.tools.set(i, tool);
            },
            None => {
                self.tools.push(tool);
            },
        }
    }

    /// Looks up a tool by name.
    #[must_use]
    pub fn get(&self, name: &ToolName) -> (r: Option<&T>)
        ensures
            ({
                let i = row(self.tools@, name@, 0);
                match r {
                    Some(t) => 0 <= i < self.tools@.len() && *t == self.tools@[i],
                    None => i < 0,
                }
            }),
    {
        match self.find(name.as_str()) {
            Some(i) => Some(&self.tools[i]),
            None => None,
        }
    }

    /// Tells whether a name is registered.
    #[must_use]
    pub fn contains(&self, name: &ToolName) -> (r: bool)
        ensures
            r == (row(self.tools@, name@, 0) >= 0),
    {
        self.find(name.as_str()).is_some()
    }

    /// Gives what every tool says of itself, sorted by name.
    #[must_use]
    pub fn definitions(&self) -> (r: Vec<ToolDefinition>)
        ensures
            definitions(r@) == sorting::in_order(definitions_of(self.tools@), definition_key()),
    {
        let ghost all = definitions_of(self.tools@);
        let mut list: Vec<ToolDefinition> = Vec::new();
        let mut i: usize = 0;
        assert(definitions(list@) =~= Seq::empty());
        assert(all.take(0) =~= Seq::empty());
        while i < self.tools.len()
            invariant
                i <= self.tools@.len(),
                all == definitions_of(self.tools@),
                definitions(list@) == sorting::in_order(all.take(i as int), definition_key()),
            decreases self.tools@.len() - i,
        {
            let own: ToolDefinition = self.tools[i].definition();
            proof {
                assert(all[i as int] == own@);
                assert(all.take(i + 1).drop_last() =~= all.take(i as int));
                assert(all.take(i + 1).last() == own@);
            }
            insert_definition(&mut list, own);
            i = i + 1;
        }
        assert(all.take(i as int) =~= all);
        list
    }

    /// How many tools there are.
    #[must_use]
    pub fn len(&self) -> (r: usize)
        ensures
            r == self.tools@.len(),
    {
        self.tools.len()
    }

    /// Whether there are no tools.
    #[must_use]
    pub fn is_empty(&self) -> (r: bool)
        ensures
            r == (self.tools@.len() == 0),
    {
        self.tools.len() == 0
    }
}

/// Inserts a definition into a sorted list.
fn insert_definition(list: &mut Vec<ToolDefinition>, own: ToolDefinition)
    ensures
        definitions(final(list)@) == sorting::inserted(
            definitions(old(list)@),
            definition_key(),
            own@,
        ),
{
    let ghost before = definitions(list@);
    let ghost item = own@;
    let mut at: usize = list.len();
    while at > 0 && comes_before(own.name.as_str(), list[at - 1].name.as_str())
        invariant
            at <= list@.len(),
            before == definitions(list@),
            item == own@,
            forall|j: int|
                at <= j < before.len() ==> sorting::before(
                    definition_key()(item),
                    definition_key()(#[trigger] before[j]),
                ),
        decreases at,
    {
        assert(before[at - 1] == list@[at - 1]@);
        at = at - 1;
    }
    proof {
        if at > 0 {
            assert(before[at - 1] == list@[at - 1]@);
        }
        sorting::lemma_insertion_point(before, definition_key(), item, at as int);
    }
    list.insert(at, own);
    assert(definitions(list@) =~= before.take(at as int).push(item) + before.skip(at as int));
}

/// The tools that come with the agent.
pub open spec fn builtin_tools() -> Seq<BuiltinTool> {
    seq![
        BuiltinTool::ListFiles,
        BuiltinTool::ReadFile,
        BuiltinTool::Search,
        BuiltinTool::WriteFile,
        BuiltinTool::ApplyPatch,
        BuiltinTool::RunCommand,
        BuiltinTool::GitStatus,
        BuiltinTool::GitDiff,
    ]
}

proof fn lemma_builtin_names_differ()
    ensures
        is_unique(builtin_tools()),
{
    reveal_strlit("list_files");
    reveal_strlit("read_file");
    reveal_strlit("search");
    reveal_strlit("write_file");
    reveal_strlit("apply_patch");
    reveal_strlit("run_command");
    reveal_strlit("git_status");
    reveal_strlit("git_diff");
    let all = builtin_tools();
    assert forall|i: int, j: int| 0 <= i < j < all.len() implies (#[trigger]
    all[i]).defined().name != (#[trigger] all[j]).defined().name by {
        let a = all[i].defined().name;
        let b = all[j].defined().name;
        assert(a.len() != b.len() || a[0] != b[0] || a[1] != b[1]);
    }
}

/// Builds a registry of the tools that come with the agent.
#[must_use]
pub fn builtin_registry() -> (r: ToolRegistry<BuiltinTool>)
    ensures
        r.wf(),
        r.tools@ == builtin_tools(),
{
    proof {
        lemma_builtin_names_differ();
    }
    let mut tools: Vec<BuiltinTool> = Vec::new();
    tools.push(BuiltinTool::ListFiles);
    tools.push(BuiltinTool::ReadFile);
    tools.push(BuiltinTool::Search);
    tools.push(BuiltinTool::WriteFile);
    tools.push(BuiltinTool::ApplyPatch);
    tools.push(BuiltinTool::RunCommand);
    tools.push(BuiltinTool::GitStatus);
    tools.push(BuiltinTool::GitDiff);
    assert(tools@ =~= builtin_tools());
    ToolRegistry { tools }
}

} // verus!
