//! Listing files and directories.

use vstd::prelude::*;

use crate::text;
use crate::text_laws;
use crate::text::{cat3, number};
use crate::tools::contract::{
    Failure, FailureKind, ToolCallId, ToolDefinition, ToolError, ToolOutput, ToolResult, ToolStatus,
};
use crate::tools::path;
use crate::tools::path::Workspace;
use crate::tools::permissions::PermissionReason;
use crate::tools::workspace;
use crate::tools::workspace::{count_listable, list_walk, DiscoveredEntry, WalkedEntry};

verus! {

/// How deep a listing goes unless something else is asked for.
pub const DEFAULT_DEPTH: usize = 2;

/// How many entries are listed unless something else is asked for.
pub const DEFAULT_LIMIT: usize = 200;

/// The name of the tool.
pub const NAME: &'static str = "list_files";

/// What the model is told of the tool.
pub const DESCRIPTION: &'static str = "List files and directories inside the current project, respecting .gitignore. Use this to orient before reading or searching. Does not load file contents.";

/// The JSON schema of its arguments.
pub const SCHEMA: &'static str = "{\"type\":\"object\",\"properties\":{\"path\":{\"type\":\"string\",\"description\":\"Project-relative directory to list, default \\\".\\\"\"},\"depth\":{\"type\":\"integer\",\"minimum\":1,\"description\":\"Maximum directory depth, default 2\"},\"limit\":{\"type\":\"integer\",\"minimum\":1,\"description\":\"Maximum entries returned, default 200\"}},\"additionalProperties\":false}";

/// Says what the tool does and takes.
pub fn definition() -> (r: ToolDefinition)
    ensures
        r.says(NAME@, DESCRIPTION@, SCHEMA@),
{
    ToolDefinition::new(NAME, DESCRIPTION, SCHEMA)
}

/// The arguments of the tool.
#[derive(Debug, PartialEq, Eq)]
pub struct ListRequest {
    pub path: String,
    pub depth: usize,
    pub limit: usize,
}

impl ListRequest {
    /// What is asked for where nothing is said.
    pub fn new() -> (r: ListRequest)
        ensures
            r.path@ == "."@,
            r.depth == DEFAULT_DEPTH,
            r.limit == DEFAULT_LIMIT,
    {
        ListRequest { path: ".".to_owned(), depth: DEFAULT_DEPTH, limit: DEFAULT_LIMIT }
    }
}

/// One line of a listing; a directory has a slash behind it.
pub open spec fn entry_line(e: (Seq<char>, bool)) -> Seq<char> {
    if e.1 {
        e.0 + "/"@ + "\n"@
    } else {
        e.0 + "\n"@
    }
}

/// The lines of a listing.
pub open spec fn entry_lines(list: Seq<(Seq<char>, bool)>) -> Seq<char>
    decreases list.len(),
{
    if list.len() == 0 {
        Seq::empty()
    } else {
        entry_lines(list.drop_last()) + entry_line(list.last())
    }
}

/// What is shown of a listing, which may leave something out.
pub open spec fn shown(list: Seq<(Seq<char>, bool)>, limit: nat, truncated: bool) -> Seq<char> {
    let body = if list.len() == 0 {
        "(no entries)\n"@
    } else {
        entry_lines(list)
    };
    if truncated {
        body + ("[Output truncated at "@ + text::decimal(limit) + " entries.]\n"@)
    } else {
        body
    }
}

/// Shows a listing, which may leave something out.
pub fn render(list: &Vec<DiscoveredEntry>, limit: usize, truncated: bool) -> (r: String)
    ensures
        r@ == shown(workspace::listed(list@), limit as nat, truncated),
{
    let ghost all = workspace::listed(list@);
    let mut out: String = String::new();
    let mut i: usize = 0;
    assert(all.take(0) =~= Seq::empty());
    assert(out@ =~= entry_lines(all.take(0)));
    while i < list.len()
        invariant
            i <= list@.len(),
            all == workspace::listed(list@),
            out@ == entry_lines(all.take(i as int)),
        decreases list@.len() - i,
    {
        proof {
            assert(all[i as int] == (list@[i as int].relative_path@, list@[i as int].is_dir));
            assert(all.take(i + 1).drop_last() =~= all.take(i as int));
            assert(all.take(i + 1).last() == all[i as int]);
        }
        let line: String = if list[i].is_dir {
            cat3(list[i].relative_path.as_str(), "/", "\n")
        } else {
            text::cat2(list[i].relative_path.as_str(), "\n")
        };
        out.append(line.as_str());
        i = i + 1;
    }
    assert(all.take(i as int) =~= all);
    if list.len() == 0 {
        out = "(no entries)\n".to_owned();
    }
    if truncated {
        let n: String = number(limit as u64);
        let note: String = cat3("[Output truncated at ", n.as_str(), " entries.]\n");
        out.append(note.as_str());
    }
    out
}

/// Lists files: the permission to read, then the place, and what a walk met there. The output is
/// truncated exactly where the walk held an entry that is not in it.
pub fn list_files(
    workspace: &Workspace,
    call_id: ToolCallId,
    request: &ListRequest,
    permission: Result<(), PermissionReason>,
    exists_at: bool,
    walk: &Vec<WalkedEntry>,
) -> (r: Result<ToolResult, ToolError>)
    ensures
        match permission {
            Err(reason) => r matches Err(f) && f@ == (Failure {
                kind: FailureKind::PermissionDenied,
                text: reason.0@,
            }),
            Ok(_) => match workspace::listing_start(workspace@, request.path@, exists_at) {
                Err(e) => r matches Err(f) && f@ == e,
                Ok(start) => {
                    let list = workspace::listing(
                        workspace@,
                        start,
                        workspace::walked(walk@),
                        request.limit as nat,
                    );
                    let truncated = workspace::listable(start, workspace::walked(walk@))
                        > list.len();
                    r matches Ok(t) && t.is_plain(
                        call_id,
                        ToolStatus::Success,
                        shown(list, request.limit as nat, truncated),
                        truncated,
                    )
                },
            },
        },
{
    if let Err(reason) = permission {
        return Err(ToolError::PermissionDenied(reason.0));
    }
    match path::resolve_workspace_path(workspace, request.path.as_str()) {
        Ok(start) => {
            if !exists_at {
                return Err(ToolError::NotFound(start));
            }
            let list: Vec<DiscoveredEntry> = list_walk(
                workspace,
                start.as_str(),
                walk,
                request.limit,
            );
            assert(workspace::listed(list@).len() == list@.len());
            let truncated: bool = count_listable(start.as_str(), walk) > list.len();
            let content: String = render(&list, request.limit, truncated);
            Ok(ToolResult::success(call_id, ToolOutput { content, truncated }))
        },
        Err(e) => Err(e),
    }
}

/// A listing is shown one entry to a line, a directory with a slash behind it; where something was left
/// out, that is said in a last line.
pub proof fn law_a_listing_is_shown_one_entry_to_a_line(
    list: Seq<(Seq<char>, bool)>,
    limit: nat,
)
    requires
        list.len() > 0,
    ensures
        ({
            let rows = Seq::new(
                list.len(),
                |i: int|
                    if list[i].1 {
                        list[i].0 + seq!['/']
                    } else {
                        list[i].0
                    },
            );
            &&& shown(list, limit, false) == text_laws::ended(rows, seq!['\n'])
            &&& shown(list, limit, true) == text_laws::ended(
                rows.push("[Output truncated at "@ + text::decimal(limit) + " entries.]"@),
                seq!['\n'],
            )
        }),
{
    let rows = Seq::new(
        list.len(),
        |i: int|
            if list[i].1 {
                list[i].0 + seq!['/']
            } else {
                list[i].0
            },
    );
    let note = "[Output truncated at "@ + text::decimal(limit) + " entries.]"@;
    lemma_entry_lines(list);
    reveal_strlit(" entries.]\n");
    reveal_strlit(" entries.]");
    assert(" entries.]\n"@ =~= " entries.]"@ + seq!['\n']);
    assert(rows.push(note).drop_last() =~= rows);
    assert(shown(list, limit, true) =~= text_laws::ended(rows.push(note), seq!['\n']));
}

proof fn lemma_entry_lines(list: Seq<(Seq<char>, bool)>)
    ensures
        entry_lines(list) == text_laws::ended(
            Seq::new(
                list.len(),
                |i: int|
                    if list[i].1 {
                        list[i].0 + seq!['/']
                    } else {
                        list[i].0
                    },
            ),
            seq!['\n'],
        ),
    decreases list.len(),
{
    reveal_strlit("\n");
    reveal_strlit("/");
    assert("\n"@ =~= seq!['\n']);
    assert("/"@ =~= seq!['/']);
    let rows = Seq::new(
        list.len(),
        |i: int|
            if list[i].1 {
                list[i].0 + seq!['/']
            } else {
                list[i].0
            },
    );
    if list.len() > 0 {
        let some = list.drop_last();
        lemma_entry_lines(some);
        let before = Seq::new(
            some.len(),
            |i: int|
                if some[i].1 {
                    some[i].0 + seq!['/']
                } else {
                    some[i].0
                },
        );
        assert(rows.drop_last() =~= before);
        assert(entry_lines(list) =~= text_laws::ended(rows, seq!['\n']));
    } else {
        assert(rows =~= Seq::empty());
    }
}

} // verus!
