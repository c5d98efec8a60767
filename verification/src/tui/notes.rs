//! The texts that the interface puts into the transcript.

use vstd::prelude::*;

use crate::protocol::{ConflictingFile, DebugInvestigation, UndoTransactionResult, WorktreeSummary};
use crate::text;
use crate::text_laws;
use crate::text::{cat2, cat3, cat4, cat5, join, number, same_text};

verus! {

/// One line of the worktree list.
pub open spec fn worktree_line(w: WorktreeSummary) -> Seq<char> {
    let branch = match w.branch {
        Some(b) => b@,
        None => "(detached HEAD)"@,
    };
    let label = if w.is_main {
        " (main)"@
    } else {
        ""@
    };
    w.path@ + label + " — "@ + branch
}

/// The worktree list: one line per worktree, in the order given.
pub open spec fn worktree_list_text(worktrees: Seq<WorktreeSummary>) -> Seq<char> {
    if worktrees.len() == 0 {
        "No worktrees found."@
    } else {
        text::joined(Seq::new(worktrees.len(), |i: int| worktree_line(worktrees[i])), "\n"@)
    }
}

/// Renders the worktree list.
pub fn format_worktree_list(worktrees: &Vec<WorktreeSummary>) -> (r: String)
    ensures
        r@ == worktree_list_text(worktrees@),
{
    if worktrees.len() == 0 {
        return "No worktrees found.".to_owned();
    }
    let mut lines: Vec<String> = Vec::new();
    let mut i: usize = 0;
    while i < worktrees.len()
        invariant
            i <= worktrees@.len(),
            text::texts(lines@) == Seq::new(i as nat, |j: int| worktree_line(worktrees@[j])),
        decreases worktrees@.len() - i,
    {
        let w: &WorktreeSummary = &worktrees[i];
        let branch: &str = match &w.branch {
            Some(b) => b.as_str(),
            None => "(detached HEAD)",
        };
        let label: &str = if w.is_main {
            " (main)"
        } else {
            ""
        };
        let ghost before = text::texts(lines@);
        lines.push(cat4(w.path.as_str(), label, " — ", branch));
        assert(text::texts(lines@) =~= before.push(worktree_line(worktrees@[i as int])));
        i = i + 1;
        assert(text::texts(lines@) =~= Seq::new(i as nat, |j: int| worktree_line(worktrees@[j])));
    }
    assert(text::texts(lines@) =~= Seq::new(
        worktrees@.len(),
        |j: int| worktree_line(worktrees@[j]),
    ));
    join(&lines, "\n")
}

/// One file outcome of a transaction.
pub open spec fn action_item(file: (String, String)) -> Seq<char> {
    file.1@ + " `"@ + file.0@ + "`"@
}

/// One transaction's file outcomes.
pub open spec fn action_list_text(files: Seq<(String, String)>) -> Seq<char> {
    text::joined(Seq::new(files.len(), |i: int| action_item(files[i])), ", "@)
}

/// Renders one transaction's file outcomes as a comma-separated `action path` list.
pub fn format_action_list(files: &Vec<(String, String)>) -> (r: String)
    ensures
        r@ == action_list_text(files@),
{
    let mut items: Vec<String> = Vec::new();
    let mut i: usize = 0;
    while i < files.len()
        invariant
            i <= files@.len(),
            text::texts(items@) == Seq::new(i as nat, |j: int| action_item(files@[j])),
        decreases files@.len() - i,
    {
        let ghost before = text::texts(items@);
        items.push(cat4(files[i].1.as_str(), " `", files[i].0.as_str(), "`"));
        assert(text::texts(items@) =~= before.push(action_item(files@[i as int])));
        i = i + 1;
        assert(text::texts(items@) =~= Seq::new(i as nat, |j: int| action_item(files@[j])));
    }
    assert(text::texts(items@) =~= Seq::new(files@.len(), |j: int| action_item(files@[j])));
    join(&items, ", ")
}

/// One transaction's line in a longer summary.
pub open spec fn transaction_line(t: UndoTransactionResult) -> Seq<char> {
    "- '"@ + t.description@ + "' — "@ + action_list_text(t.files@)
}

/// The summary of the transactions that were undone or redone.
pub open spec fn undo_summary_text(
    verb: Seq<char>,
    transactions: Seq<UndoTransactionResult>,
) -> Seq<char> {
    if transactions.len() == 1 {
        verb + " '"@ + transactions[0].description@ + "' — "@ + (action_list_text(
            transactions[0].files@,
        ) + "."@)
    } else {
        text::joined(
            seq![verb + " "@ + text::decimal(transactions.len()) + " transaction(s):"@] + Seq::new(
                transactions.len(),
                |i: int| transaction_line(transactions[i]),
            ),
            "\n"@,
        )
    }
}

/// Renders one or more applied undo/redo transactions as a single chat entry.
pub fn format_undo_summary(verb: &str, transactions: &Vec<UndoTransactionResult>) -> (r: String)
    ensures
        r@ == undo_summary_text(verb@, transactions@),
{
    if transactions.len() == 1 {
        let list: String = format_action_list(&transactions[0].files);
        let tail: String = cat2(list.as_str(), ".");
        return cat5(verb, " '", transactions[0].description.as_str(), "' — ", tail.as_str());
    }
    let count: String = number(transactions.len() as u64);
    let head: String = cat4(verb, " ", count.as_str(), " transaction(s):");
    let ghost first = head@;
    let mut lines: Vec<String> = Vec::new();
    lines.push(head);
    let mut i: usize = 0;
    assert(text::texts(lines@) =~= seq![first] + Seq::new(
        0,
        |j: int| transaction_line(transactions@[j]),
    ));
    while i < transactions.len()
        invariant
            i <= transactions@.len(),
            text::texts(lines@) == seq![first] + Seq::new(
                i as nat,
                |j: int| transaction_line(transactions@[j]),
            ),
        decreases transactions@.len() - i,
    {
        let ghost before = text::texts(lines@);
        let list: String = format_action_list(&transactions[i].files);
        lines.push(cat4("- '", transactions[i].description.as_str(), "' — ", list.as_str()));
        assert(text::texts(lines@) =~= before.push(transaction_line(transactions@[i as int])));
        i = i + 1;
        assert(text::texts(lines@) =~= seq![first] + Seq::new(
            i as nat,
            |j: int| transaction_line(transactions@[j]),
        ));
    }
    join(&lines, "\n")
}

/// The paths of conflicting files, each in back quotes.
pub open spec fn quoted_paths(files: Seq<ConflictingFile>) -> Seq<char> {
    text::joined(Seq::new(files.len(), |i: int| "`"@ + files[i].path@ + "`"@), ", "@)
}

/// Renders the paths of conflicting files.
pub fn format_quoted_paths(files: &Vec<ConflictingFile>) -> (r: String)
    ensures
        r@ == quoted_paths(files@),
{
    let mut items: Vec<String> = Vec::new();
    let mut i: usize = 0;
    while i < files.len()
        invariant
            i <= files@.len(),
            text::texts(items@) == Seq::new(i as nat, |j: int| "`"@ + files@[j].path@ + "`"@),
        decreases files@.len() - i,
    {
        let ghost before = text::texts(items@);
        items.push(cat3("`", files[i].path.as_str(), "`"));
        assert(text::texts(items@) =~= before.push("`"@ + files@[i as int].path@ + "`"@));
        i = i + 1;
        assert(text::texts(items@) =~= Seq::new(
            i as nat,
            |j: int| "`"@ + files@[j].path@ + "`"@,
        ));
    }
    assert(text::texts(items@) =~= Seq::new(
        files@.len(),
        |j: int| "`"@ + files@[j].path@ + "`"@,
    ));
    join(&items, ", ")
}

/// Whether a direction names a redo; anything else counts as an undo.
pub open spec fn is_redo(direction: Seq<char>) -> bool {
    direction == "redo"@
}

/// `"Redid"` or `"Undid"`.
pub open spec fn done_verb(direction: Seq<char>) -> Seq<char> {
    if is_redo(direction) {
        "Redid"@
    } else {
        "Undid"@
    }
}

/// `"Redo"` or `"Undo"`.
pub open spec fn action_name(direction: Seq<char>) -> Seq<char> {
    if is_redo(direction) {
        "Redo"@
    } else {
        "Undo"@
    }
}

/// Renders what was done.
pub fn done_word(direction: &str) -> (r: &'static str)
    ensures
        r@ == done_verb(direction@),
{
    if same_text(direction, "redo") {
        "Redid"
    } else {
        "Undid"
    }
}

/// Renders the name of the action.
pub fn action_word(direction: &str) -> (r: &'static str)
    ensures
        r@ == action_name(direction@),
{
    if same_text(direction, "redo") {
        "Redo"
    } else {
        "Undo"
    }
}

/// The note on an undo or redo that stopped at a conflict.
pub open spec fn conflict_text(direction: Seq<char>, files: Seq<ConflictingFile>) -> Seq<char> {
    action_name(direction) + " stopped: "@ + quoted_paths(files)
        + " changed since the agent's edit and would be overwritten. Press F to force it anyway, D to view the diff, or C/Esc to cancel."@
}

/// Renders the note on a conflict.
pub fn format_conflict(direction: &str, files: &Vec<ConflictingFile>) -> (r: String)
    ensures
        r@ == conflict_text(direction@, files@),
{
    let paths: String = format_quoted_paths(files);
    cat4(
        action_word(direction),
        " stopped: ",
        paths.as_str(),
        " changed since the agent's edit and would be overwritten. Press F to force it anyway, D to view the diff, or C/Esc to cancel.",
    )
}

/// The closing line of a run.
pub open spec fn totals_text(
    partial: bool,
    turns: nat,
    tool_calls: nat,
    failed: nat,
) -> Seq<char> {
    let status = if partial {
        "Stopped early"@
    } else {
        "Done"@
    };
    status + " — "@ + text::decimal(turns) + " turn(s), "@ + (text::decimal(tool_calls)
        + " tool call(s), "@ + text::decimal(failed) + " failed."@)
}

/// Renders the closing line of a run.
pub fn format_totals(partial: bool, turns: u64, tool_calls: u64, failed: u64) -> (r: String)
    ensures
        r@ == totals_text(partial, turns as nat, tool_calls as nat, failed as nat),
{
    let status: &str = if partial {
        "Stopped early"
    } else {
        "Done"
    };
    let a: String = number(turns);
    let b: String = number(tool_calls);
    let c: String = number(failed);
    let tail: String = cat4(b.as_str(), " tool call(s), ", c.as_str(), " failed.");
    cat5(status, " — ", a.as_str(), " turn(s), ", tail.as_str())
}

/// The note on a created worktree.
pub open spec fn worktree_created_text(path: Seq<char>, branch: Seq<char>) -> Seq<char> {
    "Created worktree at "@ + path + " on branch '"@ + branch
        + "'.\nSwitched this session's working directory there.\nReturn to the original workspace with `/worktree switch` (or `/worktree list` to see every worktree)."@
}

/// The note on a switch to another worktree.
pub open spec fn worktree_switched_text(path: Seq<char>, branch: Seq<char>) -> Seq<char> {
    "Switched this session's working directory to "@ + path + " (branch '"@ + branch + "')."@
}

/// The note on a removed worktree.
pub open spec fn worktree_removed_text(
    path: Seq<char>,
    switched_to: Option<Seq<char>>,
) -> Seq<char> {
    let first = "Removed worktree "@ + path + "."@;
    match switched_to {
        Some(to) => first + "\nThat was this session's current worktree; switched back to "@ + to
            + "."@,
        None => first,
    }
}

/// Renders the note on a removed worktree.
pub fn format_worktree_removed(path: &str, switched_to: &Option<String>) -> (r: String)
    ensures
        r@ == worktree_removed_text(path@, text::opt_text(*switched_to)),
{
    let first: String = cat3("Removed worktree ", path, ".");
    match switched_to {
        Some(to) => cat4(
            first.as_str(),
            "\nThat was this session's current worktree; switched back to ",
            to.as_str(),
            ".",
        ),
        None => first,
    }
}

/// The note that invites the user to authorize an MCP server.
pub open spec fn authorize_text(server: Seq<char>, url: Seq<char>) -> Seq<char> {
    "Opening your browser to authorize MCP server '"@ + server
        + "'. If it didn't open, visit: "@ + url
}

/// The account of an active investigation.
pub open spec fn debug_status_text(debug: DebugInvestigation) -> Seq<char> {
    if !debug.active {
        "Nenhuma investigação /debug ativa."@
    } else {
        let hypothesis = match debug.hypothesis {
            Some(h) => h@,
            None => "ainda não definida"@,
        };
        let evidence = if debug.evidence_count == 0 {
            "nenhuma"@
        } else {
            "coletada"@
        };
        let question = match debug.next_question {
            Some(q) => "Informação pendente: "@ + q@,
            None => "Triagem concluída; aguardando investigação."@,
        };
        "Debug — Investigando\nHipótese atual: "@ + hypothesis + "\nEvidências: "@ + evidence + (
        "\nComandos executados: "@ + text::decimal(debug.command_count as nat) + "\n"@ + question)
    }
}

/// Renders the account of an investigation.
pub fn debug_status(debug: &DebugInvestigation) -> (r: String)
    ensures
        r@ == debug_status_text(*debug),
{
    if !debug.active {
        return "Nenhuma investigação /debug ativa.".to_owned();
    }
    let hypothesis: &str = match &debug.hypothesis {
        Some(h) => h.as_str(),
        None => "ainda não definida",
    };
    let evidence: &str = if debug.evidence_count == 0 {
        "nenhuma"
    } else {
        "coletada"
    };
    let question: String = match &debug.next_question {
        Some(q) => cat2("Informação pendente: ", q.as_str()),
        None => "Triagem concluída; aguardando investigação.".to_owned(),
    };
    let count: String = number(debug.command_count as u64);
    let tail: String = cat4("\nComandos executados: ", count.as_str(), "\n", question.as_str());
    cat5(
        "Debug — Investigando\nHipótese atual: ",
        hypothesis,
        "\nEvidências: ",
        evidence,
        tail.as_str(),
    )
}

/// The summary of an investigation.
pub open spec fn debug_summary_text(debug: DebugInvestigation) -> Seq<char> {
    let description = match debug.description {
        Some(d) => d@,
        None => "Fluxo guiado /debug"@,
    };
    let hypothesis = match debug.hypothesis {
        Some(h) => h@,
        None => "não confirmada"@,
    };
    let evidence = if debug.evidence_count == 0 {
        "nenhuma"@
    } else {
        "coletadas"@
    };
    let commands = if debug.command_count == 0 {
        "nenhum"@
    } else {
        "registrados"@
    };
    let state = if debug.stopped {
        "interrompido"@
    } else if debug.active {
        "em andamento"@
    } else {
        "não iniciado"@
    };
    "Debug summary\nProblema: "@ + description + "\nHipótese: "@ + hypothesis + (
    "\nEvidências: "@ + evidence + "\nComandos: "@ + commands + ("\nEstado: "@ + state))
}

/// Renders the summary of an investigation.
pub fn debug_summary(debug: &DebugInvestigation) -> (r: String)
    ensures
        r@ == debug_summary_text(*debug),
{
    let description: &str = match &debug.description {
        Some(d) => d.as_str(),
        None => "Fluxo guiado /debug",
    };
    let hypothesis: &str = match &debug.hypothesis {
        Some(h) => h.as_str(),
        None => "não confirmada",
    };
    let evidence: &str = if debug.evidence_count == 0 {
        "nenhuma"
    } else {
        "coletadas"
    };
    let commands: &str = if debug.command_count == 0 {
        "nenhum"
    } else {
        "registrados"
    };
    let state: &str = if debug.stopped {
        "interrompido"
    } else if debug.active {
        "em andamento"
    } else {
        "não iniciado"
    };
    let last: String = cat2("\nEstado: ", state);
    let tail: String = cat5("\nEvidências: ", evidence, "\nComandos: ", commands, last.as_str());
    cat5("Debug summary\nProblema: ", description, "\nHipótese: ", hypothesis, tail.as_str())
}

/// Worktrees are listed one to a line, in their order: the path, a mark for the main one, and the
/// branch, or that there is none.
pub proof fn law_worktrees_are_listed_one_to_a_line(worktrees: Seq<WorktreeSummary>)
    requires
        worktrees.len() > 0,
        forall|i: int|
            0 <= i < worktrees.len() ==> text_laws::lacks(
                worktree_line(#[trigger] worktrees[i]),
                '\n',
            ),
    ensures
        ({
            let lines = text::split_on(worktree_list_text(worktrees), '\n');
            &&& lines.len() == worktrees.len()
            &&& forall|i: int|
                0 <= i < worktrees.len() ==> #[trigger] lines[i] == worktrees[i].path@ + (
                if worktrees[i].is_main {
                    " (main)"@
                } else {
                    Seq::empty()
                }) + " — "@ + (match worktrees[i].branch {
                    Some(b) => b@,
                    None => "(detached HEAD)"@,
                })
        }),
{
    reveal_strlit("\n");
    assert("\n"@ =~= seq!['\n']);
    reveal_strlit("");
    assert(""@ =~= Seq::empty());
    let all = Seq::new(worktrees.len(), |i: int| worktree_line(worktrees[i]));
    assert(text_laws::all_lack(all, '\n')) by {
        assert forall|i: int| 0 <= i < all.len() implies text_laws::lacks(#[trigger] all[i], '\n') by {
            assert(all[i] == worktree_line(worktrees[i]));
        }
    }
    text_laws::law_pieces_make_the_text(Seq::empty(), all, '\n');
}

} // verus!
