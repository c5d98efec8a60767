//! The facts shown in the chat transcript.

use vstd::prelude::*;

use crate::protocol::ToolActivityStatus;

verus! {

/// One rendered fact in the chat transcript.
#[derive(Clone, Debug, PartialEq, Eq)]
pub enum ChatEntry {
    /// A message the user sent.
    User(String),
    /// Assistant text, appended to while a response streams.
    Assistant(String),
    /// Reasoning text streamed separately from the final answer; never sent back as history.
    Reasoning(String),
    /// One tool call's lifecycle, updated in place as it progresses.
    Tool {
        /// Correlation id shared by the matching start/finish pair.
        id: String,
        /// Model-facing tool name.
        name: String,
        /// Current lifecycle status.
        status: ToolActivityStatus,
        /// Short human-readable status detail.
        detail: String,
        /// Accumulated output, bounded and expandable.
        output: String,
        /// Whether the full output is currently shown.
        expanded: bool,
    },
    /// Files affected by the tool calls in one run.
    FileChanges(Vec<String>),
    /// A non-fatal condition worth surfacing.
    Warning(String),
    /// A recoverable, inline error.
    Error(String),
    /// A neutral status note (command output, completion summary).
    Info(String),
}

/// Whether an entry is a status note with the given text.
pub open spec fn is_info(e: ChatEntry, text: Seq<char>) -> bool {
    e matches ChatEntry::Info(s) && s@ == text
}

/// Whether an entry is a warning with the given text.
pub open spec fn is_warning(e: ChatEntry, text: Seq<char>) -> bool {
    e matches ChatEntry::Warning(s) && s@ == text
}

/// Whether an entry is an inline error with the given text.
pub open spec fn is_error(e: ChatEntry, text: Seq<char>) -> bool {
    e matches ChatEntry::Error(s) && s@ == text
}

/// Whether an entry is assistant text.
pub open spec fn is_assistant(e: ChatEntry, text: Seq<char>) -> bool {
    e matches ChatEntry::Assistant(s) && s@ == text
}

/// Whether an entry is reasoning text.
pub open spec fn is_reasoning(e: ChatEntry, text: Seq<char>) -> bool {
    e matches ChatEntry::Reasoning(s) && s@ == text
}

/// Whether `post` is `pre` with exactly one more entry at the end.
pub open spec fn one_more(pre: Seq<ChatEntry>, post: Seq<ChatEntry>) -> bool {
    post.len() == pre.len() + 1 && post.drop_last() == pre
}

/// Whether `post` is `pre` and a status note.
pub open spec fn adds_info(pre: Seq<ChatEntry>, post: Seq<ChatEntry>, text: Seq<char>) -> bool {
    one_more(pre, post) && is_info(post.last(), text)
}

/// Whether `post` is `pre` and a warning.
pub open spec fn adds_warning(pre: Seq<ChatEntry>, post: Seq<ChatEntry>, text: Seq<char>) -> bool {
    one_more(pre, post) && is_warning(post.last(), text)
}

/// Whether `post` is `pre` and an inline error.
pub open spec fn adds_error(pre: Seq<ChatEntry>, post: Seq<ChatEntry>, text: Seq<char>) -> bool {
    one_more(pre, post) && is_error(post.last(), text)
}

/// Whether an entry is the tool call with the given id.
pub open spec fn is_tool_call(e: ChatEntry, id: Seq<char>) -> bool {
    e matches ChatEntry::Tool { id: i, .. } && i@ == id
}

/// The index of the last entry for a tool call, or -1.
pub open spec fn last_call(entries: Seq<ChatEntry>, id: Seq<char>) -> int
    decreases entries.len(),
{
    if entries.len() == 0 {
        -1
    } else if is_tool_call(entries.last(), id) {
        entries.len() - 1
    } else {
        last_call(entries.drop_last(), id)
    }
}

/// The index of the last tool entry, or -1.
pub open spec fn last_tool(entries: Seq<ChatEntry>) -> int
    decreases entries.len(),
{
    if entries.len() == 0 {
        -1
    } else if entries.last() is Tool {
        entries.len() - 1
    } else {
        last_tool(entries.drop_last())
    }
}

/// Finds the last entry for a tool call.
pub fn find_call(entries: &Vec<ChatEntry>, id: &str) -> (r: Option<usize>)
    ensures
        match r {
            Some(i) => i < entries@.len() && last_call(entries@, id@) == i && is_tool_call(
                entries@[i as int],
                id@,
            ),
            None => last_call(entries@, id@) == -1,
        },
{
    let mut n: usize = entries.len();
    assert(entries@.take(n as int) =~= entries@);
    while n > 0
        invariant
            n <= entries@.len(),
            last_call(entries@, id@) == last_call(entries@.take(n as int), id@),
        decreases n,
    {
        assert(entries@.take(n as int).drop_last() =~= entries@.take(n - 1));
        assert(entries@.take(n as int).last() == entries@[n - 1]);
        match &entries[n - 1] {
            ChatEntry::Tool { id: entry_id, .. } => {
                if crate::text::same_text(entry_id.as_str(), id) {
                    return Some(n - 1);
                }
            },
            _ => {},
        }
        n = n - 1;
    }
    None
}

/// Finds the last tool entry.
pub fn find_tool(entries: &Vec<ChatEntry>) -> (r: Option<usize>)
    ensures
        match r {
            Some(i) => i < entries@.len() && last_tool(entries@) == i && entries@[i as int] is Tool,
            None => last_tool(entries@) == -1,
        },
{
    let mut n: usize = entries.len();
    assert(entries@.take(n as int) =~= entries@);
    while n > 0
        invariant
            n <= entries@.len(),
            last_tool(entries@) == last_tool(entries@.take(n as int)),
        decreases n,
    {
        assert(entries@.take(n as int).drop_last() =~= entries@.take(n - 1));
        assert(entries@.take(n as int).last() == entries@[n - 1]);
        match &entries[n - 1] {
            ChatEntry::Tool { .. } => {
                return Some(n - 1);
            },
            _ => {},
        }
        n = n - 1;
    }
    None
}

/// The entry that `last_call` points at is the tool call, and no later entry is.
pub proof fn lemma_last_call(entries: Seq<ChatEntry>, id: Seq<char>)
    ensures
        -1 <= last_call(entries, id) < entries.len(),
        last_call(entries, id) >= 0 ==> is_tool_call(entries[last_call(entries, id)], id),
        forall|j: int|
            last_call(entries, id) < j < entries.len() ==> !is_tool_call(#[trigger] entries[j], id),
    decreases entries.len(),
{
    if entries.len() > 0 && !is_tool_call(entries.last(), id) {
        lemma_last_call(entries.drop_last(), id);
        assert forall|j: int| last_call(entries, id) < j < entries.len() implies !is_tool_call(
            #[trigger] entries[j],
            id,
        ) by {
            if j < entries.len() - 1 {
                assert(entries.drop_last()[j] == entries[j]);
            }
        }
    }
}

} // verus!
