//! The arguments of `/worktree`, `/agent`, `/undo` and `/redo`.

use vstd::prelude::*;

use crate::protocol::{SubagentMode, WorktreeBranchSource};
use crate::text;
use crate::text_laws;
use crate::text::{cat2, cat3, chars_of, join, lower_char, number, parse_number, same_text, trim,
    words};
use crate::tui::state::AppState;

verus! {

// ---------------------------------------------------------------------------------------------
// Undo and redo
// ---------------------------------------------------------------------------------------------

/// The count asked for: one where nothing was typed, else a positive number.
pub open spec fn undo_count(raw: Seq<char>) -> Option<nat> {
    let typed = text::trimmed(raw);
    if typed.len() == 0 {
        Some(1)
    } else {
        match text::number_within(typed, usize::MAX as int) {
            Some(n) => if n > 0 {
                Some(n)
            } else {
                None
            },
            None => None,
        }
    }
}

/// Parses the raw text typed after `/undo` or `/redo`: empty means `1`; otherwise a positive
/// integer.
pub fn parse_undo_redo_count(raw: &str) -> (r: Result<usize, String>)
    ensures
        match r {
            Ok(n) => undo_count(raw@) == Some(n as nat),
            Err(message) => undo_count(raw@) is None && message@
                == "Usage: /undo [n] or /redo [n] (got `"@ + text::trimmed(raw@) + "`)"@,
        },
{
    let typed: String = trim(raw);
    if typed.as_str().is_empty() {
        return Ok(1);
    }
    match parse_number(typed.as_str(), usize::MAX as u64) {
        Some(n) => {
            if n > 0 {
                return Ok(n as usize);
            }
        },
        None => {},
    }
    Err(cat3("Usage: /undo [n] or /redo [n] (got `", typed.as_str(), "`)"))
}

// ---------------------------------------------------------------------------------------------
// Worktrees
// ---------------------------------------------------------------------------------------------

/// Whether a character is an ASCII letter or digit.
pub open spec fn is_alphanumeric(c: char) -> bool {
    ||| '0' <= c <= '9'
    ||| 'a' <= c <= 'z'
    ||| 'A' <= c <= 'Z'
}

/// Lower-case letters and digits, with one hyphen for each run of anything else between them.
pub open spec fn hyphenated(s: Seq<char>) -> Seq<char>
    decreases s.len(),
{
    if s.len() == 0 {
        Seq::empty()
    } else {
        let before = hyphenated(s.drop_last());
        if is_alphanumeric(s.last()) {
            before.push(text::lower(s.last()))
        } else if before.len() > 0 && before.last() != '-' {
            before.push('-')
        } else {
            before
        }
    }
}

/// The name segment made from a text: at most 40 characters, with no hyphen at the end.
pub open spec fn slug(s: Seq<char>) -> Seq<char> {
    let all = hyphenated(s);
    text::trimmed_end_of(
        if all.len() > 40 {
            all.take(40)
        } else {
            all
        },
        '-',
    )
}

/// Converts arbitrary text into a valid worktree/branch name segment: lowercase alphanumerics
/// separated by single hyphens, capped at a reasonable length.
pub fn slugify(s: &str) -> (r: String)
    ensures
        r@ == slug(s@),
{
    let v: Vec<char> = chars_of(s);
    let mut out: Vec<char> = Vec::new();
    let mut i: usize = 0;
    assert(out@ =~= hyphenated(v@.take(0)));
    while i < v.len()
        invariant
            i <= v@.len(),
            out@ == hyphenated(v@.take(i as int)),
        decreases v@.len() - i,
    {
        assert(v@.take(i + 1).drop_last() =~= v@.take(i as int));
        let c: char = v[i];
        if ('0' <= c && c <= '9') || ('a' <= c && c <= 'z') || ('A' <= c && c <= 'Z') {
            out.push(lower_char(c));
        } else if out.len() > 0 && out[out.len() - 1] != '-' {
            out.push('-');
        }
        i = i + 1;
    }
    assert(v@.take(i as int) =~= s@);
    let n: usize = if out.len() > 40 {
        40
    } else {
        out.len()
    };
    let kept: String = text::text_of(&out, 0, n);
    proof {
        if out@.len() > 40 {
            assert(kept@ =~= out@.take(40));
        } else {
            assert(kept@ =~= out@);
        }
    }
    text::trim_end_of(kept.as_str(), '-')
}

/// Whether a text holds only lower-case letters, digits and hyphens.
pub open spec fn is_segment(s: Seq<char>) -> bool {
    forall|i: int|
        0 <= i < s.len() ==> ('0' <= #[trigger] s[i] <= '9' || 'a' <= s[i] <= 'z' || s[i] == '-')
}

/// Whether no two hyphens stand side by side and none stands first.
pub open spec fn has_single_hyphens(s: Seq<char>) -> bool {
    &&& s.len() > 0 ==> s[0] != '-'
    &&& forall|i: int| 0 < i < s.len() && #[trigger] s[i] == '-' ==> s[i - 1] != '-'
}

proof fn lemma_hyphenated(s: Seq<char>)
    ensures
        is_segment(hyphenated(s)),
        has_single_hyphens(hyphenated(s)),
    decreases s.len(),
{
    if s.len() > 0 {
        lemma_hyphenated(s.drop_last());
    }
}

proof fn lemma_trimmed_end_of(s: Seq<char>, c: char)
    ensures
        text::trimmed_end_of(s, c).len() <= s.len(),
        text::trimmed_end_of(s, c) == s.take(text::trimmed_end_of(s, c).len() as int),
        text::trimmed_end_of(s, c).len() > 0 ==> text::trimmed_end_of(s, c).last() != c,
    decreases s.len(),
{
    if s.len() > 0 && s.last() == c {
        lemma_trimmed_end_of(s.drop_last(), c);
        let n = text::trimmed_end_of(s, c).len() as int;
        assert(s.drop_last().take(n) =~= s.take(n));
    } else {
        assert(s.take(s.len() as int) =~= s);
    }
}

/// A slug holds only lower-case letters, digits and single hyphens, begins and ends with a letter
/// or digit, and has at most 40 characters.
pub proof fn law_slug_is_a_name_segment(s: Seq<char>)
    ensures
        slug(s).len() <= 40,
        is_segment(slug(s)),
        has_single_hyphens(slug(s)),
        slug(s).len() > 0 ==> slug(s).last() != '-',
{
    lemma_hyphenated(s);
    let all = hyphenated(s);
    let kept = if all.len() > 40 {
        all.take(40)
    } else {
        all
    };
    lemma_trimmed_end_of(kept, '-');
    let n = slug(s).len() as int;
    assert forall|i: int| 0 <= i < n implies #[trigger] slug(s)[i] == all[i] by {
        assert(kept.take(n)[i] == kept[i]);
    }
}

/// What a `/worktree` invocation, once parsed, should do.
#[derive(Debug, PartialEq, Eq)]
pub enum WorktreeInvocation {
    /// No arguments were given: prefill the composer with a name for the user to edit or confirm.
    SuggestName(String),
    List,
    Switch(String),
    /// `remove <target>`, still awaiting the user's explicit Y/N confirmation.
    ConfirmRemove(String),
    Create { name: String, branch: WorktreeBranchSource },
    /// Malformed subcommand usage, reported inline without contacting the runtime.
    Invalid(String),
}

/// The name suggested for a worktree: the session's name as a slug, or one made from the clock
/// where the session has no name of its own or nothing is left of it.
pub open spec fn suggested_name(session: Seq<char>, unix_seconds: nat) -> Seq<char> {
    if session.len() == 0 || session == "New session"@ || slug(session).len() == 0 {
        "task-"@ + text::decimal(unix_seconds)
    } else {
        slug(session)
    }
}

/// Derives a worktree/branch name candidate from the active session's name, falling back to a
/// timestamped default for a fresh session that has no name yet.
pub fn suggest_worktree_name(state: &AppState) -> (r: String)
    ensures
        r@ == suggested_name(state.session.current_session_name@, state.unix_seconds as nat),
{
    let name: &str = state.session.current_session_name.as_str();
    if !name.is_empty() && !same_text(name, "New session") {
        let candidate: String = slugify(name);
        if !candidate.as_str().is_empty() {
            return candidate;
        }
    }
    let seconds: String = number(state.unix_seconds);
    cat2("task-", seconds.as_str())
}

/// What the text typed after `/worktree` asks for.
pub open spec fn is_worktree_request(
    raw: Seq<char>,
    state: AppState,
    r: WorktreeInvocation,
) -> bool {
    let typed = text::trimmed(raw);
    let w = text::words_of(typed);
    let first = if w.len() > 0 {
        w[0]
    } else {
        Seq::empty()
    };
    if typed.len() == 0 {
        r matches WorktreeInvocation::SuggestName(s) && s@ == suggested_name(
            state.session.current_session_name@,
            state.unix_seconds as nat,
        )
    } else if first == "list"@ {
        r is List
    } else if first == "switch"@ {
        if w.len() > 1 {
            r matches WorktreeInvocation::Switch(s) && s@ == w[1]
        } else {
            r matches WorktreeInvocation::Invalid(s) && s@
                == "Usage: /worktree switch <name-or-path>"@
        }
    } else if first == "remove"@ {
        if w.len() > 1 {
            r matches WorktreeInvocation::ConfirmRemove(s) && s@ == w[1]
        } else {
            r matches WorktreeInvocation::Invalid(s) && s@
                == "Usage: /worktree remove <name-or-path>"@
        }
    } else {
        &&& r matches WorktreeInvocation::Create { name, branch }
        &&& name@ == first
        &&& match branch {
            WorktreeBranchSource::New => w.len() <= 1,
            WorktreeBranchSource::Existing(b) => w.len() > 1 && b@ == w[1],
        }
    }
}

/// Parses the raw text typed after `/worktree` into a concrete action. Recognizes `list`,
/// `switch <target>`, and `remove <target>` as subcommands; anything else is treated as
/// `<name> [existing-branch]` for creation.
pub fn parse_worktree_command(raw: &str, state: &AppState) -> (r: WorktreeInvocation)
    ensures
        is_worktree_request(raw@, *state, r),
{
    let typed: String = trim(raw);
    if typed.as_str().is_empty() {
        return WorktreeInvocation::SuggestName(suggest_worktree_name(state));
    }
    let w: Vec<String> = words(typed.as_str());
    let ghost all = text::words_of(typed@);
    let first: String = if w.len() > 0 {
        assert(all[0] == w@[0]@);
        w[0].clone()
    } else {
        String::new()
    };
    let second: Option<String> = if w.len() > 1 {
        assert(all[1] == w@[1]@);
        Some(w[1].clone())
    } else {
        None
    };
    assert(w@.len() == 0 ==> first@ =~= Seq::<char>::empty());
    if same_text(first.as_str(), "list") {
        WorktreeInvocation::List
    } else if same_text(first.as_str(), "switch") {
        match second {
            Some(target) => WorktreeInvocation::Switch(target),
            None => WorktreeInvocation::Invalid(
                "Usage: /worktree switch <name-or-path>".to_owned(),
            ),
        }
    } else if same_text(first.as_str(), "remove") {
        match second {
            Some(target) => WorktreeInvocation::ConfirmRemove(target),
            None => WorktreeInvocation::Invalid(
                "Usage: /worktree remove <name-or-path>".to_owned(),
            ),
        }
    } else {
        let branch: WorktreeBranchSource = match second {
            Some(existing) => WorktreeBranchSource::Existing(existing),
            None => WorktreeBranchSource::New,
        };
        WorktreeInvocation::Create { name: first, branch }
    }
}

// ---------------------------------------------------------------------------------------------
// Subagents
// ---------------------------------------------------------------------------------------------

/// A mode of subagents, and the word that names it on a command line.
#[derive(Debug, PartialEq, Eq)]
pub struct ModeEntry {
    pub mode: SubagentMode,
    pub name: String,
}

/// The mode that a word names, by the entries from `from` on.
pub open spec fn mode_named(modes: Seq<ModeEntry>, word: Seq<char>, from: int) -> Option<SubagentMode>
    decreases modes.len() - from,
{
    if from >= modes.len() {
        None
    } else if modes[from].name@ == word {
        Some(modes[from].mode)
    } else {
        mode_named(modes, word, from + 1)
    }
}

/// Finds the mode that a word names.
pub fn find_mode(modes: &Vec<ModeEntry>, word: &str) -> (r: Option<SubagentMode>)
    ensures
        r == mode_named(modes@, word@, 0),
{
    let mut i: usize = 0;
    while i < modes.len()
        invariant
            i <= modes@.len(),
            mode_named(modes@, word@, 0) == mode_named(modes@, word@, i as int),
        decreases modes@.len() - i,
    {
        if same_text(modes[i].name.as_str(), word) {
            return Some(modes[i].mode);
        }
        i = i + 1;
    }
    None
}

/// One parsed `/agent <subcommand> ...` invocation.
#[derive(Debug, PartialEq, Eq)]
pub enum AgentInvocation {
    Spawn { task: String, mode: SubagentMode, model: Option<String>, worktree: bool },
    Status(String),
    Message { id: String, text: String },
    Stop(String),
    Result(String),
    /// `apply <id>`: request the diff. `apply <id> confirm`: merge it in.
    Apply { id: String, confirm: bool },
    /// `cleanup <id>`: request the warning. `cleanup <id> confirm`: remove it.
    Cleanup { id: String, confirm: bool },
    /// Malformed subcommand usage, reported inline without contacting the runtime.
    Invalid(String),
}

/// What has been read of a spawn request so far.
pub struct SpawnView {
    pub mode: SubagentMode,
    pub model: Option<Seq<char>>,
    pub worktree: bool,
    pub task: Seq<Seq<char>>,
}

/// What the words from `i` on add to a spawn request, or the usage that they break. Flags may
/// stand anywhere; every other word belongs to the task, in order.
pub open spec fn spawn_from(
    modes: Seq<ModeEntry>,
    rest: Seq<Seq<char>>,
    i: int,
    so_far: SpawnView,
) -> Result<SpawnView, Seq<char>>
    decreases rest.len() - i,
{
    if i >= rest.len() {
        Ok(so_far)
    } else if rest[i] == "--mode"@ {
        if i + 1 < rest.len() && mode_named(modes, rest[i + 1], 0) is Some {
            spawn_from(
                modes,
                rest,
                i + 2,
                SpawnView { mode: mode_named(modes, rest[i + 1], 0)->Some_0, ..so_far },
            )
        } else {
            Err("Usage: --mode research|plan|implement|review"@)
        }
    } else if rest[i] == "--model"@ {
        if i + 1 < rest.len() {
            spawn_from(modes, rest, i + 2, SpawnView { model: Some(rest[i + 1]), ..so_far })
        } else {
            Err("Usage: --model <id>"@)
        }
    } else if rest[i] == "--worktree"@ {
        spawn_from(modes, rest, i + 1, SpawnView { worktree: true, ..so_far })
    } else if rest[i] == "--read-only"@ {
        spawn_from(modes, rest, i + 1, so_far)
    } else {
        spawn_from(modes, rest, i + 1, SpawnView { task: so_far.task.push(rest[i]), ..so_far })
    }
}

/// What the words after `spawn` ask for.
pub open spec fn is_spawn_request(
    modes: Seq<ModeEntry>,
    rest: Seq<Seq<char>>,
    r: AgentInvocation,
) -> bool {
    let start = SpawnView {
        mode: SubagentMode::Research,
        model: None,
        worktree: false,
        task: Seq::empty(),
    };
    match spawn_from(modes, rest, 0, start) {
        Err(usage) => r matches AgentInvocation::Invalid(s) && s@ == usage,
        Ok(asked) => {
            let whole = text::joined(asked.task, " "@);
            if whole.len() == 0 {
                r matches AgentInvocation::Invalid(s) && s@
                    == "Usage: /agent spawn <task> [--mode M] [--model X] [--worktree]"@
            } else if asked.worktree && asked.mode != SubagentMode::Implement {
                r matches AgentInvocation::Invalid(s) && s@
                    == "--worktree is only valid with --mode implement."@
            } else {
                &&& r matches AgentInvocation::Spawn { task, mode, model, worktree }
                &&& task@ == whole
                &&& mode == asked.mode
                &&& text::opt_text(model) == asked.model
                &&& worktree == asked.worktree
            }
        },
    }
}

/// Parses `/agent spawn <task...> [--mode research|plan|implement|review] [--model <id>]
/// [--worktree]`. Flags may appear anywhere; everything else is joined back into the task
/// description in its original order.
pub fn parse_agent_spawn(rest: &Vec<String>, modes: &Vec<ModeEntry>) -> (r: AgentInvocation)
    ensures
        is_spawn_request(modes@, text::texts(rest@), r),
{
    let ghost all = text::texts(rest@);
    let mut mode: SubagentMode = SubagentMode::Research;
    let mut model: Option<String> = None;
    let mut worktree: bool = false;
    let mut task_words: Vec<String> = Vec::new();
    let mut i: usize = 0;
    let ghost start = SpawnView {
        mode: SubagentMode::Research,
        model: None,
        worktree: false,
        task: Seq::empty(),
    };
    assert(text::texts(task_words@) =~= Seq::<Seq<char>>::empty());
    while i < rest.len()
        invariant
            i <= rest@.len(),
            all == text::texts(rest@),
            start == (SpawnView {
                mode: SubagentMode::Research,
                model: None,
                worktree: false,
                task: Seq::empty(),
            }),
            spawn_from(modes@, all, 0, start) == spawn_from(
                modes@,
                all,
                i as int,
                SpawnView {
                    mode,
                    model: text::opt_text(model),
                    worktree,
                    task: text::texts(task_words@),
                },
            ),
        decreases rest@.len() - i,
    {
        let word: &str = rest[i].as_str();
        assert(all[i as int] == word@);
        if same_text(word, "--mode") {
            let parsed: Option<SubagentMode> = if i + 1 < rest.len() {
                assert(all[i + 1] == rest@[i + 1]@);
                find_mode(modes, rest[i + 1].as_str())
            } else {
                None
            };
            match parsed {
                Some(m) => {
                    mode = m;
                },
                None => {
                    return AgentInvocation::Invalid(
                        "Usage: --mode research|plan|implement|review".to_owned(),
                    );
                },
            }
            i = i + 2;
        } else if same_text(word, "--model") {
            if i + 1 >= rest.len() {
                return AgentInvocation::Invalid("Usage: --model <id>".to_owned());
            }
            assert(all[i + 1] == rest@[i + 1]@);
            model = Some(rest[i + 1].clone());
            i = i + 2;
        } else if same_text(word, "--worktree") {
            worktree = true;
            i = i + 1;
        } else if same_text(word, "--read-only") {
            i = i + 1;
        } else {
            let ghost before = text::texts(task_words@);
            task_words.push(rest[i].clone());
            assert(text::texts(task_words@) =~= before.push(all[i as int]));
            i = i + 1;
        }
    }
    let task: String = join(&task_words, " ");
    if task.as_str().is_empty() {
        return AgentInvocation::Invalid(
            "Usage: /agent spawn <task> [--mode M] [--model X] [--worktree]".to_owned(),
        );
    }
    if worktree && mode != SubagentMode::Implement {
        return AgentInvocation::Invalid(
            "--worktree is only valid with --mode implement.".to_owned(),
        );
    }
    AgentInvocation::Spawn { task, mode, model, worktree }
}

/// Whether an invocation is malformed, with the given message.
pub open spec fn is_invalid(r: AgentInvocation, message: Seq<char>) -> bool {
    r matches AgentInvocation::Invalid(s) && s@ == message
}

/// What the text typed after `/agent` asks for.
pub open spec fn is_agent_request(
    raw: Seq<char>,
    modes: Seq<ModeEntry>,
    r: AgentInvocation,
) -> bool {
    let typed = text::trimmed(raw);
    let w = text::words_of(typed);
    let first = if w.len() > 0 {
        w[0]
    } else {
        Seq::empty()
    };
    let rest = if w.len() > 0 {
        w.skip(1)
    } else {
        Seq::empty()
    };
    let confirmed = rest.len() == 2 && rest[1] == "confirm"@;
    if typed.len() == 0 {
        is_invalid(r, "Usage: /agent spawn|status|message|stop|result|apply|cleanup ..."@)
    } else if first == "spawn"@ {
        is_spawn_request(modes, rest, r)
    } else if first == "status"@ {
        if rest.len() == 1 {
            r matches AgentInvocation::Status(s) && s@ == rest[0]
        } else {
            is_invalid(r, "Usage: /agent status <id>"@)
        }
    } else if first == "stop"@ {
        if rest.len() == 1 {
            r matches AgentInvocation::Stop(s) && s@ == rest[0]
        } else {
            is_invalid(r, "Usage: /agent stop <id>"@)
        }
    } else if first == "result"@ {
        if rest.len() == 1 {
            r matches AgentInvocation::Result(s) && s@ == rest[0]
        } else {
            is_invalid(r, "Usage: /agent result <id>"@)
        }
    } else if first == "message"@ {
        if rest.len() > 0 && text::joined(rest.skip(1), " "@).len() > 0 {
            &&& r matches AgentInvocation::Message { id, text: told }
            &&& id@ == rest[0]
            &&& told@ == text::joined(rest.skip(1), " "@)
        } else {
            is_invalid(r, "Usage: /agent message <id> <text>"@)
        }
    } else if first == "apply"@ {
        if rest.len() == 1 || confirmed {
            r matches AgentInvocation::Apply { id, confirm } && id@ == rest[0] && confirm
                == confirmed
        } else {
            is_invalid(r, "Usage: /agent apply <id> [confirm]"@)
        }
    } else if first == "cleanup"@ {
        if rest.len() == 1 || confirmed {
            r matches AgentInvocation::Cleanup { id, confirm } && id@ == rest[0] && confirm
                == confirmed
        } else {
            is_invalid(r, "Usage: /agent cleanup <id> [confirm]"@)
        }
    } else {
        is_invalid(
            r,
            "Unknown /agent subcommand '"@ + first
                + "'. Use spawn, status, message, stop, result, apply, or cleanup."@,
        )
    }
}

/// The single argument of a subcommand, where there is exactly one.
pub fn id_argument(rest: &Vec<String>) -> (r: Option<String>)
    ensures
        r == (if rest@.len() == 1 {
            Some(rest@[0])
        } else {
            None
        }),
{
    if rest.len() == 1 {
        Some(rest[0].clone())
    } else {
        None
    }
}

fn tail_of(w: &Vec<String>, from: usize) -> (r: Vec<String>)
    requires
        from <= w@.len(),
    ensures
        r@ == w@.skip(from as int),
        text::texts(r@) == text::texts(w@).skip(from as int),
{
    let mut r: Vec<String> = Vec::new();
    let mut i: usize = from;
    while i < w.len()
        invariant
            from <= i <= w@.len(),
            r@ == w@.subrange(from as int, i as int),
        decreases w@.len() - i,
    {
        r.push(w[i].clone());
        i = i + 1;
        assert(r@ =~= w@.subrange(from as int, i as int));
    }
    assert(r@ =~= w@.skip(from as int));
    assert(text::texts(r@) =~= text::texts(w@).skip(from as int));
    r
}

/// The id of an `apply` or `cleanup` request and whether it is confirmed.
fn confirmable(rest: &Vec<String>) -> (r: Option<(String, bool)>)
    ensures
        ({
            let all = text::texts(rest@);
            let confirmed = all.len() == 2 && all[1] == "confirm"@;
            match r {
                Some((id, confirm)) => (all.len() == 1 || confirmed) && id@ == all[0] && confirm
                    == confirmed,
                None => all.len() != 1 && !confirmed,
            }
        }),
{
    let ghost all = text::texts(rest@);
    if rest.len() == 1 {
        assert(all[0] == rest@[0]@);
        Some((rest[0].clone(), false))
    } else if rest.len() == 2 && same_text(rest[1].as_str(), "confirm") {
        assert(all[0] == rest@[0]@ && all[1] == rest@[1]@);
        Some((rest[0].clone(), true))
    } else {
        assert(rest@.len() == 2 ==> all[1] == rest@[1]@);
        None
    }
}

/// Parses the raw text typed after `/agent` into a concrete action.
pub fn parse_agent_command(raw: &str, modes: &Vec<ModeEntry>) -> (r: AgentInvocation)
    ensures
        is_agent_request(raw@, modes@, r),
{
    let typed: String = trim(raw);
    if typed.as_str().is_empty() {
        return AgentInvocation::Invalid(
            "Usage: /agent spawn|status|message|stop|result|apply|cleanup ...".to_owned(),
        );
    }
    let w: Vec<String> = words(typed.as_str());
    let ghost all = text::words_of(typed@);
    let (first, rest): (String, Vec<String>) = if w.len() > 0 {
        assert(all[0] == w@[0]@);
        (w[0].clone(), tail_of(&w, 1))
    } else {
        (String::new(), Vec::new())
    };
    let ghost after = text::texts(rest@);
    assert(w@.len() == 0 ==> first@ =~= Seq::<char>::empty() && after =~= Seq::<
        Seq<char>,
    >::empty());
    assert(rest@.len() > 0 ==> after[0] == rest@[0]@);
    let subcommand: &str = first.as_str();
    if same_text(subcommand, "spawn") {
        parse_agent_spawn(&rest, modes)
    } else if same_text(subcommand, "status") {
        match id_argument(&rest) {
            Some(id) => AgentInvocation::Status(id),
            None => AgentInvocation::Invalid("Usage: /agent status <id>".to_owned()),
        }
    } else if same_text(subcommand, "stop") {
        match id_argument(&rest) {
            Some(id) => AgentInvocation::Stop(id),
            None => AgentInvocation::Invalid("Usage: /agent stop <id>".to_owned()),
        }
    } else if same_text(subcommand, "result") {
        match id_argument(&rest) {
            Some(id) => AgentInvocation::Result(id),
            None => AgentInvocation::Invalid("Usage: /agent result <id>".to_owned()),
        }
    } else if same_text(subcommand, "message") {
        if rest.len() == 0 {
            return AgentInvocation::Invalid("Usage: /agent message <id> <text>".to_owned());
        }
        let told: String = join(&tail_of(&rest, 1), " ");
        if told.as_str().is_empty() {
            return AgentInvocation::Invalid("Usage: /agent message <id> <text>".to_owned());
        }
        AgentInvocation::Message { id: rest[0].clone(), text: told }
    } else if same_text(subcommand, "apply") {
        match confirmable(&rest) {
            Some((id, confirm)) => AgentInvocation::Apply { id, confirm },
            None => AgentInvocation::Invalid("Usage: /agent apply <id> [confirm]".to_owned()),
        }
    } else if same_text(subcommand, "cleanup") {
        match confirmable(&rest) {
            Some((id, confirm)) => AgentInvocation::Cleanup { id, confirm },
            None => AgentInvocation::Invalid("Usage: /agent cleanup <id> [confirm]".to_owned()),
        }
    } else {
        AgentInvocation::Invalid(
            cat3(
                "Unknown /agent subcommand '",
                subcommand,
                "'. Use spawn, status, message, stop, result, apply, or cleanup.",
            ),
        )
    }
}

// ---------------------------------------------------------------------------------------------
// Laws
// ---------------------------------------------------------------------------------------------

/// The count is the number that is written, whatever white space is around it, and one where nothing
/// is. Zero is no count, nor is a number that is too large.
pub proof fn law_the_count_is_what_is_written(pre: Seq<char>, n: nat, post: Seq<char>)
    requires
        text_laws::all_white(pre),
        text_laws::all_white(post),
    ensures
        undo_count(pre + post) == Some(1nat),
        undo_count(pre + text::decimal(n) + post) == (if 0 < n <= usize::MAX {
            Some(n)
        } else {
            None
        }),
{
    let d = text::decimal(n);
    let none = Seq::<char>::empty();
    text_laws::law_a_written_number_is_read_back(n);
    assert(text_laws::is_tight(d)) by {
        assert(text::is_digit(d[0]));
        assert(text::is_digit(d[d.len() - 1]));
        text_laws::law_white_space_of_ascii(d[0]);
        text_laws::law_white_space_of_ascii(d.last());
    }
    text_laws::law_trimming_takes_the_white_space_around(pre, d, post);
    text_laws::law_trimming_takes_the_white_space_around(pre, none, post);
    assert(pre + none + post =~= pre + post);
}

/// Whether a text holds lower-case letters and digits only.
pub open spec fn is_small(s: Seq<char>) -> bool {
    forall|i: int|
        0 <= i < s.len() ==> {
            let c = #[trigger] s[i];
            ('a' <= c && c <= 'z') || ('0' <= c && c <= '9')
        }
}

/// Whether a text holds no ASCII letter and no digit.
pub open spec fn is_between_words(s: Seq<char>) -> bool {
    forall|i: int|
        0 <= i < s.len() ==> {
            let c = #[trigger] s[i];
            !('a' <= c && c <= 'z') && !('A' <= c && c <= 'Z') && !('0' <= c && c <= '9')
        }
}

proof fn lemma_small_behind(a: Seq<char>, b: Seq<char>)
    requires
        is_small(b),
    ensures
        hyphenated(a + b) == hyphenated(a) + b,
    decreases b.len(),
{
    if b.len() == 0 {
        assert(a + b =~= a);
        assert(hyphenated(a) + b =~= hyphenated(a));
    } else {
        assert((a + b).drop_last() =~= a + b.drop_last());
        assert((a + b).last() == b.last());
        assert(b.last() == b[b.len() - 1]);
        assert(is_small(b.drop_last())) by {
            assert forall|i: int| 0 <= i < b.drop_last().len() implies is_small(
                seq![#[trigger] b.drop_last()[i]],
            ) by {
                assert(b.drop_last()[i] == b[i]);
            }
        }
        lemma_small_behind(a, b.drop_last());
        assert(hyphenated(a + b) =~= hyphenated(a) + b);
    }
}

proof fn lemma_gap_behind(a: Seq<char>, gap: Seq<char>)
    requires
        is_between_words(gap),
        gap.len() > 0,
    ensures
        hyphenated(a + gap) == (if hyphenated(a).len() == 0 || hyphenated(a).last() == '-' {
            hyphenated(a)
        } else {
            hyphenated(a).push('-')
        }),
    decreases gap.len(),
{
    let short = gap.drop_last();
    assert((a + gap).drop_last() =~= a + short);
    assert((a + gap).last() == gap.last());
    assert(gap.last() == gap[gap.len() - 1]);
    if short.len() == 0 {
        assert(a + short =~= a);
    } else {
        assert(is_between_words(short)) by {
            assert forall|i: int| 0 <= i < short.len() implies is_between_words(
                seq![#[trigger] short[i]],
            ) by {
                assert(short[i] == gap[i]);
            }
        }
        lemma_gap_behind(a, short);
    }
}

proof fn lemma_same_slug(s: Seq<char>)
    ensures
        hyphenated(text::lowered(s)) == hyphenated(s),
    decreases s.len(),
{
    let low = text::lowered(s);
    if s.len() > 0 {
        assert(low.drop_last() =~= text::lowered(s.drop_last()));
        assert(low.last() == text::lower(s.last()));
        lemma_same_slug(s.drop_last());
    } else {
        assert(low =~= s);
    }
}

/// A slug keeps the words of a text, up to 40 characters, in lower case and with one hyphen for
/// whatever stands between two of them, and leaves out what stands before the first and behind the
/// last.
pub proof fn law_a_slug_keeps_the_words(
    before: Seq<char>,
    a: Seq<char>,
    between: Seq<char>,
    b: Seq<char>,
    behind: Seq<char>,
)
    requires
        a.len() > 0 && is_small(a),
        b.len() > 0 && is_small(b),
        between.len() > 0 && is_between_words(between),
        is_between_words(before),
        is_between_words(behind),
    ensures
        a.len() + 1 + b.len() <= 40 ==> slug(before + a + between + b + behind) == a + seq!['-'] + b,
        a.len() > 40 ==> slug(before + a + between + b + behind) == a.take(40),
        slug(text::lowered(a + between + b)) == slug(a + between + b),
{
    let none = Seq::<char>::empty();
    let s = before + a + between + b + behind;
    if before.len() > 0 {
        lemma_gap_behind(none, before);
        assert(none + before =~= before);
    } else {
        assert(before =~= none);
    }
    assert(hyphenated(before) =~= none);
    lemma_small_behind(before, a);
    assert(hyphenated(before + a) =~= a);
    assert(a.last() == a[a.len() - 1] && a.last() != '-');
    lemma_gap_behind(before + a, between);
    lemma_small_behind(before + a + between, b);
    let both = a + seq!['-'] + b;
    assert(hyphenated(before + a + between + b) =~= both);
    assert(both.last() == b[b.len() - 1] && both.last() != '-');
    if behind.len() > 0 {
        lemma_gap_behind(before + a + between + b, behind);
        assert(both.push('-').drop_last() =~= both);
    } else {
        assert(s =~= before + a + between + b);
    }
    let all = hyphenated(s);
    assert(all == both || all == both.push('-'));
    if both.len() <= 40 {
        if all.len() > 40 {
            assert(all.take(40) =~= both);
        }
        assert(text::trimmed_end_of(both, '-') == both);
        assert(both.push('-').last() == '-');
        assert(text::trimmed_end_of(both.push('-'), '-') == text::trimmed_end_of(both, '-')) by {
            assert(both.push('-').drop_last() =~= both);
        }
    }
    if a.len() > 40 {
        assert(all.take(40) =~= a.take(40));
        assert(a.take(40).last() == a[39] && a[39] != '-');
    }
    lemma_same_slug(a + between + b);
}

/// The name suggested for a worktree is the session's as a slug. Where the session has none, or
/// nothing is left of it, it tells the time.
pub proof fn law_a_worktree_is_named_after_the_session(
    a: Seq<char>,
    between: Seq<char>,
    b: Seq<char>,
    unix_seconds: nat,
)
    requires
        a.len() > 0 && is_small(a),
        b.len() > 0 && is_small(b),
        between.len() > 0 && is_between_words(between),
        a.len() + 1 + b.len() <= 40,
    ensures
        suggested_name(a + between + b, unix_seconds) == a + seq!['-'] + b,
        suggested_name(between, unix_seconds) == "task-"@ + text::decimal(unix_seconds),
        suggested_name(Seq::empty(), unix_seconds) == "task-"@ + text::decimal(unix_seconds),
        suggested_name("New session"@, unix_seconds) == "task-"@ + text::decimal(unix_seconds),
{
    let none = Seq::<char>::empty();
    law_a_slug_keeps_the_words(none, a, between, b, none);
    assert(none + a + between + b + none =~= a + between + b);
    reveal_strlit("New session");
    assert("New session"@[0] == 'N');
    assert((a + between + b)[0] == a[0]);
    lemma_gap_behind(none, between);
    assert(none + between =~= between);
    assert(hyphenated(between).len() == 0);
}

/// The words after `/worktree` say what is asked for: nothing for a suggestion, `list`, `switch` and
/// `remove` with the one named behind them, or a new worktree's name and the branch behind it where
/// there is one already.
pub proof fn law_a_worktree_request_is_read_word_by_word(
    pre: Seq<char>,
    words: Seq<Seq<char>>,
    post: Seq<char>,
    state: AppState,
    r: WorktreeInvocation,
)
    requires
        text_laws::all_white(pre),
        text_laws::all_white(post),
        text_laws::are_words(words),
        is_worktree_request(pre + text::joined(words, " "@) + post, state, r),
    ensures
        words.len() == 0 ==> r is SuggestName,
        words.len() > 0 && words[0] == "list"@ ==> r is List,
        words == seq!["switch"@] || words == seq!["remove"@] ==> r is Invalid,
        words.len() > 1 && words[0] == "switch"@ ==> (r matches WorktreeInvocation::Switch(t) && t@
            == words[1]),
        words.len() > 1 && words[0] == "remove"@ ==> (r matches WorktreeInvocation::ConfirmRemove(t)
            && t@ == words[1]),
        words.len() > 0 && words[0] != "list"@ && words[0] != "switch"@ && words[0] != "remove"@
            ==> (r matches WorktreeInvocation::Create { name, branch } && name@ == words[0] && (
        match branch {
            WorktreeBranchSource::New => words.len() == 1,
            WorktreeBranchSource::Existing(own) => words.len() > 1 && own@ == words[1],
        })),
{
    text_laws::law_spaced_words_are_told_apart(pre, words, post);
    reveal_strlit("list");
    reveal_strlit("switch");
    reveal_strlit("remove");
    assert("list"@.len() != "switch"@.len() && "list"@.len() != "remove"@.len());
    assert("switch"@[0] == 's' && "remove"@[0] == 'r');
}

/// The words after `/agent` name the subcommand and, behind it, the one subagent that it is about.
/// A message is all the words behind that; merging and removing are confirmed by a last word.
/// Anything else is told to be malformed.
pub proof fn law_an_agent_request_is_read_word_by_word(
    pre: Seq<char>,
    words: Seq<Seq<char>>,
    post: Seq<char>,
    modes: Seq<ModeEntry>,
    r: AgentInvocation,
)
    requires
        text_laws::all_white(pre),
        text_laws::all_white(post),
        text_laws::are_words(words),
        is_agent_request(pre + text::joined(words, " "@) + post, modes, r),
    ensures
        ({
            let n = words.len();
            let confirmed = n == 3 && words[2] == "confirm"@;
            &&& n < 2 && (n == 0 || words[0] != "spawn"@) ==> r is Invalid
            &&& n > 0 && words[0] == "status"@ ==> if n == 2 {
                r matches AgentInvocation::Status(id) && id@ == words[1]
            } else {
                r is Invalid
            }
            &&& n > 0 && words[0] == "stop"@ ==> if n == 2 {
                r matches AgentInvocation::Stop(id) && id@ == words[1]
            } else {
                r is Invalid
            }
            &&& n > 0 && words[0] == "result"@ ==> if n == 2 {
                r matches AgentInvocation::Result(id) && id@ == words[1]
            } else {
                r is Invalid
            }
            &&& n > 0 && words[0] == "message"@ ==> if n > 2 {
                r matches AgentInvocation::Message { id, text: told } && id@ == words[1] && told@
                    == text::joined(words.skip(2), " "@)
            } else {
                r is Invalid
            }
            &&& n > 0 && words[0] == "apply"@ ==> if n == 2 || confirmed {
                r matches AgentInvocation::Apply { id, confirm } && id@ == words[1] && confirm
                    == (n == 3)
            } else {
                r is Invalid
            }
            &&& n > 0 && words[0] == "cleanup"@ ==> if n == 2 || confirmed {
                r matches AgentInvocation::Cleanup { id, confirm } && id@ == words[1] && confirm
                    == (n == 3)
            } else {
                r is Invalid
            }
            &&& n > 0 && words[0] == "spawn"@ ==> is_spawn_request(modes, words.skip(1), r)
        }),
{
    text_laws::law_spaced_words_are_told_apart(pre, words, post);
    reveal_strlit("spawn");
    reveal_strlit("status");
    reveal_strlit("stop");
    reveal_strlit("result");
    reveal_strlit("message");
    reveal_strlit("apply");
    reveal_strlit("cleanup");
    assert("spawn"@[1] == 'p' && "apply"@[1] == 'p' && "spawn"@[0] == 's' && "apply"@[0] == 'a');
    assert("status"@[0] == 's' && "result"@[0] == 'r');
    assert("message"@[0] == 'm' && "cleanup"@[0] == 'c');
    assert("stop"@.len() == 4 && "status"@.len() == 6 && "spawn"@.len() == 5);
    if words.len() > 0 {
        let rest = words.skip(1);
        if words.len() > 1 {
            assert(rest.skip(1) =~= words.skip(2));
        }
        if words.len() > 2 {
            let told = words.skip(2);
            assert(text_laws::are_words(told)) by {
                assert forall|i: int| 0 <= i < told.len() implies (#[trigger] told[i]).len() > 0
                    && text_laws::no_white(told[i]) by {
                    assert(told[i] == words[i + 2]);
                }
            }
            text_laws::law_spaced_words_are_told_apart(
                Seq::empty(),
                words.skip(2),
                Seq::empty(),
            );
        }
    }
}

/// Whether a word belongs to a task: it is none of the flags.
pub open spec fn is_of_the_task(word: Seq<char>) -> bool {
    word != "--mode"@ && word != "--model"@ && word != "--worktree"@ && word != "--read-only"@
}

/// Whether the words of a list all belong to a task.
pub open spec fn are_of_the_task(words: Seq<Seq<char>>) -> bool {
    forall|i: int| 0 <= i < words.len() ==> is_of_the_task(#[trigger] words[i])
}

proof fn lemma_task_words(
    modes: Seq<ModeEntry>,
    rest: Seq<Seq<char>>,
    i: int,
    j: int,
    so_far: SpawnView,
)
    requires
        0 <= i <= j <= rest.len(),
        are_of_the_task(rest.subrange(i, j)),
    ensures
        spawn_from(modes, rest, i, so_far) == spawn_from(
            modes,
            rest,
            j,
            (SpawnView { task: so_far.task + rest.subrange(i, j), ..so_far }),
        ),
    decreases j - i,
{
    let part = rest.subrange(i, j);
    if i == j {
        assert(so_far.task + part =~= so_far.task);
    } else {
        assert(part[0] == rest[i]);
        let next = SpawnView { task: so_far.task.push(rest[i]), ..so_far };
        let others = rest.subrange(i + 1, j);
        assert(are_of_the_task(others)) by {
            assert forall|k: int| 0 <= k < others.len() implies is_of_the_task(
                #[trigger] others[k],
            ) by {
                assert(others[k] == part[k + 1]);
            }
        }
        lemma_task_words(modes, rest, i + 1, j, next);
        assert(next.task + others =~= so_far.task + part);
    }
}

proof fn lemma_around(
    modes: Seq<ModeEntry>,
    a: Seq<Seq<char>>,
    flags: Seq<Seq<char>>,
    b: Seq<Seq<char>>,
    start: SpawnView,
    after: SpawnView,
)
    requires
        are_of_the_task(a),
        are_of_the_task(b),
        start.task.len() == 0,
        after.task == a,
        spawn_from(
            modes,
            a + flags + b,
            a.len() as int,
            (SpawnView { task: a, ..start }),
        ) == spawn_from(modes, a + flags + b, (a.len() + flags.len()) as int, after),
    ensures
        spawn_from(modes, a + flags + b, 0, start) == Ok::<SpawnView, Seq<char>>(
            (SpawnView { task: a + b, ..after }),
        ),
{
    let rest = a + flags + b;
    let n = a.len() as int;
    let m = (a.len() + flags.len()) as int;
    let all = rest.len() as int;
    assert(rest.subrange(0, n) =~= a);
    assert(rest.subrange(m, all) =~= b);
    lemma_task_words(modes, rest, 0, n, start);
    assert(start.task + a =~= a);
    lemma_task_words(modes, rest, m, all, after);
}

/// Whether a request is one for a subagent with the given task and the given settings.
pub open spec fn spawns(
    r: AgentInvocation,
    words: Seq<Seq<char>>,
    own_mode: SubagentMode,
    own_model: Option<Seq<char>>,
    own_worktree: bool,
) -> bool {
    &&& r matches AgentInvocation::Spawn { task, mode, model, worktree }
    &&& task@ == text::joined(words, " "@)
    &&& mode == own_mode
    &&& text::opt_text(model) == own_model
    &&& worktree == own_worktree
}

/// A flag may stand anywhere among the words of the task, which are put together again without it.
/// Without flags the subagent does research, on the usual model, where the session is. A worktree is
/// for implementing only, and a flag that lacks what belongs to it is malformed.
pub proof fn law_flags_may_stand_anywhere(
    modes: Seq<ModeEntry>,
    a: Seq<Seq<char>>,
    b: Seq<Seq<char>>,
    row: int,
    id: Seq<char>,
    r: AgentInvocation,
)
    requires
        are_of_the_task(a) && text_laws::are_words(a),
        are_of_the_task(b) && text_laws::are_words(b),
        a.len() > 0,
        0 <= row < modes.len(),
        forall|j: int| 0 <= j < row ==> (#[trigger] modes[j]).name@ != modes[row].name@,
    ensures
        ({
            let task = a + b;
            let name = modes[row].name@;
            let own = modes[row].mode;
            let research = SubagentMode::Research;
            &&& is_spawn_request(modes, task, r) ==> spawns(r, task, research, None, false)
            &&& is_spawn_request(modes, a + seq!["--mode"@, name] + b, r) ==> spawns(
                r,
                task,
                own,
                None,
                false,
            )
            &&& is_spawn_request(modes, a + seq!["--model"@, id] + b, r) ==> spawns(
                r,
                task,
                research,
                Some(id),
                false,
            )
            &&& is_spawn_request(modes, a + seq!["--read-only"@] + b, r) ==> spawns(
                r,
                task,
                research,
                None,
                false,
            )
            &&& is_spawn_request(modes, a + seq!["--worktree"@] + b, r) ==> r is Invalid
            &&& is_spawn_request(modes, a + seq!["--worktree"@, "--mode"@, name] + b, r)
                ==> if own == SubagentMode::Implement {
                spawns(r, task, own, None, true)
            } else {
                r is Invalid
            }
            &&& is_spawn_request(modes, a + seq!["--model"@], r) ==> r is Invalid
            &&& is_spawn_request(modes, a + seq!["--mode"@], r) ==> r is Invalid
        }),
{
    reveal_strlit("--mode");
    reveal_strlit("--model");
    reveal_strlit("--worktree");
    reveal_strlit("--read-only");
    assert("--mode"@.len() == 6 && "--model"@.len() == 7);
    assert("--worktree"@.len() == 10 && "--read-only"@.len() == 11);
    let task = a + b;
    let name = modes[row].name@;
    let own = modes[row].mode;
    let start = SpawnView {
        mode: SubagentMode::Research,
        model: None,
        worktree: false,
        task: Seq::empty(),
    };
    let read = SpawnView { task: a, ..start };
    let n = a.len() as int;
    assert(text_laws::are_words(task)) by {
        assert forall|i: int| 0 <= i < task.len() implies (#[trigger] task[i]).len() > 0
            && text_laws::no_white(task[i]) by {
            if i < a.len() {
                assert(task[i] == a[i]);
            } else {
                assert(task[i] == b[i - a.len()]);
            }
        }
    }
    text_laws::law_spaced_words_are_told_apart(Seq::empty(), task, Seq::empty());
    lemma_mode_found(modes, row, 0);
    let none = Seq::<Seq<char>>::empty();
    assert(a + none + b =~= task);
    lemma_around(modes, a, none, b, start, read);
    let f1 = seq!["--mode"@, name];
    let r1 = a + f1 + b;
    assert(r1[n] == f1[0] && r1[n + 1] == f1[1]);
    lemma_around(modes, a, f1, b, start, SpawnView { mode: own, ..read });
    let f2 = seq!["--model"@, id];
    let r2 = a + f2 + b;
    assert(r2[n] == f2[0] && r2[n + 1] == f2[1]);
    lemma_around(modes, a, f2, b, start, SpawnView { model: Some(id), ..read });
    let f3 = seq!["--read-only"@];
    let r3 = a + f3 + b;
    assert(r3[n] == f3[0]);
    lemma_around(modes, a, f3, b, start, read);
    let f4 = seq!["--worktree"@];
    let r4 = a + f4 + b;
    assert(r4[n] == f4[0]);
    lemma_around(modes, a, f4, b, start, SpawnView { worktree: true, ..read });
    let f5 = seq!["--worktree"@, "--mode"@, name];
    let r5 = a + f5 + b;
    assert(r5[n] == f5[0] && r5[n + 1] == f5[1] && r5[n + 2] == f5[2]);
    let w = SpawnView { worktree: true, ..read };
    let wm = SpawnView { mode: own, ..w };
    assert(spawn_from(modes, r5, n, read) == spawn_from(modes, r5, n + 1, w));
    assert(spawn_from(modes, r5, n + 1, w) == spawn_from(modes, r5, n + 3, wm));
    lemma_around(modes, a, f5, b, start, wm);
    let r6 = a + seq!["--model"@];
    assert(r6.subrange(0, n) =~= a && r6[n] == "--model"@);
    lemma_task_words(modes, r6, 0, n, start);
    let r7 = a + seq!["--mode"@];
    assert(r7.subrange(0, n) =~= a && r7[n] == "--mode"@);
    lemma_task_words(modes, r7, 0, n, start);
    assert(start.task + a =~= a);
}

proof fn lemma_mode_found(modes: Seq<ModeEntry>, row: int, from: int)
    requires
        0 <= from <= row < modes.len(),
        forall|j: int| from <= j < row ==> (#[trigger] modes[j]).name@ != modes[row].name@,
    ensures
        mode_named(modes, modes[row].name@, from) == Some(modes[row].mode),
    decreases row - from,
{
    if from < row {
        lemma_mode_found(modes, row, from + 1);
    }
}

} // verus!
