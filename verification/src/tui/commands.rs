//! The slash commands: their names, their suggestions and what they resolve to.

use vstd::prelude::*;

use crate::protocol::CustomCommand;
use crate::text;
use crate::text::{cat2, replace, same_text, starts_with};

verus! {

/// A parsed slash command handled entirely by the interface.
#[derive(Clone, Debug, PartialEq, Eq)]
pub enum SlashCommand {
    /// Manage keyboard bindings.
    Keymap(String),
    /// Manage named semantic palettes.
    Theme(String),
    /// Manage response presentation style.
    Personality(String),
    /// Reopen the model picker.
    Model,
    /// Reopen the reasoning-effort picker directly, without going through the model picker.
    Effort,
    /// Open the settings menu to change the API key, model, or reasoning effort.
    Settings,
    /// Show the active provider.
    Provider,
    /// Show the resolved model, provider, and reasoning effort.
    Status,
    /// Clear the conversation view and forget the current session's history.
    Clear,
    /// Summarize and shrink the remembered conversation history right now.
    Compact,
    /// Toggle automatic compaction when the conversation grows large (on by default).
    AutoCompact,
    /// Start a brand-new session without discarding the current one.
    NewSession,
    /// Open the saved-session picker.
    ResumeSession,
    /// Branch this session into a new one with the same history, leaving this session untouched.
    ForkSession,
    /// Open the command-reference popup.
    Help,
    /// Generate an `AGENTS.md` overview of the project by asking the agent to explore it.
    Init,
    /// Open the discovered-skills popup.
    Skills,
    /// Open the MCP server manager.
    Mcp,
    /// Switch permission mode to Plan (read-only).
    PlanMode,
    /// Review a diff, branch, or the working tree's uncommitted changes; empty means the working
    /// tree diff.
    Review(String),
    /// Create, list, switch to, or remove an isolated Git worktree: the raw text typed after the
    /// command. Empty suggests a name for the user to edit and confirm.
    Worktree(String),
    /// Undo the last `n` agent-edit transactions: a positive integer, or empty for one.
    Undo(String),
    /// Redo the last `n` undone transactions: a positive integer, or empty for one.
    Redo(String),
    /// Start, resume, inspect, stop, or summarize a guided bug investigation.
    Debug(String),
    /// Spawn, message, stop, or apply a subagent: the raw text typed after the command.
    Agent(String),
    /// List active and recent subagents.
    Agents,
    /// Exit Gocode.
    Exit,
}

/// A composer submission: either a model prompt or a client-handled command.
#[derive(Clone, Debug, PartialEq, Eq)]
pub enum ChatSubmission {
    /// Text to send to the model.
    Prompt(String),
    /// A recognized slash command.
    Command(SlashCommand),
    /// One answer to the guided intake of `/debug`.
    DebugAnswer(String),
}

/// How many built-in commands there are.
pub const BUILTIN_COUNT: usize = 28;

/// The typed form of the built-in command at a row.
pub open spec fn builtin_name(row: int) -> Seq<char> {
    if row == 0 {
        "/keymap"@
    } else if row == 1 {
        "/theme"@
    } else if row == 2 {
        "/personality"@
    } else if row == 3 {
        "/model"@
    } else if row == 4 {
        "/effort"@
    } else if row == 5 {
        "/settings"@
    } else if row == 6 {
        "/provider"@
    } else if row == 7 {
        "/status"@
    } else if row == 8 {
        "/clear"@
    } else if row == 9 {
        "/compact"@
    } else if row == 10 {
        "/autocompact"@
    } else if row == 11 {
        "/new"@
    } else if row == 12 {
        "/resume"@
    } else if row == 13 {
        "/fork"@
    } else if row == 14 {
        "/help"@
    } else if row == 15 {
        "/init"@
    } else if row == 16 {
        "/skills"@
    } else if row == 17 {
        "/mcp"@
    } else if row == 18 {
        "/plan"@
    } else if row == 19 {
        "/review"@
    } else if row == 20 {
        "/worktree"@
    } else if row == 21 {
        "/undo"@
    } else if row == 22 {
        "/redo"@
    } else if row == 23 {
        "/debug"@
    } else if row == 24 {
        "/agent"@
    } else if row == 25 {
        "/agents"@
    } else if row == 26 {
        "/exit"@
    } else {
        "/quit"@
    }
}

/// The description of the built-in command at a row.
pub open spec fn builtin_description(row: int) -> Seq<char> {
    if row == 0 {
        "List or change keyboard shortcuts"@
    } else if row == 1 {
        "List or change the visual theme"@
    } else if row == 2 {
        "List or change the response style"@
    } else if row == 3 {
        "Switch the active model"@
    } else if row == 4 {
        "Change the reasoning effort level"@
    } else if row == 5 {
        "Change API key, model, or reasoning effort"@
    } else if row == 6 {
        "Show the active provider"@
    } else if row == 7 {
        "Show the resolved model, provider, and reasoning effort"@
    } else if row == 8 {
        "Clear the conversation and forget this session's history"@
    } else if row == 9 {
        "Summarize and shrink the conversation history now"@
    } else if row == 10 {
        "Toggle automatic compaction when context gets large (on by default)"@
    } else if row == 11 {
        "Start a new session without discarding the current one"@
    } else if row == 12 {
        "Pick a previous session to continue"@
    } else if row == 13 {
        "Branch this conversation into a new session, leaving this one untouched"@
    } else if row == 14 {
        "Show the command reference"@
    } else if row == 15 {
        "Explore the project and write an AGENTS.md overview"@
    } else if row == 16 {
        "List discovered skills (global and project)"@
    } else if row == 17 {
        "Manage MCP servers: list, connect, disconnect, inspect tools"@
    } else if row == 18 {
        "Switch to Plan mode (read-only, no writes or risky commands)"@
    } else if row == 19 {
        "Review a diff, branch, or the working tree's changes"@
    } else if row == 20 {
        "Create, list, switch to, or remove an isolated Git worktree"@
    } else if row == 21 {
        "Undo the agent's last edit (or `/undo n` for the last n)"@
    } else if row == 22 {
        "Redo the last undone edit (or `/redo n` for the last n)"@
    } else if row == 23 {
        "Investigate a bug safely (`status`, `stop`, or `summary`)"@
    } else if row == 24 {
        "Spawn, message, stop, or apply a subagent (`spawn`, `status`, `message`, `stop`, `result`, `apply`, `cleanup`)"@
    } else if row == 25 {
        "List active and recent subagents"@
    } else if row == 26 {
        "Exit Gocode"@
    } else {
        "Exit Gocode"@
    }
}

/// Whether a command is the built-in one at a row, with no text after it.
pub open spec fn is_builtin(row: int, command: SlashCommand) -> bool {
    if row == 0 {
        command matches SlashCommand::Keymap(s) && s@.len() == 0
    } else if row == 1 {
        command matches SlashCommand::Theme(s) && s@.len() == 0
    } else if row == 2 {
        command matches SlashCommand::Personality(s) && s@.len() == 0
    } else if row == 3 {
        command is Model
    } else if row == 4 {
        command is Effort
    } else if row == 5 {
        command is Settings
    } else if row == 6 {
        command is Provider
    } else if row == 7 {
        command is Status
    } else if row == 8 {
        command is Clear
    } else if row == 9 {
        command is Compact
    } else if row == 10 {
        command is AutoCompact
    } else if row == 11 {
        command is NewSession
    } else if row == 12 {
        command is ResumeSession
    } else if row == 13 {
        command is ForkSession
    } else if row == 14 {
        command is Help
    } else if row == 15 {
        command is Init
    } else if row == 16 {
        command is Skills
    } else if row == 17 {
        command is Mcp
    } else if row == 18 {
        command is PlanMode
    } else if row == 19 {
        command matches SlashCommand::Review(s) && s@.len() == 0
    } else if row == 20 {
        command matches SlashCommand::Worktree(s) && s@.len() == 0
    } else if row == 21 {
        command matches SlashCommand::Undo(s) && s@.len() == 0
    } else if row == 22 {
        command matches SlashCommand::Redo(s) && s@.len() == 0
    } else if row == 23 {
        command matches SlashCommand::Debug(s) && s@.len() == 0
    } else if row == 24 {
        command matches SlashCommand::Agent(s) && s@.len() == 0
    } else if row == 25 {
        command is Agents
    } else if row == 26 {
        command is Exit
    } else {
        command is Exit
    }
}

/// The typed form of the built-in command at a row.
pub fn builtin_title(row: usize) -> (r: &'static str)
    requires
        row < BUILTIN_COUNT,
    ensures
        r@ == builtin_name(row as int),
{
    if row == 0 {
        "/keymap"
    } else if row == 1 {
        "/theme"
    } else if row == 2 {
        "/personality"
    } else if row == 3 {
        "/model"
    } else if row == 4 {
        "/effort"
    } else if row == 5 {
        "/settings"
    } else if row == 6 {
        "/provider"
    } else if row == 7 {
        "/status"
    } else if row == 8 {
        "/clear"
    } else if row == 9 {
        "/compact"
    } else if row == 10 {
        "/autocompact"
    } else if row == 11 {
        "/new"
    } else if row == 12 {
        "/resume"
    } else if row == 13 {
        "/fork"
    } else if row == 14 {
        "/help"
    } else if row == 15 {
        "/init"
    } else if row == 16 {
        "/skills"
    } else if row == 17 {
        "/mcp"
    } else if row == 18 {
        "/plan"
    } else if row == 19 {
        "/review"
    } else if row == 20 {
        "/worktree"
    } else if row == 21 {
        "/undo"
    } else if row == 22 {
        "/redo"
    } else if row == 23 {
        "/debug"
    } else if row == 24 {
        "/agent"
    } else if row == 25 {
        "/agents"
    } else if row == 26 {
        "/exit"
    } else {
        "/quit"
    }
}

/// The description of the built-in command at a row.
pub fn builtin_help(row: usize) -> (r: &'static str)
    requires
        row < BUILTIN_COUNT,
    ensures
        r@ == builtin_description(row as int),
{
    if row == 0 {
        "List or change keyboard shortcuts"
    } else if row == 1 {
        "List or change the visual theme"
    } else if row == 2 {
        "List or change the response style"
    } else if row == 3 {
        "Switch the active model"
    } else if row == 4 {
        "Change the reasoning effort level"
    } else if row == 5 {
        "Change API key, model, or reasoning effort"
    } else if row == 6 {
        "Show the active provider"
    } else if row == 7 {
        "Show the resolved model, provider, and reasoning effort"
    } else if row == 8 {
        "Clear the conversation and forget this session's history"
    } else if row == 9 {
        "Summarize and shrink the conversation history now"
    } else if row == 10 {
        "Toggle automatic compaction when context gets large (on by default)"
    } else if row == 11 {
        "Start a new session without discarding the current one"
    } else if row == 12 {
        "Pick a previous session to continue"
    } else if row == 13 {
        "Branch this conversation into a new session, leaving this one untouched"
    } else if row == 14 {
        "Show the command reference"
    } else if row == 15 {
        "Explore the project and write an AGENTS.md overview"
    } else if row == 16 {
        "List discovered skills (global and project)"
    } else if row == 17 {
        "Manage MCP servers: list, connect, disconnect, inspect tools"
    } else if row == 18 {
        "Switch to Plan mode (read-only, no writes or risky commands)"
    } else if row == 19 {
        "Review a diff, branch, or the working tree's changes"
    } else if row == 20 {
        "Create, list, switch to, or remove an isolated Git worktree"
    } else if row == 21 {
        "Undo the agent's last edit (or `/undo n` for the last n)"
    } else if row == 22 {
        "Redo the last undone edit (or `/redo n` for the last n)"
    } else if row == 23 {
        "Investigate a bug safely (`status`, `stop`, or `summary`)"
    } else if row == 24 {
        "Spawn, message, stop, or apply a subagent (`spawn`, `status`, `message`, `stop`, `result`, `apply`, `cleanup`)"
    } else if row == 25 {
        "List active and recent subagents"
    } else if row == 26 {
        "Exit Gocode"
    } else {
        "Exit Gocode"
    }
}

fn builtin_command(row: usize) -> (command: SlashCommand)
    requires
        row < BUILTIN_COUNT,
    ensures
        is_builtin(row as int, command),
{
    if row == 0 {
        SlashCommand::Keymap(String::new())
    } else if row == 1 {
        SlashCommand::Theme(String::new())
    } else if row == 2 {
        SlashCommand::Personality(String::new())
    } else if row == 3 {
        SlashCommand::Model
    } else if row == 4 {
        SlashCommand::Effort
    } else if row == 5 {
        SlashCommand::Settings
    } else if row == 6 {
        SlashCommand::Provider
    } else if row == 7 {
        SlashCommand::Status
    } else if row == 8 {
        SlashCommand::Clear
    } else if row == 9 {
        SlashCommand::Compact
    } else if row == 10 {
        SlashCommand::AutoCompact
    } else if row == 11 {
        SlashCommand::NewSession
    } else if row == 12 {
        SlashCommand::ResumeSession
    } else if row == 13 {
        SlashCommand::ForkSession
    } else if row == 14 {
        SlashCommand::Help
    } else if row == 15 {
        SlashCommand::Init
    } else if row == 16 {
        SlashCommand::Skills
    } else if row == 17 {
        SlashCommand::Mcp
    } else if row == 18 {
        SlashCommand::PlanMode
    } else if row == 19 {
        SlashCommand::Review(String::new())
    } else if row == 20 {
        SlashCommand::Worktree(String::new())
    } else if row == 21 {
        SlashCommand::Undo(String::new())
    } else if row == 22 {
        SlashCommand::Redo(String::new())
    } else if row == 23 {
        SlashCommand::Debug(String::new())
    } else if row == 24 {
        SlashCommand::Agent(String::new())
    } else if row == 25 {
        SlashCommand::Agents
    } else if row == 26 {
        SlashCommand::Exit
    } else {
        SlashCommand::Exit
    }
}

/// The first row at or after `from` with a typed form, or -1.
pub open spec fn builtin_row(name: Seq<char>, from: int) -> int
    decreases BUILTIN_COUNT - from,
{
    if from >= BUILTIN_COUNT {
        -1
    } else if builtin_name(from) == name {
        from
    } else {
        builtin_row(name, from + 1)
    }
}

/// Resolves the typed form of a built-in command.
pub fn resolve_slash_command(input: &str) -> (r: Option<SlashCommand>)
    ensures
        match r {
            Some(command) => builtin_row(input@, 0) >= 0 && is_builtin(
                builtin_row(input@, 0),
                command,
            ),
            None => builtin_row(input@, 0) < 0,
        },
{
    let mut i: usize = 0;
    while i < BUILTIN_COUNT
        invariant
            i <= BUILTIN_COUNT,
            builtin_row(input@, 0) == builtin_row(input@, i as int),
        decreases BUILTIN_COUNT - i,
    {
        if same_text(builtin_title(i), input) {
            return Some(builtin_command(i));
        }
        i = i + 1;
    }
    None
}

/// The views of a list of suggestions.
pub open spec fn pairs(v: Seq<(String, String)>) -> Seq<(Seq<char>, Seq<char>)> {
    Seq::new(v.len(), |i: int| (v[i].0@, v[i].1@))
}

/// The typed form of a custom command.
pub open spec fn custom_name(command: CustomCommand) -> Seq<char> {
    "/"@ + command.name@
}

/// Those of the first `n` built-in commands whose typed form begins with the input.
pub open spec fn builtin_suggestions(input: Seq<char>, n: nat) -> Seq<(Seq<char>, Seq<char>)>
    decreases n,
{
    if n == 0 {
        Seq::empty()
    } else {
        let before = builtin_suggestions(input, (n - 1) as nat);
        if input.is_prefix_of(builtin_name(n - 1)) {
            before.push((builtin_name(n - 1), builtin_description(n - 1)))
        } else {
            before
        }
    }
}

/// The custom commands whose typed form begins with the input.
pub open spec fn custom_suggestions(
    input: Seq<char>,
    commands: Seq<CustomCommand>,
) -> Seq<(Seq<char>, Seq<char>)>
    decreases commands.len(),
{
    if commands.len() == 0 {
        Seq::empty()
    } else {
        let before = custom_suggestions(input, commands.drop_last());
        if input.is_prefix_of(custom_name(commands.last())) {
            before.push((custom_name(commands.last()), commands.last().description@))
        } else {
            before
        }
    }
}

/// The suggestions for an input: nothing unless it begins with a slash, then the built-in
/// commands and after them the custom ones.
pub open spec fn suggestions(
    input: Seq<char>,
    commands: Seq<CustomCommand>,
) -> Seq<(Seq<char>, Seq<char>)> {
    if input.len() > 0 && input[0] == '/' {
        builtin_suggestions(input, BUILTIN_COUNT as nat) + custom_suggestions(input, commands)
    } else {
        Seq::empty()
    }
}

/// Slash-command suggestions matching the current composer prefix: every built-in command plus
/// any discovered project-local custom command, in that order.
#[must_use]
pub fn slash_suggestions(
    input: &str,
    custom_commands: &Vec<CustomCommand>,
) -> (r: Vec<(String, String)>)
    ensures
        pairs(r@) == suggestions(input@, custom_commands@),
{
    let mut out: Vec<(String, String)> = Vec::new();
    proof {
        reveal_strlit("/");
        assert("/"@ =~= seq!['/']);
    }
    if !starts_with(input, "/") {
        assert(!(input@.len() > 0 && input@[0] == '/')) by {
            if input@.len() > 0 && input@[0] == '/' {
                assert(input@.subrange(0, 1) =~= seq!['/']);
            }
        }
        assert(pairs(out@) =~= Seq::empty());
        return out;
    }
    assert(input@.subrange(0, 1)[0] == '/');
    let mut i: usize = 0;
    assert(pairs(out@) =~= builtin_suggestions(input@, 0));
    while i < BUILTIN_COUNT
        invariant
            i <= BUILTIN_COUNT,
            pairs(out@) == builtin_suggestions(input@, i as nat),
        decreases BUILTIN_COUNT - i,
    {
        let ghost before = pairs(out@);
        let name: &str = builtin_title(i);
        if starts_with(name, input) {
            out.push((name.to_owned(), builtin_help(i).to_owned()));
            assert(pairs(out@) =~= before.push(
                (builtin_name(i as int), builtin_description(i as int)),
            ));
        }
        i = i + 1;
    }
    let ghost builtins = pairs(out@);
    let mut j: usize = 0;
    assert(pairs(out@) =~= builtins + custom_suggestions(input@, custom_commands@.take(0)));
    while j < custom_commands.len()
        invariant
            j <= custom_commands@.len(),
            pairs(out@) == builtins + custom_suggestions(
                input@,
                custom_commands@.take(j as int),
            ),
        decreases custom_commands@.len() - j,
    {
        let ghost before = pairs(out@);
        let ghost rest = custom_suggestions(input@, custom_commands@.take(j as int));
        assert(custom_commands@.take(j + 1).drop_last() =~= custom_commands@.take(j as int));
        let command: &CustomCommand = &custom_commands[j];
        let name: String = cat2("/", command.name.as_str());
        if starts_with(name.as_str(), input) {
            out.push((name, command.description.clone()));
            assert(pairs(out@) =~= before.push((custom_name(*command), command.description@)));
            assert(before.push((custom_name(*command), command.description@)) =~= builtins
                + rest.push((custom_name(*command), command.description@)));
        }
        j = j + 1;
    }
    assert(custom_commands@.take(j as int) =~= custom_commands@);
    out
}

/// The first custom command at or after `from` with a typed form, or -1.
pub open spec fn custom_row(commands: Seq<CustomCommand>, name: Seq<char>, from: int) -> int
    decreases commands.len() - from,
{
    if from >= commands.len() {
        -1
    } else if custom_name(commands[from]) == name {
        from
    } else {
        custom_row(commands, name, from + 1)
    }
}

/// Finds the custom command exactly named `name` (including the leading `/`), if any.
pub fn resolve_custom_command(custom_commands: &Vec<CustomCommand>, name: &str) -> (r: Option<
    usize,
>)
    ensures
        match r {
            Some(i) => i < custom_commands@.len() && custom_row(custom_commands@, name@, 0) == i,
            None => custom_row(custom_commands@, name@, 0) == -1,
        },
{
    let mut i: usize = 0;
    while i < custom_commands.len()
        invariant
            i <= custom_commands@.len(),
            custom_row(custom_commands@, name@, 0) == custom_row(
                custom_commands@,
                name@,
                i as int,
            ),
        decreases custom_commands@.len() - i,
    {
        let full: String = cat2("/", custom_commands[i].name.as_str());
        if same_text(full.as_str(), name) {
            return Some(i);
        }
        i = i + 1;
    }
    None
}

/// A custom command's body with the arguments in place of every `$ARGUMENTS`.
pub open spec fn expansion(body: Seq<char>, arguments: Seq<char>) -> Seq<char> {
    text::replaced(body, "$ARGUMENTS"@, arguments)
}

/// Expands a custom command's body, substituting every `$ARGUMENTS` with the text typed after
/// the command name (empty when none was given).
pub fn expand_custom_command(body: &str, arguments: &str) -> (r: String)
    ensures
        r@ == expansion(body@, arguments@),
{
    proof {
        reveal_strlit("$ARGUMENTS");
    }
    replace(body, "$ARGUMENTS", arguments)
}

/// Whether a command is asked for by a typed form.
pub open spec fn is_asked_for_by(command: SlashCommand, name: Seq<char>) -> bool {
    match command {
        SlashCommand::Keymap(_) => name == "/keymap"@,
        SlashCommand::Theme(_) => name == "/theme"@,
        SlashCommand::Personality(_) => name == "/personality"@,
        SlashCommand::Model => name == "/model"@,
        SlashCommand::Effort => name == "/effort"@,
        SlashCommand::Settings => name == "/settings"@,
        SlashCommand::Provider => name == "/provider"@,
        SlashCommand::Status => name == "/status"@,
        SlashCommand::Clear => name == "/clear"@,
        SlashCommand::Compact => name == "/compact"@,
        SlashCommand::AutoCompact => name == "/autocompact"@,
        SlashCommand::NewSession => name == "/new"@,
        SlashCommand::ResumeSession => name == "/resume"@,
        SlashCommand::ForkSession => name == "/fork"@,
        SlashCommand::Help => name == "/help"@,
        SlashCommand::Init => name == "/init"@,
        SlashCommand::Skills => name == "/skills"@,
        SlashCommand::Mcp => name == "/mcp"@,
        SlashCommand::PlanMode => name == "/plan"@,
        SlashCommand::Review(_) => name == "/review"@,
        SlashCommand::Worktree(_) => name == "/worktree"@,
        SlashCommand::Undo(_) => name == "/undo"@,
        SlashCommand::Redo(_) => name == "/redo"@,
        SlashCommand::Debug(_) => name == "/debug"@,
        SlashCommand::Agent(_) => name == "/agent"@,
        SlashCommand::Agents => name == "/agents"@,
        SlashCommand::Exit => name == "/exit"@ || name == "/quit"@,
    }
}

proof fn lemma_builtin_row(name: Seq<char>, from: int)
    requires
        0 <= from <= BUILTIN_COUNT,
    ensures
        ({
            let row = builtin_row(name, from);
            &&& row >= 0 ==> from <= row < BUILTIN_COUNT && builtin_name(row) == name
            &&& row < 0 ==> forall|i: int|
                from <= i < BUILTIN_COUNT ==> #[trigger] builtin_name(i) != name
        }),
    decreases BUILTIN_COUNT - from,
{
    if from < BUILTIN_COUNT && builtin_name(from) != name {
        lemma_builtin_row(name, from + 1);
    }
}

/// A typed form is resolved to the command of that name, and to none where no command has it.
pub proof fn law_a_command_is_asked_for_by_its_own_name(name: Seq<char>, command: SlashCommand)
    ensures
        builtin_row(name, 0) >= 0 && is_builtin(builtin_row(name, 0), command) ==> is_asked_for_by(
            command,
            name,
        ),
        is_asked_for_by(command, name) ==> builtin_row(name, 0) >= 0,
{
    lemma_builtin_row(name, 0);
    if is_asked_for_by(command, name) {
        assert(builtin_name(0) == "/keymap"@ && builtin_name(1) == "/theme"@);
        assert(builtin_name(2) == "/personality"@ && builtin_name(3) == "/model"@);
        assert(builtin_name(4) == "/effort"@ && builtin_name(5) == "/settings"@);
        assert(builtin_name(6) == "/provider"@ && builtin_name(7) == "/status"@);
        assert(builtin_name(8) == "/clear"@ && builtin_name(9) == "/compact"@);
        assert(builtin_name(10) == "/autocompact"@ && builtin_name(11) == "/new"@);
        assert(builtin_name(12) == "/resume"@ && builtin_name(13) == "/fork"@);
        assert(builtin_name(14) == "/help"@ && builtin_name(15) == "/init"@);
        assert(builtin_name(16) == "/skills"@ && builtin_name(17) == "/mcp"@);
        assert(builtin_name(18) == "/plan"@ && builtin_name(19) == "/review"@);
        assert(builtin_name(20) == "/worktree"@ && builtin_name(21) == "/undo"@);
        assert(builtin_name(22) == "/redo"@ && builtin_name(23) == "/debug"@);
        assert(builtin_name(24) == "/agent"@ && builtin_name(25) == "/agents"@);
        assert(builtin_name(26) == "/exit"@ && builtin_name(27) == "/quit"@);
    }
}

proof fn lemma_builtin_suggestions(input: Seq<char>, n: nat)
    ensures
        forall|i: int|
            0 <= i < n && input.is_prefix_of(#[trigger] builtin_name(i))
                ==> builtin_suggestions(input, n).contains(
                (builtin_name(i), builtin_description(i)),
            ),
        forall|j: int|
            0 <= j < builtin_suggestions(input, n).len() ==> input.is_prefix_of(
                (#[trigger] builtin_suggestions(input, n)[j]).0,
            ),
    decreases n,
{
    if n > 0 {
        let before = builtin_suggestions(input, (n - 1) as nat);
        let all = builtin_suggestions(input, n);
        lemma_builtin_suggestions(input, (n - 1) as nat);
        assert forall|i: int|
            0 <= i < n && input.is_prefix_of(#[trigger] builtin_name(i)) implies all.contains(
            (builtin_name(i), builtin_description(i)),
        ) by {
            let pair = (builtin_name(i), builtin_description(i));
            if i < n - 1 {
                let k = choose|k: int| 0 <= k < before.len() && before[k] == pair;
                assert(all[k] == pair);
            } else {
                assert(all[all.len() - 1] == pair);
            }
        }
    }
}

proof fn lemma_custom_suggestions(input: Seq<char>, commands: Seq<CustomCommand>)
    ensures
        forall|j: int|
            0 <= j < custom_suggestions(input, commands).len() ==> input.is_prefix_of(
                (#[trigger] custom_suggestions(input, commands)[j]).0,
            ),
    decreases commands.len(),
{
    if commands.len() > 0 {
        let before = custom_suggestions(input, commands.drop_last());
        let all = custom_suggestions(input, commands);
        lemma_custom_suggestions(input, commands.drop_last());
        assert forall|j: int| 0 <= j < all.len() implies input.is_prefix_of(
            (#[trigger] all[j]).0,
        ) by {
            if j < before.len() {
                assert(all[j] == before[j]);
            }
        }
    }
}

/// What is typed after a slash brings up every command whose typed form goes on from it, and no
/// other: the built-in ones, and behind them the custom ones in their order. Anything else brings up
/// nothing.
pub proof fn law_suggestions_go_on_from_what_is_typed(
    typed: Seq<char>,
    commands: Seq<CustomCommand>,
    next: CustomCommand,
    row: int,
    rest: Seq<char>,
)
    ensures
        typed.len() == 0 || typed[0] != '/' ==> suggestions(typed, commands).len() == 0,
        ({
            let input = seq!['/'] + typed;
            let list = suggestions(input, commands);
            let shown = (seq!['/'] + next.name@, next.description@);
            &&& 0 <= row < BUILTIN_COUNT && builtin_name(row) == input + rest ==> list.contains(
                (builtin_name(row), builtin_description(row)),
            )
            &&& next.name@ == typed + rest ==> suggestions(input, commands.push(next))
                == list.push(shown)
            &&& !typed.is_prefix_of(next.name@) ==> suggestions(input, commands.push(next)) == list
            &&& forall|j: int| 0 <= j < list.len() ==> input.is_prefix_of((#[trigger] list[j]).0)
        }),
{
    reveal_strlit("/");
    assert("/"@ =~= seq!['/']);
    let input = seq!['/'] + typed;
    let builtins = builtin_suggestions(input, BUILTIN_COUNT as nat);
    let customs = custom_suggestions(input, commands);
    let list = suggestions(input, commands);
    lemma_builtin_suggestions(input, BUILTIN_COUNT as nat);
    lemma_custom_suggestions(input, commands);
    assert(list == builtins + customs);
    if 0 <= row < BUILTIN_COUNT && builtin_name(row) == input + rest {
        let pair = (builtin_name(row), builtin_description(row));
        assert((input + rest).subrange(0, input.len() as int) =~= input);
        let k = choose|k: int| 0 <= k < builtins.len() && builtins[k] == pair;
        assert(list[k] == pair);
    }
    assert(commands.push(next).drop_last() =~= commands);
    let shown = (seq!['/'] + next.name@, next.description@);
    if next.name@ == typed + rest {
        assert(custom_name(next).subrange(0, input.len() as int) =~= input);
        assert(suggestions(input, commands.push(next)) =~= list.push(shown));
    }
    if !typed.is_prefix_of(next.name@) {
        if input.is_prefix_of(custom_name(next)) {
            let n = input.len() as int;
            assert(custom_name(next).subrange(0, n) =~= input);
            assert(next.name@.subrange(0, n - 1) =~= typed) by {
                assert forall|i: int| 0 <= i < n - 1 implies next.name@[i] == typed[i] by {
                    assert(custom_name(next).subrange(0, n)[i + 1] == custom_name(next)[i + 1]);
                }
            }
        }
    }
    assert forall|j: int| 0 <= j < list.len() implies input.is_prefix_of((#[trigger] list[j]).0) by {
        if j < builtins.len() {
            assert(list[j] == builtins[j]);
        } else {
            assert(list[j] == customs[j - builtins.len()]);
        }
    }
}

/// A custom command is found by its name behind a slash; of two with one name it is the first.
pub proof fn law_a_custom_command_is_found_by_its_name(
    commands: Seq<CustomCommand>,
    name: Seq<char>,
    at: int,
)
    requires
        0 <= at <= commands.len(),
        forall|j: int| 0 <= j < at ==> (#[trigger] commands[j]).name@ != name,
        at < commands.len() ==> commands[at].name@ == name,
    ensures
        custom_row(commands, seq!['/'] + name, 0) == (if at < commands.len() {
            at
        } else {
            -1
        }),
{
    lemma_custom_row(commands, name, 0, at);
}

proof fn lemma_custom_row(commands: Seq<CustomCommand>, name: Seq<char>, from: int, at: int)
    requires
        0 <= from <= at <= commands.len(),
        forall|j: int| from <= j < at ==> (#[trigger] commands[j]).name@ != name,
        at < commands.len() ==> commands[at].name@ == name,
    ensures
        custom_row(commands, seq!['/'] + name, from) == (if at < commands.len() {
            at
        } else {
            -1
        }),
    decreases at - from,
{
    reveal_strlit("/");
    assert("/"@ =~= seq!['/']);
    if from < at {
        let own = commands[from].name@;
        if custom_name(commands[from]) == seq!['/'] + name {
            assert(own =~= custom_name(commands[from]).skip(1));
            assert((seq!['/'] + name).skip(1) =~= name);
        }
        lemma_custom_row(commands, name, from + 1, at);
    }
}

} // verus!
