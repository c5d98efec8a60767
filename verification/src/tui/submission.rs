//! What the interface does with a submission from the chat composer.

use vstd::prelude::*;

use crate::protocol::{AgentActivityState, AppCommand, PermissionMode};
use crate::text;
use crate::text_laws;
use crate::text::{cat2, cat3, cut_at, longer_than, number, same_text, trim};
use crate::tui::commands::{ChatSubmission, SlashCommand};
use crate::tui::entry;
use crate::tui::entry::ChatEntry;
use crate::tui::notes;
use crate::tui::notes::{debug_status, debug_summary};
use crate::tui::preferences;
use crate::tui::preferences::{run_keymap, run_personality, run_theme, Catalog, Reading};
use crate::tui::reduce;
use crate::tui::reduce::{note, report, warn};
use crate::tui::requests;
use crate::tui::requests::{
    parse_agent_command, parse_undo_redo_count, parse_worktree_command, AgentInvocation,
    WorktreeInvocation,
};
use crate::tui::run::RunVisibility;
use crate::tui::state;
use crate::tui::state::{
    effort_index, effort_label, AgentPanel, AgentsView, AppState, HelpPanel, HelpTab, McpPanel,
    McpView, Pickers, Prompts, Screen, SkillPanel, SkillsView, Transcript,
};

verus! {

/// What the terminal loop does after an event.
#[derive(Clone, Copy, Debug, PartialEq, Eq, Structural)]
pub enum LoopStep {
    /// Draw, and wait for the next event.
    Next,
    /// Copy the selected text to the clipboard, then go on.
    CopySelection,
    /// Put the clipboard's text into the composer, then go on.
    PasteClipboard,
    /// Leave the terminal.
    Exit,
}

/// What the interface asks for after an event: the commands to send, in order, and what the loop
/// does next.
#[derive(Debug, PartialEq, Eq)]
pub struct Turn {
    pub commands: Vec<AppCommand>,
    pub step: LoopStep,
}

impl Turn {
    /// Whether nothing is asked for.
    pub open spec fn is_quiet(self) -> bool {
        self.commands@.len() == 0 && self.step == LoopStep::Next
    }

    /// Whether one command is sent and the loop goes on.
    pub open spec fn sends(self, command: AppCommand) -> bool {
        self.commands@ == seq![command] && self.step == LoopStep::Next
    }

    /// Whether the runtime is told to exit and the loop ends.
    pub open spec fn leaves(self) -> bool {
        self.commands@ == seq![AppCommand::Exit] && self.step == LoopStep::Exit
    }

    /// Nothing to ask for.
    pub fn quiet() -> (r: Turn)
        ensures
            r.is_quiet(),
    {
        Turn { commands: Vec::new(), step: LoopStep::Next }
    }

    /// One command to send.
    pub fn send(command: AppCommand) -> (r: Turn)
        ensures
            r.sends(command),
    {
        let mut commands: Vec<AppCommand> = Vec::new();
        commands.push(command);
        assert(commands@ =~= seq![command]);
        Turn { commands, step: LoopStep::Next }
    }

    /// Telling the runtime to exit, and leaving.
    pub fn leave() -> (r: Turn)
        ensures
            r.leaves(),
    {
        let mut commands: Vec<AppCommand> = Vec::new();
        commands.push(AppCommand::Exit);
        assert(commands@ =~= seq![AppCommand::Exit]);
        Turn { commands, step: LoopStep::Exit }
    }
}

/// Whether `post` is `pre` after a run of a prompt began.
pub open spec fn runs(pre: AppState, post: AppState, prompt: String) -> bool {
    &&& post == (AppState {
        transcript: Transcript {
            entries: post.transcript.entries,
            last_submitted_prompt: Some(prompt),
            activity: Some(AgentActivityState::Thinking),
            run_visibility: post.transcript.run_visibility,
            streaming_assistant: false,
            streaming_reasoning: false,
            scroll: 0,
            ..pre.transcript
        },
        ..pre
    })
    &&& post.transcript.entries@ == pre.transcript.entries@.push(ChatEntry::User(prompt))
    &&& post.transcript.run_visibility.started_at == Some(pre.clock_ms)
    &&& (RunVisibility { started_at: None, ..post.transcript.run_visibility }).is_blank()
}

/// Whether a run of a prompt with a given text began and the prompt went to the runtime.
pub open spec fn submits_text(pre: AppState, post: AppState, prompt: Seq<char>, t: Turn) -> bool {
    &&& t.commands@.len() == 1
    &&& t.step == LoopStep::Next
    &&& t.commands@[0] matches AppCommand::SubmitChat(p)
    &&& p@ == prompt
    &&& runs(pre, post, p)
}

fn submit_prompt(state: &mut AppState, prompt: String) -> (t: Turn)
    ensures
        submits_text(*old(state), *final(state), prompt@, t),
        old(state).wf() ==> final(state).wf(),
{
    state.begin_run(prompt.clone());
    Turn::send(AppCommand::SubmitChat(prompt))
}

// ---------------------------------------------------------------------------------------------
// The texts of the commands
// ---------------------------------------------------------------------------------------------

/// The prompt of `/review`.
pub open spec fn review_prompt(target: Seq<char>) -> Seq<char> {
    let scope = if target.len() == 0 {
        "the current diff (uncommitted changes in the working tree; if there are none, review the changes in the most recent commit instead)"@
    } else {
        "the changes on/in \""@ + target
            + "\" (this may be a branch name, commit range, pull request number, or file/directory path — figure out which from context and use the appropriate git or gh command to get its diff)"@
    };
    "Review "@ + scope
        + ". Use git (and gh, if it's a pull request) to gather the diff yourself. Focus on correctness bugs, security issues, and significant simplification or efficiency opportunities in the changed code — do not comment on unrelated pre-existing code. For each finding, give the file and line, a one-sentence description of the defect, and a concrete suggested fix. If nothing significant is found, say so plainly instead of inventing minor nitpicks."@
}

/// Writes the prompt of `/review`.
pub fn format_review_prompt(target: &str) -> (r: String)
    ensures
        r@ == review_prompt(target@),
{
    let scope: String = if target.is_empty() {
        "the current diff (uncommitted changes in the working tree; if there are none, review the changes in the most recent commit instead)".to_owned()
    } else {
        cat3(
            "the changes on/in \"",
            target,
            "\" (this may be a branch name, commit range, pull request number, or file/directory path — figure out which from context and use the appropriate git or gh command to get its diff)",
        )
    };
    cat3(
        "Review ",
        scope.as_str(),
        ". Use git (and gh, if it's a pull request) to gather the diff yourself. Focus on correctness bugs, security issues, and significant simplification or efficiency opportunities in the changed code — do not comment on unrelated pre-existing code. For each finding, give the file and line, a one-sentence description of the defect, and a concrete suggested fix. If nothing significant is found, say so plainly instead of inventing minor nitpicks.",
    )
}

/// The prompt of `/init`.
pub open spec fn init_prompt() -> Seq<char> {
    "Explore this repository (its structure, languages, build system, tests, and conventions) and write a complete AGENTS.md file at the project root. Cover: what the project is and does, its directory structure, how to build/run/test/ lint it, and coding conventions an AI coding agent should follow when working in this codebase. Use the file tools to create the file."@
}

fn format_init_prompt() -> (r: String)
    ensures
        r@ == init_prompt(),
{
    "Explore this repository (its structure, languages, build system, tests, and conventions) and write a complete AGENTS.md file at the project root. Cover: what the project is and does, its directory structure, how to build/run/test/ lint it, and coding conventions an AI coding agent should follow when working in this codebase. Use the file tools to create the file.".to_owned()
}

/// The first eight bytes of a session's id, or all of a shorter one; nothing where the eighth
/// byte stands inside a character.
pub open spec fn short_id(id: Seq<char>) -> Option<Seq<char>> {
    if text::byte_len(id) > 8 {
        text::byte_cut(id, 8)
    } else {
        Some(id)
    }
}

/// Shortens a session's id for display.
pub fn shorten_id(id: &str) -> (r: Option<String>)
    ensures
        text::opt_text(r) == short_id(id@),
{
    if longer_than(id, 8) {
        cut_at(id, 8)
    } else {
        Some(id.to_owned())
    }
}

/// How full the context is, in percent of the size at which it is compacted.
pub open spec fn context_percent(tokens: nat, threshold: nat) -> nat {
    (if tokens * 100 <= u64::MAX {
        tokens * 100
    } else {
        u64::MAX as nat
    }) / threshold
}

/// What `/status` shows.
pub open spec fn status_text(s: AppState, catalog: Catalog) -> Seq<char> {
    let model = match s.pickers.current_model {
        Some(m) => m@,
        None => "none selected"@,
    };
    let effort = state::effort_name(state::effort_row(text::opt_text(s.pickers.current_effort)));
    let directory = if s.session.working_directory@.len() == 0 {
        "unknown"@
    } else {
        s.session.working_directory@
    };
    let session = if s.session.current_session_id@.len() == 0 {
        "none"@
    } else {
        s.session.current_session_name@ + " ("@ + short_id(
            s.session.current_session_id@,
        )->Some_0 + ")"@
    };
    let context = match s.transcript.last_input_tokens {
        Some(tokens) => "~"@ + text::decimal(
            context_percent(tokens as nat, catalog.compact_threshold as nat),
        ) + "% ("@ + text::decimal(tokens as nat) + " tok, approx.)"@,
        None => "not yet measured"@,
    };
    "Provider: NVIDIA NIM · Model: "@ + model + " · Reasoning effort: "@ + effort
        + "\nPersonality: "@ + catalog.personality_label(s.active_personality) + "\nDirectory: "@
        + directory + "\nSession: "@ + session + "\nContext: "@ + context + "\nUndo: "@
        + text::decimal(s.undo_count as nat) + " available · Redo: "@ + text::decimal(
        s.redo_count as nat,
    ) + " available"@
}

fn format_session(s: &AppState) -> (r: String)
    requires
        short_id(s.session.current_session_id@) is Some,
    ensures
        r@ == (if s.session.current_session_id@.len() == 0 {
            "none"@
        } else {
            s.session.current_session_name@ + " ("@ + short_id(
                s.session.current_session_id@,
            )->Some_0 + ")"@
        }),
{
    if s.session.current_session_id.as_str().is_empty() {
        return "none".to_owned();
    }
    match shorten_id(s.session.current_session_id.as_str()) {
        Some(id) => text::cat4(s.session.current_session_name.as_str(), " (", id.as_str(), ")"),
        None => String::new(),
    }
}

fn format_context(tokens: Option<u64>, threshold: u64) -> (r: String)
    requires
        threshold > 0,
    ensures
        r@ == (match tokens {
            Some(n) => "~"@ + text::decimal(context_percent(n as nat, threshold as nat)) + "% ("@
                + text::decimal(n as nat) + " tok, approx.)"@,
            None => "not yet measured"@,
        }),
{
    match tokens {
        Some(n) => {
            let scaled: u64 = if n <= u64::MAX / 100 {
                n * 100
            } else {
                u64::MAX
            };
            let percent: String = number(scaled / threshold);
            let count: String = number(n);
            text::cat5("~", percent.as_str(), "% (", count.as_str(), " tok, approx.)")
        },
        None => "not yet measured".to_owned(),
    }
}

/// Writes what `/status` shows.
pub fn format_status(s: &AppState, catalog: &Catalog) -> (r: String)
    requires
        catalog.compact_threshold > 0,
        short_id(s.session.current_session_id@) is Some,
    ensures
        r@ == status_text(*s, *catalog),
{
    let model: &str = match &s.pickers.current_model {
        Some(m) => m.as_str(),
        None => "none selected",
    };
    let directory: &str = if s.session.working_directory.as_str().is_empty() {
        "unknown"
    } else {
        s.session.working_directory.as_str()
    };
    let personality: String = catalog.label_of_personality(s.active_personality);
    let session: String = format_session(s);
    let context: String = format_context(
        s.transcript.last_input_tokens,
        catalog.compact_threshold,
    );
    let undo: String = number(s.undo_count as u64);
    let redo: String = number(s.redo_count as u64);
    let mut r: String = "Provider: NVIDIA NIM · Model: ".to_owned();
    r.append(model);
    r.append(" · Reasoning effort: ");
    r.append(effort_label(&s.pickers.current_effort));
    r.append("\nPersonality: ");
    r.append(personality.as_str());
    r.append("\nDirectory: ");
    r.append(directory);
    r.append("\nSession: ");
    r.append(session.as_str());
    r.append("\nContext: ");
    r.append(context.as_str());
    r.append("\nUndo: ");
    r.append(undo.as_str());
    r.append(" available · Redo: ");
    r.append(redo.as_str());
    r.append(" available");
    r
}

// ---------------------------------------------------------------------------------------------
// What each command does
// ---------------------------------------------------------------------------------------------

/// Whether nothing but the transcript's entries changed and nothing is asked for.
pub open spec fn only_tells(pre: AppState, post: AppState, t: Turn) -> bool {
    reduce::only_entries(pre, post) && t.is_quiet()
}

/// Whether one command is sent and nothing changed.
pub open spec fn only_sends(pre: AppState, post: AppState, t: Turn, command: AppCommand) -> bool {
    post == pre && t.sends(command)
}

/// What `/worktree` does once parsed.
pub open spec fn worktree_done(
    pre: AppState,
    post: AppState,
    asked: WorktreeInvocation,
    t: Turn,
) -> bool {
    match asked {
        WorktreeInvocation::SuggestName(name) => {
            &&& t.is_quiet()
            &&& post == (AppState { composer: post.composer, ..pre })
            &&& post.composer@ == pre.composer@.placed("/worktree "@ + name@)
        },
        WorktreeInvocation::List => only_sends(pre, post, t, AppCommand::WorktreeList),
        WorktreeInvocation::Switch(target) => only_sends(
            pre,
            post,
            t,
            AppCommand::WorktreeSwitch(target),
        ),
        WorktreeInvocation::ConfirmRemove(target) => {
            &&& t.is_quiet()
            &&& post == (AppState {
                prompts: Prompts { pending_worktree_removal: Some(target), ..pre.prompts },
                ..pre
            })
        },
        WorktreeInvocation::Create { name, branch } => only_sends(
            pre,
            post,
            t,
            AppCommand::WorktreeCreate { name, branch },
        ),
        WorktreeInvocation::Invalid(message) => {
            &&& only_tells(pre, post, t)
            &&& entry::adds_error(pre.transcript.entries@, post.transcript.entries@, message@)
        },
    }
}

fn do_worktree(state: &mut AppState, asked: WorktreeInvocation) -> (t: Turn)
    requires
        old(state).wf(),
    ensures
        final(state).wf(),
        worktree_done(*old(state), *final(state), asked, t),
{
    match asked {
        WorktreeInvocation::SuggestName(name) => {
            state.composer.set_chat_input(cat2("/worktree ", name.as_str()));
            Turn::quiet()
        },
        WorktreeInvocation::List => Turn::send(AppCommand::WorktreeList),
        WorktreeInvocation::Switch(target) => Turn::send(AppCommand::WorktreeSwitch(target)),
        WorktreeInvocation::ConfirmRemove(target) => {
            state.prompts.pending_worktree_removal = Some(target);
            Turn::quiet()
        },
        WorktreeInvocation::Create { name, branch } => Turn::send(
            AppCommand::WorktreeCreate { name, branch },
        ),
        WorktreeInvocation::Invalid(message) => {
            report(&mut state.transcript.entries, message);
            Turn::quiet()
        },
    }
}

/// What `/agent` does once parsed.
pub open spec fn agent_done(pre: AppState, post: AppState, asked: AgentInvocation, t: Turn) -> bool {
    match asked {
        AgentInvocation::Spawn { task, mode, model, worktree } => only_sends(
            pre,
            post,
            t,
            AppCommand::AgentSpawn { task, mode, model, worktree },
        ),
        AgentInvocation::Status(id) => only_sends(pre, post, t, AppCommand::AgentStatus(id)),
        AgentInvocation::Message { id, text: told } => only_sends(
            pre,
            post,
            t,
            AppCommand::AgentMessage { id, text: told },
        ),
        AgentInvocation::Stop(id) => only_sends(pre, post, t, AppCommand::AgentStop(id)),
        AgentInvocation::Result(id) => only_sends(pre, post, t, AppCommand::AgentResult(id)),
        AgentInvocation::Apply { id, confirm } => only_sends(
            pre,
            post,
            t,
            if confirm {
                AppCommand::AgentApplyConfirm(id)
            } else {
                AppCommand::AgentApplyRequest(id)
            },
        ),
        AgentInvocation::Cleanup { id, confirm } => only_sends(
            pre,
            post,
            t,
            if confirm {
                AppCommand::AgentCleanupConfirm(id)
            } else {
                AppCommand::AgentCleanupRequest(id)
            },
        ),
        AgentInvocation::Invalid(message) => {
            &&& only_tells(pre, post, t)
            &&& entry::adds_error(pre.transcript.entries@, post.transcript.entries@, message@)
        },
    }
}

fn do_agent(state: &mut AppState, asked: AgentInvocation) -> (t: Turn)
    requires
        old(state).wf(),
    ensures
        final(state).wf(),
        agent_done(*old(state), *final(state), asked, t),
{
    match asked {
        AgentInvocation::Spawn { task, mode, model, worktree } => Turn::send(
            AppCommand::AgentSpawn { task, mode, model, worktree },
        ),
        AgentInvocation::Status(id) => Turn::send(AppCommand::AgentStatus(id)),
        AgentInvocation::Message { id, text: told } => Turn::send(
            AppCommand::AgentMessage { id, text: told },
        ),
        AgentInvocation::Stop(id) => Turn::send(AppCommand::AgentStop(id)),
        AgentInvocation::Result(id) => Turn::send(AppCommand::AgentResult(id)),
        AgentInvocation::Apply { id, confirm } => {
            if confirm {
                Turn::send(AppCommand::AgentApplyConfirm(id))
            } else {
                Turn::send(AppCommand::AgentApplyRequest(id))
            }
        },
        AgentInvocation::Cleanup { id, confirm } => {
            if confirm {
                Turn::send(AppCommand::AgentCleanupConfirm(id))
            } else {
                Turn::send(AppCommand::AgentCleanupRequest(id))
            }
        },
        AgentInvocation::Invalid(message) => {
            report(&mut state.transcript.entries, message);
            Turn::quiet()
        },
    }
}

/// What `/debug` does with its argument.
pub open spec fn debug_done(pre: AppState, post: AppState, raw: Seq<char>, t: Turn) -> bool {
    let argument = text::trimmed(raw);
    let before = pre.transcript.entries@;
    let after = post.transcript.entries@;
    if argument == "status"@ {
        &&& only_tells(pre, post, t)
        &&& entry::adds_info(before, after, notes::debug_status_text(pre.debug))
    } else if argument == "summary"@ {
        &&& only_tells(pre, post, t)
        &&& entry::adds_info(before, after, notes::debug_summary_text(pre.debug))
    } else if argument == "stop"@ {
        only_sends(pre, post, t, AppCommand::DebugStop)
    } else if argument.len() == 0 {
        if pre.debug.active {
            &&& only_tells(pre, post, t)
            &&& entry::adds_info(
                before,
                after,
                match pre.debug.next_question {
                    Some(q) => "Retomando investigação\n\n"@ + q@,
                    None => "Debug em andamento. Use `/debug status` ou `/debug summary`."@,
                },
            )
        } else {
            only_sends(pre, post, t, AppCommand::DebugStart(None))
        }
    } else {
        &&& post == pre
        &&& t.step == LoopStep::Next
        &&& t.commands@.len() == 1
        &&& t.commands@[0] matches AppCommand::DebugStart(Some(description))
        &&& description@ == argument
    }
}

fn do_debug(state: &mut AppState, raw: &str) -> (t: Turn)
    requires
        old(state).wf(),
    ensures
        final(state).wf(),
        debug_done(*old(state), *final(state), raw@, t),
{
    let argument: String = trim(raw);
    if same_text(argument.as_str(), "status") {
        let told: String = debug_status(&state.debug);
        note(&mut state.transcript.entries, told);
        return Turn::quiet();
    }
    if same_text(argument.as_str(), "summary") {
        let told: String = debug_summary(&state.debug);
        note(&mut state.transcript.entries, told);
        return Turn::quiet();
    }
    if same_text(argument.as_str(), "stop") {
        return Turn::send(AppCommand::DebugStop);
    }
    if argument.as_str().is_empty() {
        if !state.debug.active {
            return Turn::send(AppCommand::DebugStart(None));
        }
        let told: String = match &state.debug.next_question {
            Some(question) => cat2("Retomando investigação\n\n", question.as_str()),
            None => "Debug em andamento. Use `/debug status` ou `/debug summary`.".to_owned(),
        };
        note(&mut state.transcript.entries, told);
        return Turn::quiet();
    }
    Turn::send(AppCommand::DebugStart(Some(argument)))
}

/// What `/undo` or `/redo` does with its argument.
pub open spec fn undo_done(
    pre: AppState,
    post: AppState,
    raw: Seq<char>,
    redo: bool,
    t: Turn,
) -> bool {
    match requests::undo_count(raw) {
        Some(n) => only_sends(
            pre,
            post,
            t,
            if redo {
                AppCommand::Redo(n as usize)
            } else {
                AppCommand::Undo(n as usize)
            },
        ),
        None => {
            &&& only_tells(pre, post, t)
            &&& entry::adds_error(
                pre.transcript.entries@,
                post.transcript.entries@,
                "Usage: /undo [n] or /redo [n] (got `"@ + text::trimmed(raw) + "`)"@,
            )
        },
    }
}

fn do_undo(state: &mut AppState, raw: &str, redo: bool) -> (t: Turn)
    requires
        old(state).wf(),
    ensures
        final(state).wf(),
        undo_done(*old(state), *final(state), raw@, redo, t),
{
    match parse_undo_redo_count(raw) {
        Ok(n) => {
            if redo {
                Turn::send(AppCommand::Redo(n))
            } else {
                Turn::send(AppCommand::Undo(n))
            }
        },
        Err(message) => {
            report(&mut state.transcript.entries, message);
            Turn::quiet()
        },
    }
}

/// Whether the interface can carry out a command: listing the keymap needs one that binds every listed
/// action, an action that is named must be listed, and `/status` a positive threshold and a session id that can be shortened.
pub open spec fn is_ready(
    s: AppState,
    catalog: Catalog,
    reading: Reading,
    c: SlashCommand,
) -> bool {
    match c {
        SlashCommand::Keymap(arguments) => {
            &&& text::words_of(arguments@).len() == 0 ==> catalog.is_bound_by(
                s.preferences.keymap@,
            )
            &&& reading.action matches Some(action) ==> catalog.lists(action)
        },
        SlashCommand::Status => {
            &&& catalog.compact_threshold > 0
            &&& short_id(s.session.current_session_id@) is Some
        },
        _ => true,
    }
}

/// What opening a screen or a popup does.
pub open spec fn opened(pre: AppState, post: AppState, c: SlashCommand, t: Turn) -> bool {
    match c {
        SlashCommand::ResumeSession => {
            &&& post == (AppState {
                screen: Screen::SessionPicker,
                pickers: Pickers { selected_session: 0, ..pre.pickers },
                ..pre
            })
            &&& t.sends(AppCommand::RequestSessionList)
        },
        SlashCommand::Model => {
            &&& post == (AppState {
                screen: Screen::ModelPicker,
                pickers: Pickers {
                    selected_model: 0,
                    model_flow_pending_effort: true,
                    ..pre.pickers
                },
                ..pre
            })
            &&& t.is_quiet()
        },
        SlashCommand::Effort => {
            &&& post == (AppState {
                screen: Screen::EffortPicker,
                pickers: Pickers {
                    model_flow_pending_effort: false,
                    pending_model: None,
                    selected_effort: state::effort_row(
                        text::opt_text(pre.pickers.current_effort),
                    ) as usize,
                    ..pre.pickers
                },
                ..pre
            })
            &&& t.is_quiet()
        },
        SlashCommand::Settings => {
            &&& post == (AppState {
                screen: Screen::Settings,
                pickers: Pickers { settings_selected: 0, ..pre.pickers },
                ..pre
            })
            &&& t.is_quiet()
        },
        SlashCommand::Help => {
            &&& post == (AppState {
                help: HelpPanel { visible: true, tab: HelpTab::General, scroll: 0 },
                ..pre
            })
            &&& t.is_quiet()
        },
        SlashCommand::Skills => {
            &&& post == (AppState {
                skill_panel: SkillPanel {
                    visible: true,
                    view: SkillsView::Menu,
                    selected: 0,
                    ..pre.skill_panel
                },
                ..pre
            })
            &&& t.is_quiet()
        },
        SlashCommand::Mcp => {
            &&& post == (AppState {
                mcp: McpPanel { visible: true, view: McpView::Menu, selected: 0, ..pre.mcp },
                ..pre
            })
            &&& t.is_quiet()
        },
        SlashCommand::Agents => {
            &&& post == (AppState {
                agent_panel: AgentPanel {
                    visible: true,
                    view: AgentsView::List,
                    selected: 0,
                    ..pre.agent_panel
                },
                ..pre
            })
            &&& t.sends(AppCommand::AgentList)
        },
        _ => false,
    }
}

/// What a slash command does.
pub open spec fn command_done(
    pre: AppState,
    post: AppState,
    c: SlashCommand,
    catalog: Catalog,
    reading: Reading,
    t: Turn,
) -> bool {
    let before = pre.transcript.entries@;
    let after = post.transcript.entries@;
    match c {
        SlashCommand::Keymap(arguments) => {
            &&& t.step == LoopStep::Next
            &&& preferences::keymap_asked(
                pre,
                post,
                arguments@,
                catalog,
                reading.action,
                reading.shortcut_valid,
                t.commands@,
            )
        },
        SlashCommand::Theme(arguments) => {
            &&& t.step == LoopStep::Next
            &&& preferences::theme_asked(pre, post, arguments@, catalog, reading.theme, t.commands@)
        },
        SlashCommand::Personality(arguments) => {
            &&& t.step == LoopStep::Next
            &&& preferences::personality_asked(
                pre,
                post,
                arguments@,
                catalog,
                reading.personality,
                t.commands@,
            )
        },
        SlashCommand::Exit => post == pre && t.leaves(),
        SlashCommand::Clear => {
            &&& post == (AppState {
                transcript: Transcript {
                    entries: post.transcript.entries,
                    scroll: 0,
                    ..pre.transcript
                },
                ..pre
            })
            &&& after.len() == 0
            &&& t.sends(AppCommand::ClearConversation)
        },
        SlashCommand::Compact => if pre.transcript.activity is Some {
            &&& only_tells(pre, post, t)
            &&& entry::adds_warning(
                before,
                after,
                "Wait for the current run to finish before compacting."@,
            )
        } else {
            only_sends(pre, post, t, AppCommand::CompactContext)
        },
        SlashCommand::AutoCompact => {
            &&& post == (AppState {
                auto_compact_disabled: !pre.auto_compact_disabled,
                transcript: Transcript { entries: post.transcript.entries, ..pre.transcript },
                ..pre
            })
            &&& entry::adds_info(
                before,
                after,
                "Autocompact is now "@ + (if pre.auto_compact_disabled {
                    "on"@
                } else {
                    "off"@
                }) + "."@,
            )
            &&& t.sends(AppCommand::SetAutoCompact(pre.auto_compact_disabled))
        },
        SlashCommand::NewSession => only_sends(pre, post, t, AppCommand::NewSession),
        SlashCommand::ForkSession => only_sends(pre, post, t, AppCommand::ForkSession),
        SlashCommand::Provider => {
            &&& only_tells(pre, post, t)
            &&& entry::adds_info(before, after, "Provider: NVIDIA NIM (hosted)."@)
        },
        SlashCommand::Status => {
            &&& only_tells(pre, post, t)
            &&& entry::adds_info(before, after, status_text(pre, catalog))
        },
        SlashCommand::PlanMode => {
            &&& post == (AppState { permission_mode: PermissionMode::Plan, ..pre })
            &&& t.sends(AppCommand::SetPermissionMode(PermissionMode::Plan))
        },
        SlashCommand::Review(target) => submits_text(pre, post, review_prompt(target@), t),
        SlashCommand::Init => submits_text(pre, post, init_prompt(), t),
        SlashCommand::Worktree(raw) => exists|asked: WorktreeInvocation|
            #[trigger] requests::is_worktree_request(raw@, pre, asked) && worktree_done(
                pre,
                post,
                asked,
                t,
            ),
        SlashCommand::Undo(raw) => undo_done(pre, post, raw@, false, t),
        SlashCommand::Redo(raw) => undo_done(pre, post, raw@, true, t),
        SlashCommand::Debug(raw) => debug_done(pre, post, raw@, t),
        SlashCommand::Agent(raw) => exists|asked: AgentInvocation|
            #[trigger] requests::is_agent_request(raw@, reading.modes@, asked) && agent_done(pre, post, asked, t),
        _ => opened(pre, post, c, t),
    }
}

/// What a submission from the composer does.
pub open spec fn submission_done(
    pre: AppState,
    post: AppState,
    submission: ChatSubmission,
    catalog: Catalog,
    reading: Reading,
    t: Turn,
) -> bool {
    match submission {
        ChatSubmission::Prompt(prompt) => submits_text(pre, post, prompt@, t),
        ChatSubmission::DebugAnswer(answer) => only_sends(
            pre,
            post,
            t,
            AppCommand::DebugAnswer(answer),
        ),
        ChatSubmission::Command(c) => command_done(pre, post, c, catalog, reading, t),
    }
}

fn open_screen(state: &mut AppState, c: SlashCommand) -> (t: Turn)
    requires
        old(state).wf(),
        c is ResumeSession || c is Model || c is Effort || c is Settings || c is Help
            || c is Skills || c is Mcp || c is Agents,
    ensures
        final(state).wf(),
        opened(*old(state), *final(state), c, t),
{
    match c {
        SlashCommand::ResumeSession => {
            state.screen = Screen::SessionPicker;
            state.pickers.selected_session = 0;
            return Turn::send(AppCommand::RequestSessionList);
        },
        SlashCommand::Model => {
            state.screen = Screen::ModelPicker;
            state.pickers.selected_model = 0;
            state.pickers.model_flow_pending_effort = true;
        },
        SlashCommand::Effort => {
            state.screen = Screen::EffortPicker;
            state.pickers.model_flow_pending_effort = false;
            state.pickers.pending_model = None;
            state.pickers.selected_effort = effort_index(&state.pickers.current_effort);
        },
        SlashCommand::Settings => {
            state.screen = Screen::Settings;
            state.pickers.settings_selected = 0;
        },
        SlashCommand::Help => {
            state.help.visible = true;
            state.help.tab = HelpTab::General;
            state.help.scroll = 0;
        },
        SlashCommand::Skills => {
            state.skill_panel.visible = true;
            state.skill_panel.view = SkillsView::Menu;
            state.skill_panel.selected = 0;
        },
        SlashCommand::Mcp => {
            state.mcp.visible = true;
            state.mcp.view = McpView::Menu;
            state.mcp.selected = 0;
        },
        _ => {
            state.agent_panel.visible = true;
            state.agent_panel.view = AgentsView::List;
            state.agent_panel.selected = 0;
            return Turn::send(AppCommand::AgentList);
        },
    }
    Turn::quiet()
}

fn go_on(commands: Vec<AppCommand>) -> (t: Turn)
    ensures
        t.commands == commands,
        t.step == LoopStep::Next,
{
    Turn { commands, step: LoopStep::Next }
}

/// Carries out a recognized slash command.
#[verifier::spinoff_prover]
pub fn handle_command(
    state: &mut AppState,
    c: SlashCommand,
    catalog: &Catalog,
    reading: &Reading,
) -> (t: Turn)
    requires
        old(state).wf(),
        catalog.wf(),
        is_ready(*old(state), *catalog, *reading, c),
    ensures
        final(state).wf(),
        command_done(*old(state), *final(state), c, *catalog, *reading, t),
{
    match c {
        SlashCommand::Keymap(arguments) => {
            go_on(
                run_keymap(
                    state,
                    arguments.as_str(),
                    catalog,
                    reading.action,
                    reading.shortcut_valid,
                ),
            )
        },
        SlashCommand::Theme(arguments) => go_on(
            run_theme(state, arguments.as_str(), catalog, reading.theme),
        ),
        SlashCommand::Personality(arguments) => {
            go_on(run_personality(state, arguments.as_str(), catalog, reading.personality))
        },
        SlashCommand::Exit => Turn::leave(),
        SlashCommand::Clear => {
            state.transcript.entries = Vec::new();
            state.transcript.scroll = 0;
            Turn::send(AppCommand::ClearConversation)
        },
        SlashCommand::Compact => {
            if state.transcript.activity.is_some() {
                warn(
                    &mut state.transcript.entries,
                    "Wait for the current run to finish before compacting.".to_owned(),
                );
                Turn::quiet()
            } else {
                Turn::send(AppCommand::CompactContext)
            }
        },
        SlashCommand::AutoCompact => {
            state.auto_compact_disabled = !state.auto_compact_disabled;
            let status: &str = if state.auto_compact_disabled {
                "off"
            } else {
                "on"
            };
            note(&mut state.transcript.entries, cat3("Autocompact is now ", status, "."));
            Turn::send(AppCommand::SetAutoCompact(!state.auto_compact_disabled))
        },
        SlashCommand::NewSession => Turn::send(AppCommand::NewSession),
        SlashCommand::ForkSession => Turn::send(AppCommand::ForkSession),
        SlashCommand::Provider => {
            note(&mut state.transcript.entries, "Provider: NVIDIA NIM (hosted).".to_owned());
            Turn::quiet()
        },
        SlashCommand::Status => {
            let told: String = format_status(state, catalog);
            note(&mut state.transcript.entries, told);
            Turn::quiet()
        },
        SlashCommand::PlanMode => {
            state.permission_mode = PermissionMode::Plan;
            Turn::send(AppCommand::SetPermissionMode(PermissionMode::Plan))
        },
        SlashCommand::Review(target) => {
            submit_prompt(state, format_review_prompt(target.as_str()))
        },
        SlashCommand::Init => submit_prompt(state, format_init_prompt()),
        SlashCommand::Worktree(raw) => {
            let asked: WorktreeInvocation = parse_worktree_command(raw.as_str(), state);
            do_worktree(state, asked)
        },
        SlashCommand::Undo(raw) => do_undo(state, raw.as_str(), false),
        SlashCommand::Redo(raw) => do_undo(state, raw.as_str(), true),
        SlashCommand::Debug(raw) => do_debug(state, raw.as_str()),
        SlashCommand::Agent(raw) => {
            let asked: AgentInvocation = parse_agent_command(raw.as_str(), &reading.modes);
            do_agent(state, asked)
        },
        SlashCommand::ResumeSession => open_screen(state, SlashCommand::ResumeSession),
        SlashCommand::Model => open_screen(state, SlashCommand::Model),
        SlashCommand::Effort => open_screen(state, SlashCommand::Effort),
        SlashCommand::Settings => open_screen(state, SlashCommand::Settings),
        SlashCommand::Help => open_screen(state, SlashCommand::Help),
        SlashCommand::Skills => open_screen(state, SlashCommand::Skills),
        SlashCommand::Mcp => open_screen(state, SlashCommand::Mcp),
        SlashCommand::Agents => open_screen(state, SlashCommand::Agents),
    }
}

/// Carries out a submission: a prompt starts a run, a command is carried out, and an answer to
/// the `/debug` intake goes to the runtime.
pub fn handle_submission(
    state: &mut AppState,
    submission: ChatSubmission,
    catalog: &Catalog,
    reading: &Reading,
) -> (t: Turn)
    requires
        old(state).wf(),
        catalog.wf(),
        submission matches ChatSubmission::Command(c) ==> is_ready(*old(state), *catalog, *reading, c),
    ensures
        final(state).wf(),
        submission_done(*old(state), *final(state), submission, *catalog, *reading, t),
{
    match submission {
        ChatSubmission::Prompt(prompt) => submit_prompt(state, prompt),
        ChatSubmission::DebugAnswer(answer) => Turn::send(AppCommand::DebugAnswer(answer)),
        ChatSubmission::Command(c) => handle_command(state, c, catalog, reading),
    }
}

// ---------------------------------------------------------------------------------------------
// Laws
// ---------------------------------------------------------------------------------------------

/// Whether a text is all ASCII.
pub open spec fn is_plain_id(id: Seq<char>) -> bool {
    forall|i: int| 0 <= i < id.len() ==> (#[trigger] id[i]) as u32 <= 127
}

/// What a text that is all ASCII takes, and where it is cut.
pub proof fn lemma_plain_id(id: Seq<char>, n: nat)
    requires
        is_plain_id(id),
    ensures
        text::byte_len(id) == id.len(),
        n <= id.len() ==> text::byte_cut(id, n) == Some(id.take(n as int)),
    decreases id.len(),
{
    if id.len() > 0 {
        let rest = id.skip(1);
        assert(is_plain_id(rest)) by {
            assert forall|i: int| 0 <= i < rest.len() implies (#[trigger] rest[i]) as u32 <= 127 by {
                assert(rest[i] == id[i + 1]);
            }
        }
        assert(id[0] as u32 <= 127);
        if n > 0 {
            lemma_plain_id(rest, (n - 1) as nat);
            if n <= id.len() {
                assert(seq![id[0]] + rest.take(n - 1) =~= id.take(n as int));
            }
        } else {
            lemma_plain_id(rest, 0);
            assert(id.take(0) =~= Seq::empty());
        }
    } else {
        assert(id.take(0) =~= Seq::empty());
    }
}

/// A session is shown by the first eight characters of its id.
pub proof fn law_a_session_is_shown_by_eight_characters(id: Seq<char>)
    requires
        is_plain_id(id),
    ensures
        short_id(id) == Some(
            if id.len() > 8 {
                id.take(8)
            } else {
                id
            },
        ),
{
    lemma_plain_id(id, 8);
}

/// The context is as full as the full percents of the limit that it takes.
pub proof fn law_the_context_is_told_in_full_percents(tokens: nat, threshold: nat)
    requires
        threshold > 0,
        tokens * 100 <= u64::MAX,
    ensures
        context_percent(tokens, threshold) * threshold <= tokens * 100,
        tokens * 100 < (context_percent(tokens, threshold) + 1) * threshold,
{
    let all = tokens * 100;
    let p = all / threshold;
    assert(p * threshold <= all < (p + 1) * threshold) by (nonlinear_arith)
        requires
            threshold > 0,
            p == all / threshold,
    ;
}

/// `/undo` and `/redo` ask for as many changes as are written, or for one.
pub proof fn law_as_many_changes_are_undone_as_written(
    before: AppState,
    after: AppState,
    pre: Seq<char>,
    n: usize,
    post: Seq<char>,
    redo: bool,
    t: Turn,
)
    requires
        text_laws::all_white(pre),
        text_laws::all_white(post),
    ensures
        n > 0 && undo_done(before, after, pre + text::decimal(n as nat) + post, redo, t) ==> after
            == before && t.sends(
            if redo {
                AppCommand::Redo(n)
            } else {
                AppCommand::Undo(n)
            },
        ),
        undo_done(before, after, pre + post, redo, t) ==> after == before && t.sends(
            if redo {
                AppCommand::Redo(1)
            } else {
                AppCommand::Undo(1)
            },
        ),
        undo_done(before, after, pre + text::decimal(0) + post, redo, t) ==> t.is_quiet(),
{
    requests::law_the_count_is_what_is_written(pre, n as nat, post);
    requests::law_the_count_is_what_is_written(pre, 0, post);
}

/// What is typed after `/debug` describes the problem, whatever white space is around it, but for the
/// three words that ask about or end an investigation.
pub proof fn law_an_investigation_gets_the_description(
    before: AppState,
    after: AppState,
    pre: Seq<char>,
    description: Seq<char>,
    post: Seq<char>,
    t: Turn,
)
    requires
        text_laws::all_white(pre),
        text_laws::all_white(post),
        text_laws::is_tight(description),
        description.len() > 0,
    ensures
        description != "status"@ && description != "summary"@ && description != "stop"@
            && debug_done(before, after, pre + description + post, t) ==> after == before
            && t.commands@.len() == 1 && (t.commands@[0] matches AppCommand::DebugStart(Some(d))
            && d@ == description),
        description == "stop"@ && debug_done(before, after, pre + description + post, t) ==> t.sends(
            AppCommand::DebugStop,
        ),
        description == "status"@ && debug_done(before, after, pre + description + post, t)
            ==> t.is_quiet(),
        debug_done(before, after, pre + post, t) && !before.debug.active ==> t.sends(
            AppCommand::DebugStart(None),
        ),
        debug_done(before, after, pre + post, t) && before.debug.active ==> t.is_quiet(),
{
    let none = Seq::<char>::empty();
    text_laws::law_trimming_takes_the_white_space_around(pre, description, post);
    text_laws::law_trimming_takes_the_white_space_around(pre, none, post);
    assert(pre + none + post =~= pre + post);
    reveal_strlit("status");
    reveal_strlit("summary");
    reveal_strlit("stop");
    assert("status"@.len() == 6 && "summary"@.len() == 7 && "stop"@.len() == 4);
}

/// Commands do what they are named for: clearing leaves no entry, compacting waits for the run,
/// switching the automatic compaction twice restores it, and planning is a mode that the runtime is
/// told of. Each is told to the runtime by its own command.
pub proof fn law_commands_do_what_they_are_named_for(
    a: AppState,
    b: AppState,
    c: AppState,
    catalog: Catalog,
    reading: Reading,
    t: Turn,
    u: Turn,
)
    ensures
        command_done(a, b, SlashCommand::Clear, catalog, reading, t)
            ==> b.transcript.entries@.len() == 0 && t.sends(AppCommand::ClearConversation)
            && b.composer == a.composer,
        command_done(a, b, SlashCommand::Compact, catalog, reading, t) && a.transcript.activity is Some
            ==> t.is_quiet(),
        command_done(a, b, SlashCommand::Compact, catalog, reading, t) && a.transcript.activity is None
            ==> t.sends(AppCommand::CompactContext) && b == a,
        command_done(a, b, SlashCommand::AutoCompact, catalog, reading, t) && command_done(
            b,
            c,
            SlashCommand::AutoCompact,
            catalog,
            reading,
            u,
        ) ==> c.auto_compact_disabled == a.auto_compact_disabled && b.auto_compact_disabled
            != a.auto_compact_disabled && t.sends(AppCommand::SetAutoCompact(!b.auto_compact_disabled)),
        command_done(a, b, SlashCommand::PlanMode, catalog, reading, t) ==> b.permission_mode
            == PermissionMode::Plan && t.sends(AppCommand::SetPermissionMode(b.permission_mode)),
        command_done(a, b, SlashCommand::NewSession, catalog, reading, t) ==> b == a && t.sends(
            AppCommand::NewSession,
        ),
        command_done(a, b, SlashCommand::ForkSession, catalog, reading, t) ==> b == a && t.sends(
            AppCommand::ForkSession,
        ),
        command_done(a, b, SlashCommand::Exit, catalog, reading, t) ==> b == a && t.leaves(),
        command_done(a, b, SlashCommand::ResumeSession, catalog, reading, t) ==> b.screen
            == Screen::SessionPicker && t.sends(AppCommand::RequestSessionList),
        command_done(a, b, SlashCommand::Model, catalog, reading, t) ==> b.screen
            == Screen::ModelPicker && t.is_quiet(),
        command_done(a, b, SlashCommand::Effort, catalog, reading, t) ==> b.screen
            == Screen::EffortPicker && t.is_quiet(),
        command_done(a, b, SlashCommand::Settings, catalog, reading, t) ==> b.screen
            == Screen::Settings && t.is_quiet(),
        command_done(a, b, SlashCommand::Help, catalog, reading, t) ==> b.help.visible && b.screen
            == a.screen,
        command_done(a, b, SlashCommand::Skills, catalog, reading, t) ==> b.skill_panel.visible,
        command_done(a, b, SlashCommand::Mcp, catalog, reading, t) ==> b.mcp.visible,
        command_done(a, b, SlashCommand::Agents, catalog, reading, t) ==> b.agent_panel.visible
            && t.sends(AppCommand::AgentList),
{
}

/// A review says what is to be reviewed where something is named.
pub proof fn law_a_review_names_its_target(
    a: AppState,
    b: AppState,
    target: String,
    catalog: Catalog,
    reading: Reading,
    t: Turn,
)
    requires
        target@.len() > 0,
        command_done(a, b, SlashCommand::Review(target), catalog, reading, t),
    ensures
        t.commands@.len() == 1,
        t.commands@[0] matches AppCommand::SubmitChat(p) && text::contains_text(
            p@,
            "\""@ + target@ + "\""@,
        ) && b.transcript.entries@ == a.transcript.entries@.push(ChatEntry::User(p)),
        b.transcript.activity is Some,
{
    reveal_strlit("\"");
    reveal_strlit("the changes on/in \"");
    reveal_strlit(
        "\" (this may be a branch name, commit range, pull request number, or file/directory path — figure out which from context and use the appropriate git or gh command to get its diff)",
    );
    let open = "the changes on/in \""@;
    let close =
        "\" (this may be a branch name, commit range, pull request number, or file/directory path — figure out which from context and use the appropriate git or gh command to get its diff)"@;
    let tail =
        ". Use git (and gh, if it's a pull request) to gather the diff yourself. Focus on correctness bugs, security issues, and significant simplification or efficiency opportunities in the changed code — do not comment on unrelated pre-existing code. For each finding, give the file and line, a one-sentence description of the defect, and a concrete suggested fix. If nothing significant is found, say so plainly instead of inventing minor nitpicks."@;
    let mark = "\""@ + target@ + "\""@;
    let front = "Review "@ + open.drop_last();
    let behind = close.skip(1) + tail;
    assert(open.last() == '"');
    assert(close[0] == '"');
    assert("\""@ =~= seq!['"']);
    assert(open =~= open.drop_last() + "\""@);
    assert(close =~= "\""@ + close.skip(1));
    assert(review_prompt(target@) =~= front + mark + behind);
    text_laws::law_a_contained_text_stands_between(front, mark, behind, mark);
}

} // verus!
