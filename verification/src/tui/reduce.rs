//! How application events change the interface state.

use vstd::prelude::*;

use crate::protocol;
use crate::protocol::{
    AgentActivityState, AppEvent, ChatMessage, ConflictingFile, GuidedQuestion, McpServerStatus,
    SessionTransition, SubagentRecord, ToolActivityStatus, UndoTransactionResult,
};
use crate::text;
use crate::text::{cat2, cat4, cat5, same_text};
use crate::tui::entry;
use crate::tui::entry::ChatEntry;
use crate::tui::notes;
use crate::tui::run::{RunPhase, RunVisibility};
use crate::tui::state;
use crate::tui::state::{
    AgentsView, AppState, ConflictFileState, ConflictResolution, PendingAgentConfirm,
    PendingAgentConflict, PendingUndoConflict, PermissionPrompt, Screen, UpdatePrompt, UpdateStage,
    AgentPanel, McpPanel, Pickers, Prompts, SessionInfo, SkillPanel, Transcript, Updates,
    MAX_TOOL_OUTPUT_BYTES,
};

verus! {

// ---------------------------------------------------------------------------------------------
// Streaming text
// ---------------------------------------------------------------------------------------------

/// A delta extends the entry that is streaming, or starts a new one.
pub open spec fn streams_assistant(
    pre: Seq<ChatEntry>,
    post: Seq<ChatEntry>,
    streaming: bool,
    delta: Seq<char>,
) -> bool {
    if streaming && pre.len() > 0 && pre.last() is Assistant {
        &&& post.len() == pre.len()
        &&& post.drop_last() == pre.drop_last()
        &&& entry::is_assistant(post.last(), pre.last()->Assistant_0@ + delta)
    } else {
        &&& entry::one_more(pre, post)
        &&& entry::is_assistant(post.last(), delta)
    }
}

/// The same for reasoning text.
pub open spec fn streams_reasoning(
    pre: Seq<ChatEntry>,
    post: Seq<ChatEntry>,
    streaming: bool,
    delta: Seq<char>,
) -> bool {
    if streaming && pre.len() > 0 && pre.last() is Reasoning {
        &&& post.len() == pre.len()
        &&& post.drop_last() == pre.drop_last()
        &&& entry::is_reasoning(post.last(), pre.last()->Reasoning_0@ + delta)
    } else {
        &&& entry::one_more(pre, post)
        &&& entry::is_reasoning(post.last(), delta)
    }
}

// ---------------------------------------------------------------------------------------------
// Tool calls
// ---------------------------------------------------------------------------------------------

/// A tool entry after a later event for the same call: an empty name leaves the name alone.
pub open spec fn tool_moves_on(
    pre: ChatEntry,
    post: ChatEntry,
    name: Seq<char>,
    status: ToolActivityStatus,
    detail: Seq<char>,
) -> bool {
    &&& pre matches ChatEntry::Tool { id: i0, name: n0, output: o0, expanded: e0, .. }
    &&& post matches ChatEntry::Tool {
        id: i1,
        name: n1,
        status: s1,
        detail: d1,
        output: o1,
        expanded: e1,
    }
    &&& i1 == i0
    &&& n1@ == (if name.len() == 0 {
        n0@
    } else {
        name
    })
    &&& s1 == status
    &&& d1@ == detail
    &&& o1 == o0
    &&& e1 == e0
}

/// The entry of a call that was just announced.
pub open spec fn tool_begins(
    e: ChatEntry,
    id: Seq<char>,
    name: Seq<char>,
    status: ToolActivityStatus,
    detail: Seq<char>,
) -> bool {
    &&& e matches ChatEntry::Tool { id: i1, name: n1, status: s1, detail: d1, output: o1, expanded }
    &&& i1@ == id
    &&& n1@ == name
    &&& s1 == status
    &&& d1@ == detail
    &&& o1@.len() == 0
    &&& !expanded
}

/// A tool event updates the last entry with its id, or adds one.
pub open spec fn tool_activity(
    pre: Seq<ChatEntry>,
    post: Seq<ChatEntry>,
    id: Seq<char>,
    name: Seq<char>,
    status: ToolActivityStatus,
    detail: Seq<char>,
) -> bool {
    let i = entry::last_call(pre, id);
    if i >= 0 {
        &&& post == pre.update(i, post[i])
        &&& tool_moves_on(pre[i], post[i], name, status, detail)
    } else {
        &&& entry::one_more(pre, post)
        &&& tool_begins(post.last(), id, name, status, detail)
    }
}

/// The text that marks output left out of a tool entry.
pub open spec fn cut_mark() -> Seq<char> {
    "\n… output truncated …"@
}

/// Output of a call after one more chunk: nothing is added once the bound was reached, and what
/// runs over the bound is cut there and marked.
pub open spec fn output_after(output: Seq<char>, chunk: Seq<char>) -> Option<Seq<char>> {
    let whole = output + chunk;
    if text::byte_len(output) >= MAX_TOOL_OUTPUT_BYTES {
        Some(output)
    } else if text::byte_len(whole) <= MAX_TOOL_OUTPUT_BYTES {
        Some(whole)
    } else {
        match text::byte_cut(whole, MAX_TOOL_OUTPUT_BYTES as nat) {
            Some(kept) => Some(kept + cut_mark()),
            None => None,
        }
    }
}

/// The output held by a tool entry.
pub open spec fn output_of(e: ChatEntry) -> Seq<char> {
    match e {
        ChatEntry::Tool { output, .. } => output@,
        _ => Seq::empty(),
    }
}

/// Whether a chunk can be added: where it runs over the bound, a character must end exactly at
/// the bound.
pub open spec fn accepts_chunk(entries: Seq<ChatEntry>, id: Seq<char>, chunk: Seq<char>) -> bool {
    let i = entry::last_call(entries, id);
    i >= 0 ==> output_after(output_of(entries[i]), chunk) is Some
}

/// A tool entry with other output.
pub open spec fn output_becomes(pre: ChatEntry, post: ChatEntry, output: Seq<char>) -> bool {
    &&& pre matches ChatEntry::Tool { id, name, status, detail, expanded, .. }
    &&& post matches ChatEntry::Tool {
        id: i1,
        name: n1,
        status: s1,
        detail: d1,
        output: o1,
        expanded: e1,
    }
    &&& i1 == id && n1 == name && s1 == status && d1 == detail && e1 == expanded
    &&& o1@ == output
}

/// A chunk extends the output of the last entry with its id; without one it is dropped.
pub open spec fn tool_output(
    pre: Seq<ChatEntry>,
    post: Seq<ChatEntry>,
    id: Seq<char>,
    chunk: Seq<char>,
) -> bool {
    let i = entry::last_call(pre, id);
    if i >= 0 {
        &&& post == pre.update(i, post[i])
        &&& output_becomes(pre[i], post[i], output_after(output_of(pre[i]), chunk)->Some_0)
    } else {
        post == pre
    }
}

// ---------------------------------------------------------------------------------------------
// Ending a run
// ---------------------------------------------------------------------------------------------

/// The entries that end a run: the answer where there is one, the changed files where there are
/// any, and the closing notes.
pub open spec fn closes(
    changed: Seq<String>,
    added: Seq<ChatEntry>,
    answer: Seq<char>,
    closing: Seq<Seq<char>>,
) -> bool {
    let a: int = if answer.len() > 0 {
        1
    } else {
        0
    };
    let f: int = if changed.len() > 0 {
        1
    } else {
        0
    };
    &&& added.len() == a + f + closing.len()
    &&& a == 1 ==> entry::is_assistant(added[0], answer)
    &&& f == 1 ==> (added[a] matches ChatEntry::FileChanges(paths) && paths@ == changed)
    &&& forall|k: int| 0 <= k < closing.len() ==> #[trigger] entry::is_info(
        added[a + f + k],
        closing[k],
    )
}

/// Whether a queued update may take the screen once the run is over.
pub open spec fn update_due(s: AppState, permission_pending: bool) -> bool {
    &&& s.screen == Screen::Chat
    &&& !permission_pending
    &&& s.prompts.pending_worktree_removal is None
    &&& s.prompts.pending_agent_confirm is None
    &&& s.prompts.pending_agent_conflict is None
    &&& s.prompts.pending_undo_conflict is None
    &&& s.updates.pending_update is None
    &&& s.updates.queued_update is Some
}

/// The update popup after a queued update has taken the screen, if it was due.
pub open spec fn updates_shown(pre: Updates, due: bool) -> Updates {
    if due {
        Updates {
            pending_update: pre.queued_update,
            update_selected_no: false,
            queued_update: None,
            ..pre
        }
    } else {
        pre
    }
}

/// What the end of a run changes, whatever way it ended.
pub open spec fn run_over(
    pre: AppState,
    post: AppState,
    r: Option<String>,
    tokens: Option<u64>,
    permission: Option<PermissionPrompt>,
    visibility: RunVisibility,
    answer: Seq<char>,
    closing: Seq<Seq<char>>,
) -> bool {
    let due = update_due(pre, permission is Some);
    &&& r == pre.transcript.queued
    &&& post == (AppState {
        transcript: Transcript {
            last_input_tokens: tokens,
            activity: None,
            streaming_assistant: false,
            streaming_reasoning: false,
            entries: post.transcript.entries,
            file_change_buffer: post.transcript.file_change_buffer,
            run_visibility: visibility,
            last_submitted_prompt: None,
            queued: None,
            ..pre.transcript
        },
        prompts: Prompts { pending_permission: permission, ..pre.prompts },
        updates: updates_shown(pre.updates, due),
        ..pre
    })
    &&& post.transcript.file_change_buffer@.len() == 0
    &&& post.transcript.entries@.len() >= pre.transcript.entries@.len()
    &&& post.transcript.entries@.take(pre.transcript.entries@.len() as int) == pre.transcript.entries@
    &&& closes(
        pre.transcript.file_change_buffer@,
        post.transcript.entries@.skip(pre.transcript.entries@.len() as int),
        answer,
        closing,
    )
}

// ---------------------------------------------------------------------------------------------
// Subagents
// ---------------------------------------------------------------------------------------------

/// The index of the first record with an id, or -1.
pub open spec fn first_record(records: Seq<SubagentRecord>, id: Seq<char>, from: int) -> int
    decreases records.len() - from,
{
    if from >= records.len() {
        -1
    } else if records[from].id@ == id {
        from
    } else {
        first_record(records, id, from + 1)
    }
}

/// A new list keeps the selection on a row and the open detail in step with its record.
pub open spec fn lists_agents(pre: AppState, post: AppState, records: Seq<SubagentRecord>) -> bool {
    &&& post == (AppState {
        agent_panel: AgentPanel {
            agents: post.agent_panel.agents,
            selected: post.agent_panel.selected,
            detail: post.agent_panel.detail,
            ..pre.agent_panel
        },
        ..pre
    })
    &&& post.agent_panel.agents@.len() == records.len()
    &&& forall|i: int|
        0 <= i < records.len() ==> protocol::same_record(#[trigger] post.agent_panel.agents@[i], records[i])
    &&& post.agent_panel.selected == (if pre.agent_panel.selected < records.len() {
        pre.agent_panel.selected as int
    } else if records.len() > 0 {
        records.len() - 1
    } else {
        0
    })
    &&& match pre.agent_panel.detail {
        Some(open) => {
            let i = first_record(records, open.id@, 0);
            if i >= 0 {
                post.agent_panel.detail matches Some(d) && protocol::same_record(d, records[i])
            } else {
                post.agent_panel.detail == pre.agent_panel.detail
            }
        },
        None => post.agent_panel.detail is None,
    }
}

/// The index of the first conflicting file with a path, or -1.
pub open spec fn first_file(files: Seq<ConflictFileState>, path: Seq<char>, from: int) -> int
    decreases files.len() - from,
{
    if from >= files.len() {
        -1
    } else if files[from].path@ == path {
        from
    } else {
        first_file(files, path, from + 1)
    }
}

/// A confirmed resolution is recorded on the file it names, in the merge it names.
pub open spec fn records_resolution(
    pre: Option<PendingAgentConflict>,
    post: Option<PendingAgentConflict>,
    id: Seq<char>,
    file: Seq<char>,
    ours: bool,
) -> bool {
    let side = if ours {
        ConflictResolution::Ours
    } else {
        ConflictResolution::Theirs
    };
    match pre {
        Some(c) => {
            let i = first_file(c.files@, file, 0);
            if c.id@ == id && i >= 0 {
                &&& post matches Some(d)
                &&& d.id == c.id
                &&& d.selected == c.selected
                &&& d.files@ == c.files@.update(
                    i,
                    ConflictFileState { resolution: Some(side), ..c.files@[i] },
                )
            } else {
                post == pre
            }
        },
        None => post is None,
    }
}

/// A merge that hit conflicts: every file unresolved, the first row selected.
pub open spec fn opens_resolver(
    post: Option<PendingAgentConflict>,
    id: String,
    files: Seq<String>,
) -> bool {
    &&& post matches Some(c)
    &&& c.id == id
    &&& c.selected == 0
    &&& c.files@ == Seq::new(
        files.len(),
        |i: int| ConflictFileState { path: files[i], resolution: None },
    )
}

// ---------------------------------------------------------------------------------------------
// Sessions, questions
// ---------------------------------------------------------------------------------------------

/// The transcript of a stored conversation: what the user said and what the assistant answered.
pub open spec fn replayed(history: Seq<ChatMessage>) -> Seq<ChatEntry>
    decreases history.len(),
{
    if history.len() == 0 {
        Seq::empty()
    } else {
        let before = replayed(history.drop_last());
        match history.last() {
            ChatMessage::User(t) => before.push(ChatEntry::User(t)),
            ChatMessage::Assistant { text: Some(t) } => if t@.len() > 0 {
                before.push(ChatEntry::Assistant(t))
            } else {
                before
            },
            _ => before,
        }
    }
}

/// How the session's beginning is announced.
pub open spec fn transition_verb(transition: SessionTransition) -> Seq<char> {
    match transition {
        SessionTransition::New => "Started"@,
        SessionTransition::Resumed => "Resumed"@,
        SessionTransition::Forked => "Forked"@,
    }
}

/// The first recommended choice, or the first one.
pub open spec fn recommended_row(question: GuidedQuestion, from: int) -> int
    decreases question.choices@.len() - from,
{
    if from >= question.choices@.len() {
        0
    } else if question.choices@[from].recommended {
        from
    } else {
        recommended_row(question, from + 1)
    }
}

// ---------------------------------------------------------------------------------------------
// The reducer
// ---------------------------------------------------------------------------------------------

/// A stopped undo or redo tells what was done before it stopped, and why it stopped.
pub open spec fn notes_conflict(
    pre: Seq<ChatEntry>,
    post: Seq<ChatEntry>,
    direction: Seq<char>,
    done: Seq<UndoTransactionResult>,
    conflicting_files: Seq<ConflictingFile>,
) -> bool {
    let told: int = if done.len() > 0 {
        1
    } else {
        0
    };
    &&& post.len() == pre.len() + told + 1
    &&& post.take(pre.len() as int) == pre
    &&& told == 1 ==> entry::is_info(
        post[pre.len() as int],
        notes::undo_summary_text(notes::done_verb(direction), done),
    )
    &&& entry::is_error(post.last(), notes::conflict_text(direction, conflicting_files))
}

/// The prompt that a stopped undo or redo opens.
pub open spec fn awaits_conflict_choice(
    p: PendingUndoConflict,
    direction: String,
    requested: usize,
    done: Seq<UndoTransactionResult>,
    conflicting_files: Seq<ConflictingFile>,
) -> bool {
    &&& p.direction == direction
    &&& p.count == requested
    &&& !p.show_diff
    &&& p.conflicting_files@ == conflicting_files
    &&& p.applied@.len() == done.len()
    &&& forall|i: int|
        0 <= i < done.len() ==> protocol::same_transaction(#[trigger] p.applied@[i], done[i])
}

/// Whether an event brings no preferences that bind an action twice.
pub open spec fn binds_once_at_most(event: AppEvent) -> bool {
    event matches AppEvent::PreferencesLoaded { preferences, .. } ==> protocol::binds_once(
        preferences.keymap@,
    )
}

/// What one event does to the state, and the prompt it frees for submission.
#[verifier::opaque]
pub open spec fn applied(
    pre: AppState,
    post: AppState,
    event: AppEvent,
    r: Option<String>,
) -> bool {
    match event {
        AppEvent::BootStarted => r is None && post == (AppState { screen: Screen::Boot, ..pre }),
        AppEvent::BootCompleted => r is None && post == (AppState { screen: Screen::Chat, ..pre }),
        AppEvent::PreferencesLoaded { preferences, recovery } => {
            &&& r is None
            &&& post == (AppState {
                preferences: post.preferences,
                active_personality: preferences.personality,
                transcript: Transcript { entries: post.transcript.entries, ..pre.transcript },
                ..pre
            })
            &&& protocol::same_preferences(post.preferences, preferences)
            &&& match recovery {
                Some(t) => entry::adds_warning(
                    pre.transcript.entries@,
                    post.transcript.entries@,
                    "Preferences recovery: "@ + t@,
                ),
                None => post.transcript.entries == pre.transcript.entries,
            }
        },
        AppEvent::ProjectContextAvailable { working_directory } => r is None && post == (AppState {
            session: SessionInfo { working_directory, ..pre.session },
            ..pre
        }),
        AppEvent::CustomCommandsAvailable(commands) => {
            &&& r is None
            &&& post == (AppState { custom_commands: post.custom_commands, ..pre })
            &&& post.custom_commands@ == commands@
        },
        AppEvent::SkillsAvailable(skills) => {
            &&& r is None
            &&& post == (AppState {
                skill_panel: SkillPanel { skills: post.skill_panel.skills, ..pre.skill_panel },
                ..pre
            })
            &&& post.skill_panel.skills@ == skills@
        },
        AppEvent::McpServersAvailable(servers) => {
            &&& r is None
            &&& post == (AppState {
                mcp: McpPanel { servers: post.mcp.servers, ..pre.mcp },
                ..pre
            })
            &&& post.mcp.servers@.len() == servers@.len()
            &&& forall|i: int|
                0 <= i < servers@.len() ==> protocol::same_server(
                    #[trigger] post.mcp.servers@[i],
                    servers@[i],
                )
        },
        AppEvent::McpAuthorizationUrlReady { server, url } => {
            &&& r is None
            &&& only_entries(pre, post)
            &&& entry::adds_info(
                pre.transcript.entries@,
                post.transcript.entries@,
                notes::authorize_text(server@, url@),
            )
        },
        AppEvent::TerminalResized { .. } => r is None && post == pre,
        AppEvent::CredentialRequired => r is None && post == (AppState {
            screen: Screen::Onboarding,
            ..pre
        }),
        AppEvent::CredentialValidationStarted => {
            &&& r is None
            &&& post == (AppState { status: post.status, ..pre })
            &&& text::opt_text(post.status) == Some("Validating NVIDIA API key..."@)
        },
        AppEvent::CredentialValidationFailed(message) => r is None && post == (AppState {
            screen: Screen::Onboarding,
            status: Some(message),
            ..pre
        }),
        AppEvent::ModelsAvailable(models) => {
            &&& r is None
            &&& post == (AppState {
                screen: Screen::ModelPicker,
                status: None,
                pickers: Pickers { models: post.pickers.models, selected_model: 0, ..pre.pickers },
                ..pre
            })
            &&& post.pickers.models@ == models@
        },
        AppEvent::ModelSelected(model) => {
            &&& r is None
            &&& post == (AppState {
                screen: Screen::Chat,
                status: post.status,
                pickers: Pickers { current_model: Some(model), ..pre.pickers },
                ..pre
            })
            &&& text::opt_text(post.status) == Some("Model: "@ + model@)
        },
        AppEvent::AssistantTextDelta(delta) => {
            &&& r is None
            &&& post == (AppState {
                transcript: Transcript {
                    entries: post.transcript.entries,
                    streaming_assistant: true,
                    ..pre.transcript
                },
                ..pre
            })
            &&& streams_assistant(pre.transcript.entries@, post.transcript.entries@, pre.transcript.streaming_assistant, delta@)
        },
        AppEvent::AssistantReasoningDelta(delta) => {
            &&& r is None
            &&& post == (AppState {
                transcript: Transcript {
                    entries: post.transcript.entries,
                    streaming_reasoning: true,
                    ..pre.transcript
                },
                ..pre
            })
            &&& streams_reasoning(pre.transcript.entries@, post.transcript.entries@, pre.transcript.streaming_reasoning, delta@)
        },
        AppEvent::DebugStateUpdated(debug) => r is None && post == (AppState { debug, ..pre }),
        AppEvent::DebugInvestigationReady(prompt) => r == Some(prompt) && post == pre,
        AppEvent::ProviderFailed(message) => {
            &&& r == pre.transcript.queued
            &&& post == (AppState {
                transcript: Transcript {
                    activity: None,
                    entries: post.transcript.entries,
                    last_failed_prompt: pre.transcript.last_submitted_prompt,
                    last_submitted_prompt: None,
                    queued: None,
                    ..pre.transcript
                },
                ..pre
            })
            &&& entry::adds_error(pre.transcript.entries@, post.transcript.entries@, message@)
        },
        AppEvent::BlockingError(message) => r is None && post == (AppState {
            transcript: Transcript { activity: None, ..pre.transcript },
            prompts: Prompts { blocking_error: Some(message), ..pre.prompts },
            ..pre
        }),
        AppEvent::UpdateAvailable { current_version, version, notes } => {
            let prompt = UpdatePrompt { current_version, version, notes, stage: UpdateStage::Prompt
            };
            &&& r is None
            &&& if pre.screen == Screen::Chat && pre.transcript.activity is None && pre.prompts.pending_permission
                is None && pre.prompts.pending_worktree_removal is None && pre.prompts.pending_agent_confirm is None
                && pre.prompts.pending_agent_conflict is None && pre.prompts.pending_undo_conflict is None {
                post == (AppState {
                    updates: Updates {
                        pending_update: Some(prompt),
                        update_selected_no: false,
                        ..pre.updates
                    },
                    ..pre
                })
            } else {
                post == (AppState {
                    updates: Updates { queued_update: Some(prompt), ..pre.updates },
                    ..pre
                })
            }
        },
        AppEvent::UpdateProgress { percent, message } => {
            &&& r is None
            &&& post == (AppState { updates: Updates { pending_update: restaged(
                    pre.updates.pending_update,
                    UpdateStage::Downloading { percent, message },
                ), ..pre.updates }, ..pre })
        },
        AppEvent::UpdateReady { message } => {
            &&& r is None
            &&& post == (AppState {
                updates: Updates {
                    pending_update: restaged(pre.updates.pending_update, UpdateStage::Completed { message }),
                    ..pre.updates
                },
                ..pre
            })
        },
        AppEvent::UpdateFailed(message) => {
            &&& r is None
            &&& if pre.updates.pending_update is Some {
                post == (AppState {
                    updates: Updates {
                        pending_update: restaged(pre.updates.pending_update, UpdateStage::Failed(message)),
                        ..pre.updates
                    },
                    ..pre
                })
            } else {
                &&& only_entries(pre, post)
                &&& entry::adds_error(pre.transcript.entries@, post.transcript.entries@, message@)
            }
        },
        AppEvent::ExitForUpdate => r is None && post == (AppState {
            updates: Updates { exit_for_update: true, ..pre.updates },
            ..pre
        }),
        AppEvent::AgentStateChanged(state) => r is None && post == (AppState {
            transcript: Transcript { activity: Some(state), ..pre.transcript },
            ..pre
        }),
        AppEvent::ToolActivity { id, name, status, detail } => {
            &&& r is None
            &&& post == (AppState {
                transcript: Transcript {
                    run_visibility: post.transcript.run_visibility,
                    entries: post.transcript.entries,
                    ..pre.transcript
                },
                ..pre
            })
            &&& RunVisibility::observes(
                pre.transcript.run_visibility,
                post.transcript.run_visibility,
                name@,
                status,
                detail@,
            )
            &&& tool_activity(pre.transcript.entries@, post.transcript.entries@, id@, name@, status, detail@)
        },
        AppEvent::ToolOutputChunk { id, chunk } => {
            &&& r is None
            &&& only_entries(pre, post)
            &&& tool_output(pre.transcript.entries@, post.transcript.entries@, id@, chunk@)
        },
        AppEvent::FileChanged { path, .. } => {
            &&& r is None
            &&& post == (AppState {
                transcript: Transcript {
                    run_visibility: post.transcript.run_visibility,
                    file_change_buffer: post.transcript.file_change_buffer,
                    ..pre.transcript
                },
                ..pre
            })
            &&& RunVisibility::observes_file(pre.transcript.run_visibility, post.transcript.run_visibility, path@)
            &&& post.transcript.file_change_buffer@ == pre.transcript.file_change_buffer@.push(path)
        },
        AppEvent::AgentWarning(message) => {
            &&& r is None
            &&& only_entries(pre, post)
            &&& entry::adds_warning(pre.transcript.entries@, post.transcript.entries@, message@)
        },
        AppEvent::AgentNotice(message) => {
            &&& r is None
            &&& only_entries(pre, post)
            &&& entry::adds_info(pre.transcript.entries@, post.transcript.entries@, message@)
        },
        AppEvent::AgentProgress { line, .. } => {
            &&& r is None
            &&& only_entries(pre, post)
            &&& entry::adds_info(pre.transcript.entries@, post.transcript.entries@, line@)
        },
        AppEvent::AgentDiffReady { id, diff } => r is None && post == (AppState {
            prompts: Prompts {
                pending_agent_confirm: Some(PendingAgentConfirm::Apply { id, diff }),
                ..pre.prompts
            },
            ..pre
        }),
        AppEvent::AgentCleanupWarning { id, message } => r is None && post == (AppState {
            prompts: Prompts {
                pending_agent_confirm: Some(PendingAgentConfirm::Cleanup { id, message }),
                ..pre.prompts
            },
            ..pre
        }),
        AppEvent::AgentListAvailable(records) => r is None && lists_agents(pre, post, records@),
        AppEvent::AgentDetailAvailable { id, record } => {
            &&& r is None
            &&& post == (AppState {
                agent_panel: AgentPanel {
                    visible: record is Some,
                    view: AgentsView::Detail,
                    detail_scroll: 0,
                    next_step_cursor: 0,
                    detail: post.agent_panel.detail,
                    ..pre.agent_panel
                },
                transcript: Transcript { entries: post.transcript.entries, ..pre.transcript },
                ..pre
            })
            &&& match record {
                Some(rec) => {
                    &&& post.agent_panel.detail matches Some(d)
                    &&& protocol::same_record(d, rec)
                    &&& post.transcript.entries == pre.transcript.entries
                },
                None => {
                    &&& post.agent_panel.detail is None
                    &&& entry::adds_warning(
                        pre.transcript.entries@,
                        post.transcript.entries@,
                        "No subagent matches '"@ + id@ + "'."@,
                    )
                },
            }
        },
        AppEvent::AgentMergeConflict { id, files } => {
            &&& r is None
            &&& post == (AppState {
                prompts: Prompts {
                    pending_agent_conflict: post.prompts.pending_agent_conflict,
                    ..pre.prompts
                },
                ..pre
            })
            &&& opens_resolver(post.prompts.pending_agent_conflict, id, files@)
        },
        AppEvent::AgentConflictFileResolved { id, file, ours } => {
            &&& r is None
            &&& post == (AppState {
                prompts: Prompts {
                    pending_agent_conflict: post.prompts.pending_agent_conflict,
                    ..pre.prompts
                },
                ..pre
            })
            &&& records_resolution(
                pre.prompts.pending_agent_conflict,
                post.prompts.pending_agent_conflict,
                id@,
                file@,
                ours,
            )
        },
        AppEvent::AgentMergeFinished { id, applied: done, message } => {
            &&& r is None
            &&& post == (AppState { prompts: Prompts { pending_agent_conflict: match pre.prompts.pending_agent_conflict {
                    Some(c) => if c.id@ == id@ {
                        None
                    } else {
                        pre.prompts.pending_agent_conflict
                    },
                    None => None,
                }, ..pre.prompts }, transcript: Transcript { entries: post.transcript.entries, ..pre.transcript }, ..pre })
            &&& if done {
                entry::adds_info(pre.transcript.entries@, post.transcript.entries@, message@)
            } else {
                entry::adds_warning(pre.transcript.entries@, post.transcript.entries@, message@)
            }
        },
        AppEvent::PermissionRequested { summary, working_directory, scope_label } => r is None
            && post == (AppState {
                prompts: Prompts {
                    pending_permission: Some(PermissionPrompt { summary, working_directory, scope_label }),
                    ..pre.prompts
                },
                ..pre
            }),
        AppEvent::GuidedQuestionRequested(question) => {
            &&& r is None
            &&& post == (AppState {
                prompts: Prompts {
                    pending_guided_question: post.prompts.pending_guided_question,
                    selected_guided_choice: post.prompts.selected_guided_choice,
                    ..pre.prompts
                },
                ..pre
            })
            &&& post.prompts.pending_guided_question matches Some(q)
            &&& protocol::same_question(q, question)
            &&& post.prompts.selected_guided_choice == recommended_row(question, 0)
        },
        AppEvent::AgentCompleted {
            final_text,
            turns,
            tool_calls,
            failed_tool_calls,
            last_input_tokens,
            partial,
        } => run_over(
            pre,
            post,
            r,
            last_input_tokens,
            pre.prompts.pending_permission,
            RunVisibility { phase: RunPhase::Finalizing, ..pre.transcript.run_visibility },
            match final_text {
                Some(t) => t@,
                None => Seq::empty(),
            },
            seq![
                pre.transcript.run_visibility.completion_text(partial),
                notes::totals_text(
                    partial,
                    turns as nat,
                    tool_calls as nat,
                    failed_tool_calls as nat,
                ),
            ],
        ),
        AppEvent::AgentCancelled => run_over(
            pre,
            post,
            r,
            pre.transcript.last_input_tokens,
            None,
            RunVisibility { phase: RunPhase::Finalizing, ..pre.transcript.run_visibility },
            Seq::empty(),
            seq![pre.transcript.run_visibility.completion_text(true), "Cancelled."@],
        ),
        AppEvent::AgentStopped => run_over(
            pre,
            post,
            r,
            pre.transcript.last_input_tokens,
            None,
            pre.transcript.run_visibility,
            Seq::empty(),
            Seq::empty(),
        ),
        AppEvent::ReasoningEffortChanged { effort, announce } => {
            let name = state::effort_name(state::effort_row(text::opt_text(effort)));
            &&& r is None
            &&& if announce {
                &&& post == (AppState {
                    screen: Screen::Chat,
                    status: post.status,
                    pickers: Pickers { current_effort: effort, ..pre.pickers },
                    transcript: Transcript { entries: post.transcript.entries, ..pre.transcript },
                    ..pre
                })
                &&& entry::adds_info(
                    pre.transcript.entries@,
                    post.transcript.entries@,
                    "Reasoning effort set to: "@ + name,
                )
                &&& text::opt_text(post.status) == Some("Reasoning effort: "@ + name)
            } else {
                post == (AppState {
                    pickers: Pickers { current_effort: effort, ..pre.pickers },
                    ..pre
                })
            }
        },
        AppEvent::ContextCompacted { automatic } => {
            &&& r is None
            &&& only_entries(pre, post)
            &&& entry::adds_info(
                pre.transcript.entries@,
                post.transcript.entries@,
                if automatic {
                    "Context compacted automatically to stay within the model's context window."@
                } else {
                    "Context compacted."@
                },
            )
        },
        AppEvent::ContextCompactionFailed(message) => {
            &&& r is None
            &&& only_entries(pre, post)
            &&& entry::adds_warning(
                pre.transcript.entries@,
                post.transcript.entries@,
                "Could not compact context: "@ + message@,
            )
        },
        AppEvent::SessionSwitched { id, name, transition, history } => {
            &&& r is None
            &&& post == (AppState {
                screen: Screen::Chat,
                session: SessionInfo {
                    current_session_id: id,
                    current_session_name: name,
                    ..pre.session
                },
                transcript: Transcript {
                    entries: post.transcript.entries,
                    scroll: 0,
                    streaming_assistant: false,
                    streaming_reasoning: false,
                    file_change_buffer: post.transcript.file_change_buffer,
                    ..pre.transcript
                },
                ..pre
            })
            &&& post.transcript.file_change_buffer@.len() == 0
            &&& entry::adds_info(
                replayed(history@),
                post.transcript.entries@,
                transition_verb(transition) + " session: "@ + name@,
            )
        },
        AppEvent::SessionListAvailable(summaries) => {
            &&& r is None
            &&& post == (AppState {
                pickers: Pickers {
                    sessions: post.pickers.sessions,
                    selected_session: 0,
                    ..pre.pickers
                },
                ..pre
            })
            &&& post.pickers.sessions@ == summaries@
        },
        AppEvent::SessionResumeFailed(message) => {
            &&& r is None
            &&& post == (AppState {
                screen: Screen::Chat,
                transcript: Transcript { entries: post.transcript.entries, ..pre.transcript },
                ..pre
            })
            &&& entry::adds_error(
                pre.transcript.entries@,
                post.transcript.entries@,
                "Could not resume session: "@ + message@,
            )
        },
        AppEvent::WorktreeListAvailable(worktrees) => {
            &&& r is None
            &&& only_entries(pre, post)
            &&& entry::adds_info(
                pre.transcript.entries@,
                post.transcript.entries@,
                notes::worktree_list_text(worktrees@),
            )
        },
        AppEvent::WorktreeCreated { path, branch } => {
            &&& r is None
            &&& only_entries(pre, post)
            &&& entry::adds_info(
                pre.transcript.entries@,
                post.transcript.entries@,
                notes::worktree_created_text(path@, branch@),
            )
        },
        AppEvent::WorktreeSwitched { path, branch } => {
            &&& r is None
            &&& only_entries(pre, post)
            &&& entry::adds_info(
                pre.transcript.entries@,
                post.transcript.entries@,
                notes::worktree_switched_text(path@, branch@),
            )
        },
        AppEvent::WorktreeRemoved { path, switched_to } => {
            &&& r is None
            &&& only_entries(pre, post)
            &&& entry::adds_info(
                pre.transcript.entries@,
                post.transcript.entries@,
                notes::worktree_removed_text(path@, text::opt_text(switched_to)),
            )
        },
        AppEvent::WorktreeOperationFailed(message) => {
            &&& r is None
            &&& only_entries(pre, post)
            &&& entry::adds_error(pre.transcript.entries@, post.transcript.entries@, "Worktree: "@ + message@)
        },
        AppEvent::UndoApplied { direction, transactions } => {
            &&& r is None
            &&& only_entries(pre, post)
            &&& entry::adds_info(
                pre.transcript.entries@,
                post.transcript.entries@,
                notes::undo_summary_text(notes::done_verb(direction@), transactions@),
            )
        },
        AppEvent::UndoConflict { direction, requested, applied: done, conflicting_files } => {
            &&& r is None
            &&& post == (AppState {
                transcript: Transcript { entries: post.transcript.entries, ..pre.transcript },
                prompts: Prompts {
                    pending_undo_conflict: post.prompts.pending_undo_conflict,
                    ..pre.prompts
                },
                ..pre
            })
            &&& notes_conflict(
                pre.transcript.entries@,
                post.transcript.entries@,
                direction@,
                done@,
                conflicting_files@,
            )
            &&& post.prompts.pending_undo_conflict matches Some(p)
            &&& awaits_conflict_choice(p, direction, requested, done@, conflicting_files@)
        },
        AppEvent::UndoUnavailable { direction } => {
            &&& r is None
            &&& only_entries(pre, post)
            &&& entry::adds_info(
                pre.transcript.entries@,
                post.transcript.entries@,
                if notes::is_redo(direction@) {
                    "Nothing to redo."@
                } else {
                    "Nothing to undo."@
                },
            )
        },
        AppEvent::UndoStackChanged { undo_count, redo_count } => r is None && post == (AppState {
            undo_count,
            redo_count,
            ..pre
        }),
        AppEvent::UndoOperationFailed { direction, message } => {
            &&& r is None
            &&& only_entries(pre, post)
            &&& entry::adds_error(
                pre.transcript.entries@,
                post.transcript.entries@,
                notes::action_name(direction@) + ": "@ + message@,
            )
        },
    }
}

/// Whether nothing but the transcript's entries changed.
pub open spec fn only_entries(pre: AppState, post: AppState) -> bool {
    post == (AppState {
        transcript: Transcript { entries: post.transcript.entries, ..pre.transcript },
        ..pre
    })
}

/// An update prompt moved to another stage, where there is one.
pub open spec fn restaged(prompt: Option<UpdatePrompt>, stage: UpdateStage) -> Option<UpdatePrompt> {
    match prompt {
        Some(p) => Some(UpdatePrompt { stage, ..p }),
        None => None,
    }
}

/// Adds a status note.
pub fn note(entries: &mut Vec<ChatEntry>, text: String)
    ensures
        entry::adds_info(old(entries)@, final(entries)@, text@),
{
    entries.push(ChatEntry::Info(text));
    assert(entries@.drop_last() =~= old(entries)@);
}

/// Adds a warning.
pub fn warn(entries: &mut Vec<ChatEntry>, text: String)
    ensures
        entry::adds_warning(old(entries)@, final(entries)@, text@),
{
    entries.push(ChatEntry::Warning(text));
    assert(entries@.drop_last() =~= old(entries)@);
}

/// Adds an inline error.
pub fn report(entries: &mut Vec<ChatEntry>, text: String)
    ensures
        entry::adds_error(old(entries)@, final(entries)@, text@),
{
    entries.push(ChatEntry::Error(text));
    assert(entries@.drop_last() =~= old(entries)@);
}

fn push_assistant_delta(entries: &mut Vec<ChatEntry>, streaming: bool, delta: &str)
    ensures
        streams_assistant(old(entries)@, final(entries)@, streaming, delta@),
{
    let n: usize = entries.len();
    if streaming && n > 0 {
        let last: Option<ChatEntry> = entries.pop();
        match last {
            Some(ChatEntry::Assistant(mut t)) => {
                t.append(delta);
                entries.push(ChatEntry::Assistant(t));
                assert(entries@.drop_last() =~= old(entries)@.drop_last());
                return ;
            },
            Some(other) => {
                entries.push(other);
            },
            None => {},
        }
        assert(entries@ =~= old(entries)@);
    }
    entries.push(ChatEntry::Assistant(delta.to_owned()));
    assert(entries@.drop_last() =~= old(entries)@);
}

fn push_reasoning_delta(entries: &mut Vec<ChatEntry>, streaming: bool, delta: &str)
    ensures
        streams_reasoning(old(entries)@, final(entries)@, streaming, delta@),
{
    let n: usize = entries.len();
    if streaming && n > 0 {
        let last: Option<ChatEntry> = entries.pop();
        match last {
            Some(ChatEntry::Reasoning(mut t)) => {
                t.append(delta);
                entries.push(ChatEntry::Reasoning(t));
                assert(entries@.drop_last() =~= old(entries)@.drop_last());
                return ;
            },
            Some(other) => {
                entries.push(other);
            },
            None => {},
        }
        assert(entries@ =~= old(entries)@);
    }
    entries.push(ChatEntry::Reasoning(delta.to_owned()));
    assert(entries@.drop_last() =~= old(entries)@);
}

fn apply_tool_activity(
    entries: &mut Vec<ChatEntry>,
    id: &str,
    name: &str,
    status: ToolActivityStatus,
    detail: &str,
)
    ensures
        tool_activity(old(entries)@, final(entries)@, id@, name@, status, detail@),
{
    match entry::find_call(entries, id) {
        Some(i) => {
            let slot: &mut ChatEntry = &mut entries[i];
            match slot {
                ChatEntry::Tool {
                    name: entry_name,
                    status: entry_status,
                    detail: entry_detail,
                    ..
                } => {
                    *entry_status = status;
                    *entry_detail = detail.to_owned();
                    if !name.is_empty() {
                        *entry_name = name.to_owned();
                    }
                },
                _ => {},
            }
        },
        None => {
            entries.push(
                ChatEntry::Tool {
                    id: id.to_owned(),
                    name: name.to_owned(),
                    status,
                    detail: detail.to_owned(),
                    output: String::new(),
                    expanded: false,
                },
            );
            assert(entries@.drop_last() =~= old(entries)@);
        },
    }
}

fn append_tool_output(entries: &mut Vec<ChatEntry>, id: &str, chunk: &str)
    requires
        accepts_chunk(old(entries)@, id@, chunk@),
    ensures
        tool_output(old(entries)@, final(entries)@, id@, chunk@),
{
    match entry::find_call(entries, id) {
        Some(i) => {
            let slot: &mut ChatEntry = &mut entries[i];
            match slot {
                ChatEntry::Tool { output, .. } => {
                    if !text::longer_than(output.as_str(), MAX_TOOL_OUTPUT_BYTES - 1) {
                        output.append(chunk);
                        if text::longer_than(output.as_str(), MAX_TOOL_OUTPUT_BYTES) {
                            let kept: Option<String> = text::cut_at(
                                output.as_str(),
                                MAX_TOOL_OUTPUT_BYTES,
                            );
                            match kept {
                                Some(mut t) => {
                                    t.append("\n… output truncated …");
                                    *output = t;
                                },
                                None => {},
                            }
                        }
                    }
                },
                _ => {},
            }
        },
        None => {},
    }
}

fn flush_file_changes(entries: &mut Vec<ChatEntry>, buffer: &mut Vec<String>)
    ensures
        final(buffer)@.len() == 0,
        if old(buffer)@.len() > 0 {
            &&& entry::one_more(old(entries)@, final(entries)@)
            &&& final(entries)@.last() matches ChatEntry::FileChanges(paths)
            &&& paths@ == old(buffer)@
        } else {
            final(entries)@ == old(entries)@
        },
{
    if buffer.len() > 0 {
        let mut paths: Vec<String> = Vec::new();
        std::mem::swap(&mut paths, buffer);
        entries.push(ChatEntry::FileChanges(paths));
        assert(entries@.drop_last() =~= old(entries)@);
    }
}

fn close_run(
    entries: &mut Vec<ChatEntry>,
    buffer: &mut Vec<String>,
    answer: &Option<String>,
    closing: Vec<String>,
)
    ensures
        final(buffer)@.len() == 0,
        final(entries)@.len() >= old(entries)@.len(),
        final(entries)@.take(old(entries)@.len() as int) == old(entries)@,
        closes(
            old(buffer)@,
            final(entries)@.skip(old(entries)@.len() as int),
            match *answer {
                Some(t) => t@,
                None => Seq::empty(),
            },
            text::texts(closing@),
        ),
{
    let ghost n = entries@.len();
    let ghost before = entries@;
    let ghost wanted = text::texts(closing@);
    match answer {
        Some(t) => {
            if !t.as_str().is_empty() {
                entries.push(ChatEntry::Assistant(t.clone()));
            }
        },
        None => {},
    }
    let ghost answered = entries@;
    flush_file_changes(entries, buffer);
    let ghost flushed = entries@;
    let ghost k = flushed.len();
    assert forall|j: int| 0 <= j < answered.len() implies flushed[j] == answered[j] by {
        if k > answered.len() {
            assert(flushed.drop_last()[j] == answered[j]);
        }
    }
    let mut i: usize = 0;
    while i < closing.len()
        invariant
            i <= closing@.len(),
            wanted == text::texts(closing@),
            entries@.len() == k + i,
            entries@.take(k as int) == flushed,
            k == flushed.len(),
            forall|j: int| 0 <= j < i ==> #[trigger] entry::is_info(entries@[k + j], wanted[j]),
        decreases closing@.len() - i,
    {
        let ghost prev = entries@;
        entries.push(ChatEntry::Info(closing[i].clone()));
        assert(entries@.take(k as int) =~= prev.take(k as int));
        assert forall|j: int| 0 <= j < i + 1 implies #[trigger] entry::is_info(
            entries@[k + j],
            wanted[j],
        ) by {
            if j < i {
                assert(entry::is_info(prev[k + j], wanted[j]));
                assert(entries@[k + j] == prev[k + j]);
            }
        }
        i = i + 1;
    }
    proof {
        assert forall|j: int| 0 <= j < k implies entries@[j] == flushed[j] by {
            assert(entries@.take(k as int)[j] == flushed[j]);
        }
        assert(entries@.take(n as int) =~= before);
        let added = entries@.skip(n as int);
        let m = answered.len();
        let said = match answer {
            Some(t) => t@,
            None => Seq::empty(),
        };
        let a: int = if said.len() > 0 {
            1
        } else {
            0
        };
        let f: int = if old(buffer)@.len() > 0 {
            1
        } else {
            0
        };
        assert(m == n + a);
        assert(k == m + f);
        assert(added.len() == a + f + wanted.len());
        assert forall|j: int| 0 <= j < wanted.len() implies #[trigger] entry::is_info(
            added[a + f + j],
            wanted[j],
        ) by {
            assert(entry::is_info(entries@[k + j], wanted[j]));
            assert(added[a + f + j] == entries@[k + j]);
        }
        if a == 1 {
            assert(added[0] == entries@[n as int]);
            assert(entries@[n as int] == answered[n as int]);
        }
        if f == 1 {
            assert(added[a] == entries@[m as int]);
            assert(entries@[m as int] == flushed.last());
        }
    }
}

/// Finds the first record with an id.
pub fn find_record(records: &Vec<SubagentRecord>, id: &str) -> (r: Option<usize>)
    ensures
        match r {
            Some(i) => i < records@.len() && first_record(records@, id@, 0) == i,
            None => first_record(records@, id@, 0) == -1,
        },
{
    let mut i: usize = 0;
    while i < records.len()
        invariant
            i <= records@.len(),
            first_record(records@, id@, 0) == first_record(records@, id@, i as int),
        decreases records@.len() - i,
    {
        if same_text(records[i].id.as_str(), id) {
            return Some(i);
        }
        i = i + 1;
    }
    None
}

fn resolve_conflict_file(
    pending: &mut Option<PendingAgentConflict>,
    id: &str,
    file: &str,
    ours: bool,
)
    ensures
        records_resolution(*old(pending), *final(pending), id@, file@, ours),
{
    let side: ConflictResolution = if ours {
        ConflictResolution::Ours
    } else {
        ConflictResolution::Theirs
    };
    match pending {
        Some(c) => {
            if same_text(c.id.as_str(), id) {
                match find_file(&c.files, file) {
                    Some(i) => {
                        let path: String = c.files[i].path.clone();
                        c.files.set(i, ConflictFileState { path, resolution: Some(side) });
                    },
                    None => {},
                }
            }
        },
        None => {},
    }
}

fn replay(history: &Vec<ChatMessage>) -> (entries: Vec<ChatEntry>)
    ensures
        entries@ == replayed(history@),
{
    let mut entries: Vec<ChatEntry> = Vec::new();
    let mut i: usize = 0;
    assert(entries@ =~= replayed(history@.take(0)));
    while i < history.len()
        invariant
            i <= history@.len(),
            entries@ == replayed(history@.take(i as int)),
        decreases history@.len() - i,
    {
        assert(history@.take(i + 1).drop_last() =~= history@.take(i as int));
        assert(history@.take(i + 1).last() == history@[i as int]);
        match &history[i] {
            ChatMessage::User(t) => {
                entries.push(ChatEntry::User(t.clone()));
            },
            ChatMessage::Assistant { text: Some(t) } => {
                if !t.as_str().is_empty() {
                    entries.push(ChatEntry::Assistant(t.clone()));
                }
            },
            _ => {},
        }
        i = i + 1;
    }
    assert(history@.take(i as int) =~= history@);
    entries
}

fn transition_word(transition: SessionTransition) -> (r: &'static str)
    ensures
        r@ == transition_verb(transition),
{
    match transition {
        SessionTransition::New => "Started",
        SessionTransition::Resumed => "Resumed",
        SessionTransition::Forked => "Forked",
    }
}

fn note_conflict(
    entries: &mut Vec<ChatEntry>,
    direction: &str,
    done: &Vec<UndoTransactionResult>,
    conflicting_files: &Vec<ConflictingFile>,
)
    ensures
        notes_conflict(old(entries)@, final(entries)@, direction@, done@, conflicting_files@),
{
    if done.len() > 0 {
        let summary: String = notes::format_undo_summary(notes::done_word(direction), done);
        entries.push(ChatEntry::Info(summary));
    }
    entries.push(ChatEntry::Error(notes::format_conflict(direction, conflicting_files)));
    assert(entries@.take(old(entries)@.len() as int) =~= old(entries)@);
}

fn stop_at_conflict(
    direction: &String,
    requested: usize,
    done: &Vec<UndoTransactionResult>,
    conflicting_files: &Vec<ConflictingFile>,
) -> (p: PendingUndoConflict)
    ensures
        awaits_conflict_choice(p, *direction, requested, done@, conflicting_files@),
{
    let files: Vec<ConflictingFile> = conflicting_files.clone();
    assert(files@ =~= conflicting_files@);
    PendingUndoConflict {
        direction: direction.clone(),
        count: requested,
        applied: done.clone(),
        conflicting_files: files,
        show_diff: false,
    }
}

fn restage(pending: &mut Option<UpdatePrompt>, stage: UpdateStage)
    ensures
        *final(pending) == restaged(*old(pending), stage),
{
    match pending {
        Some(p) => {
            p.stage = stage;
        },
        None => {},
    }
}

impl AppState {
    /// Whether a chunk of tool output can be added to the transcript as it is.
    pub fn can_append_output(&self, id: &str, chunk: &str) -> (r: bool)
        ensures
            r == accepts_chunk(self.transcript.entries@, id@, chunk@),
    {
        match entry::find_call(&self.transcript.entries, id) {
            Some(i) => {
                match &self.transcript.entries[i] {
                    ChatEntry::Tool { output, .. } => {
                        if text::longer_than(output.as_str(), MAX_TOOL_OUTPUT_BYTES - 1) {
                            return true;
                        }
                        let whole: String = cat2(output.as_str(), chunk);
                        if !text::longer_than(whole.as_str(), MAX_TOOL_OUTPUT_BYTES) {
                            return true;
                        }
                        let cut: Option<String> = text::cut_at(
                            whole.as_str(),
                            MAX_TOOL_OUTPUT_BYTES,
                        );
                        cut.is_some()
                    },
                    _ => true,
                }
            },
            None => true,
        }
    }

    fn show_queued_update(&mut self)
        ensures
            *final(self) == (AppState {
                updates: updates_shown(
                    old(self).updates,
                    update_due(*old(self), old(self).prompts.pending_permission is Some),
                ),
                ..*old(self)
            }),
    {
        if self.screen == Screen::Chat && self.prompts.pending_permission.is_none()
            && self.prompts.pending_worktree_removal.is_none() && self.prompts.pending_agent_confirm.is_none()
            && self.prompts.pending_agent_conflict.is_none() && self.prompts.pending_undo_conflict.is_none()
            && self.updates.pending_update.is_none() && self.updates.queued_update.is_some() {
            self.updates.pending_update = self.updates.queued_update.take();
            self.updates.update_selected_no = false;
        }
    }

    /// Records that a prompt was just sent, adding it to the transcript and marking the run
    /// active. Callers own actually sending the corresponding command.
    pub fn begin_run(&mut self, prompt: String)
        ensures
            old(self).wf() ==> final(self).wf(),
            *final(self) == (AppState {
                transcript: Transcript {
                    entries: final(self).transcript.entries,
                    last_submitted_prompt: Some(prompt),
                    activity: Some(AgentActivityState::Thinking),
                    run_visibility: final(self).transcript.run_visibility,
                    streaming_assistant: false,
                    streaming_reasoning: false,
                    scroll: 0,
                    ..old(self).transcript
                },
                ..*old(self)
            }),
            final(self).transcript.entries@ == old(self).transcript.entries@.push(ChatEntry::User(prompt)),
            final(self).transcript.run_visibility.started_at == Some(old(self).clock_ms),
            (RunVisibility { started_at: None, ..final(self).transcript.run_visibility }).is_blank(),
    {
        self.transcript.entries.push(ChatEntry::User(prompt.clone()));
        self.transcript.last_submitted_prompt = Some(prompt);
        self.transcript.activity = Some(AgentActivityState::Thinking);
        let now: u64 = self.clock_ms;
        self.transcript.run_visibility.start(now);
        self.transcript.streaming_assistant = false;
        self.transcript.streaming_reasoning = false;
        self.transcript.scroll = 0;
    }
}

/// Finds the first conflicting file with a path.
pub fn find_file(files: &Vec<ConflictFileState>, path: &str) -> (r: Option<usize>)
    ensures
        match r {
            Some(i) => i < files@.len() && first_file(files@, path@, 0) == i,
            None => first_file(files@, path@, 0) == -1,
        },
{
    let mut i: usize = 0;
    while i < files.len()
        invariant
            i <= files@.len(),
            first_file(files@, path@, 0) == first_file(files@, path@, i as int),
        decreases files@.len() - i,
    {
        if same_text(files[i].path.as_str(), path) {
            return Some(i);
        }
        i = i + 1;
    }
    None
}

/// Finds the first recommended choice, or the first one.
pub fn find_recommended(question: &GuidedQuestion) -> (r: usize)
    ensures
        r == recommended_row(*question, 0),
        question.choices@.len() > 0 ==> r < question.choices@.len(),
{
    let mut i: usize = 0;
    while i < question.choices.len()
        invariant
            i <= question.choices@.len(),
            recommended_row(*question, 0) == recommended_row(*question, i as int),
        decreases question.choices@.len() - i,
    {
        if question.choices[i].recommended {
            return i;
        }
        i = i + 1;
    }
    0
}

fn unresolved(files: &Vec<String>) -> (r: Vec<ConflictFileState>)
    ensures
        r@ == Seq::new(
            files@.len(),
            |i: int| ConflictFileState { path: files@[i], resolution: None },
        ),
{
    let mut r: Vec<ConflictFileState> = Vec::new();
    let mut i: usize = 0;
    while i < files.len()
        invariant
            i <= files@.len(),
            r@ == Seq::new(
                i as nat,
                |j: int| ConflictFileState { path: files@[j], resolution: None },
            ),
        decreases files@.len() - i,
    {
        r.push(ConflictFileState { path: files[i].clone(), resolution: None });
        i = i + 1;
        assert(r@ =~= Seq::new(
            i as nat,
            |j: int| ConflictFileState { path: files@[j], resolution: None },
        ));
    }
    r
}

impl AppState {
    /// Events on the project and its surroundings.
    #[verifier::spinoff_prover]
    fn apply_project(&mut self, event: &AppEvent) -> (r: Option<String>)
        requires
            old(self).wf(),
            event is BootStarted || event is BootCompleted || event is PreferencesLoaded
                || event is ProjectContextAvailable || event is CustomCommandsAvailable
                || event is SkillsAvailable || event is McpServersAvailable
                || event is McpAuthorizationUrlReady || event is TerminalResized,
            binds_once_at_most(*event),
        ensures
            final(self).wf(),
            applied(*old(self), *final(self), *event, r),
    {
        reveal(applied);
        match event {
            AppEvent::BootStarted => {
                self.screen = Screen::Boot;
            },
            AppEvent::BootCompleted => {
                self.screen = Screen::Chat;
            },
            AppEvent::PreferencesLoaded { preferences, recovery } => {
                self.preferences = preferences.clone();
                self.active_personality = preferences.personality;
                match recovery {
                    Some(t) => {
                        warn(&mut self.transcript.entries, cat2("Preferences recovery: ", t.as_str()));
                    },
                    None => {},
                }
            },
            AppEvent::ProjectContextAvailable { working_directory } => {
                self.session.working_directory = working_directory.clone();
            },
            AppEvent::CustomCommandsAvailable(commands) => {
                self.custom_commands = commands.clone();
                assert(self.custom_commands@ =~= commands@);
            },
            AppEvent::SkillsAvailable(skills) => {
                self.skill_panel.skills = skills.clone();
                assert(self.skill_panel.skills@ =~= skills@);
            },
            AppEvent::McpServersAvailable(servers) => {
                let copies: Vec<McpServerStatus> = servers.clone();
                self.mcp.servers = copies;
            },
            AppEvent::McpAuthorizationUrlReady { server, url } => {
                note(
                    &mut self.transcript.entries,
                    cat4(
                        "Opening your browser to authorize MCP server '",
                        server.as_str(),
                        "'. If it didn't open, visit: ",
                        url.as_str(),
                    ),
                );
            },
            AppEvent::TerminalResized { .. } => {},
            _ => {},
        }
        None
    }

    /// Events on the credential, the model and its effort level.
    #[verifier::spinoff_prover]
    fn apply_setup(&mut self, event: &AppEvent) -> (r: Option<String>)
        requires
            old(self).wf(),
            event is CredentialRequired || event is CredentialValidationStarted
                || event is CredentialValidationFailed || event is ModelsAvailable
                || event is ModelSelected || event is ReasoningEffortChanged,
        ensures
            final(self).wf(),
            applied(*old(self), *final(self), *event, r),
    {
        reveal(applied);
        match event {
            AppEvent::CredentialRequired => {
                self.screen = Screen::Onboarding;
            },
            AppEvent::CredentialValidationStarted => {
                self.status = Some("Validating NVIDIA API key...".to_owned());
            },
            AppEvent::CredentialValidationFailed(message) => {
                self.screen = Screen::Onboarding;
                self.status = Some(message.clone());
            },
            AppEvent::ModelsAvailable(models) => {
                self.screen = Screen::ModelPicker;
                self.pickers.models = protocol::copy_texts(models);
                self.pickers.selected_model = 0;
                self.status = None;
            },
            AppEvent::ModelSelected(model) => {
                self.screen = Screen::Chat;
                self.pickers.current_model = Some(model.clone());
                self.status = Some(cat2("Model: ", model.as_str()));
            },
            AppEvent::ReasoningEffortChanged { effort, announce } => {
                self.pickers.current_effort = effort.clone();
                if *announce {
                    self.screen = Screen::Chat;
                    let label: &str = state::effort_label(effort);
                    note(&mut self.transcript.entries, cat2("Reasoning effort set to: ", label));
                    self.status = Some(cat2("Reasoning effort: ", label));
                }
            },
            _ => {},
        }
        None
    }

    /// Events of the provider.
    #[verifier::spinoff_prover]
    fn apply_stream(&mut self, event: &AppEvent) -> (r: Option<String>)
        requires
            old(self).wf(),
            event is AssistantTextDelta || event is AssistantReasoningDelta
                || event is DebugStateUpdated || event is DebugInvestigationReady
                || event is ProviderFailed || event is BlockingError,
        ensures
            final(self).wf(),
            applied(*old(self), *final(self), *event, r),
    {
        reveal(applied);
        match event {
            AppEvent::AssistantTextDelta(delta) => {
                push_assistant_delta(&mut self.transcript.entries, self.transcript.streaming_assistant, delta.as_str());
                self.transcript.streaming_assistant = true;
            },
            AppEvent::AssistantReasoningDelta(delta) => {
                push_reasoning_delta(&mut self.transcript.entries, self.transcript.streaming_reasoning, delta.as_str());
                self.transcript.streaming_reasoning = true;
            },
            AppEvent::DebugStateUpdated(debug) => {
                self.debug = debug.clone();
            },
            AppEvent::DebugInvestigationReady(prompt) => {
                return Some(prompt.clone());
            },
            AppEvent::ProviderFailed(message) => {
                self.transcript.activity = None;
                report(&mut self.transcript.entries, message.clone());
                self.transcript.last_failed_prompt = self.transcript.last_submitted_prompt.take();
                return self.transcript.queued.take();
            },
            AppEvent::BlockingError(message) => {
                self.transcript.activity = None;
                self.prompts.blocking_error = Some(message.clone());
            },
            _ => {},
        }
        None
    }

    /// Events of the updater.
    #[verifier::spinoff_prover]
    fn apply_update(&mut self, event: &AppEvent) -> (r: Option<String>)
        requires
            old(self).wf(),
            event is UpdateAvailable || event is UpdateProgress || event is UpdateReady
                || event is UpdateFailed || event is ExitForUpdate,
        ensures
            final(self).wf(),
            applied(*old(self), *final(self), *event, r),
    {
        reveal(applied);
        match event {
            AppEvent::UpdateAvailable { current_version, version, notes } => {
                let prompt: UpdatePrompt = UpdatePrompt {
                    current_version: current_version.clone(),
                    version: version.clone(),
                    notes: notes.clone(),
                    stage: UpdateStage::Prompt,
                };
                if self.screen == Screen::Chat && self.transcript.activity.is_none()
                    && self.prompts.pending_permission.is_none() && self.prompts.pending_worktree_removal.is_none()
                    && self.prompts.pending_agent_confirm.is_none() && self.prompts.pending_agent_conflict.is_none()
                    && self.prompts.pending_undo_conflict.is_none() {
                    self.updates.pending_update = Some(prompt);
                    self.updates.update_selected_no = false;
                } else {
                    self.updates.queued_update = Some(prompt);
                }
            },
            AppEvent::UpdateProgress { percent, message } => {
                restage(&mut self.updates.pending_update, 
                    UpdateStage::Downloading { percent: *percent, message: message.clone() },
                );
            },
            AppEvent::UpdateReady { message } => {
                restage(&mut self.updates.pending_update, UpdateStage::Completed { message: message.clone() });
            },
            AppEvent::UpdateFailed(message) => {
                if self.updates.pending_update.is_some() {
                    restage(&mut self.updates.pending_update, UpdateStage::Failed(message.clone()));
                } else {
                    report(&mut self.transcript.entries, message.clone());
                }
            },
            AppEvent::ExitForUpdate => {
                self.updates.exit_for_update = true;
            },
            _ => {},
        }
        None
    }

    /// Events of a run in progress.
    #[verifier::spinoff_prover]
    fn apply_activity(&mut self, event: &AppEvent) -> (r: Option<String>)
        requires
            old(self).wf(),
            event is AgentStateChanged || event is ToolActivity || event is ToolOutputChunk
                || event is FileChanged || event is AgentWarning || event is AgentNotice
                || event is AgentProgress,
            event matches AppEvent::ToolOutputChunk { id, chunk } ==> accepts_chunk(
                old(self).transcript.entries@,
                id@,
                chunk@,
            ),
            binds_once_at_most(*event),
        ensures
            final(self).wf(),
            applied(*old(self), *final(self), *event, r),
    {
        reveal(applied);
        match event {
            AppEvent::AgentStateChanged(state) => {
                self.transcript.activity = Some(*state);
            },
            AppEvent::ToolActivity { id, name, status, detail } => {
                self.transcript.run_visibility.observe_tool(name.as_str(), *status, detail.as_str());
                apply_tool_activity(
                    &mut self.transcript.entries,
                    id.as_str(),
                    name.as_str(),
                    *status,
                    detail.as_str(),
                );
            },
            AppEvent::ToolOutputChunk { id, chunk } => {
                append_tool_output(&mut self.transcript.entries, id.as_str(), chunk.as_str());
            },
            AppEvent::FileChanged { path, .. } => {
                self.transcript.run_visibility.observe_file_change(path.as_str());
                self.transcript.file_change_buffer.push(path.clone());
            },
            AppEvent::AgentWarning(message) => {
                warn(&mut self.transcript.entries, message.clone());
            },
            AppEvent::AgentNotice(message) => {
                note(&mut self.transcript.entries, message.clone());
            },
            AppEvent::AgentProgress { line, .. } => {
                note(&mut self.transcript.entries, line.clone());
            },
            _ => {},
        }
        None
    }

    /// Events of subagents.
    #[verifier::spinoff_prover]
    fn apply_subagent(&mut self, event: &AppEvent) -> (r: Option<String>)
        requires
            old(self).wf(),
            event is AgentDiffReady || event is AgentCleanupWarning || event is AgentListAvailable
                || event is AgentDetailAvailable,
        ensures
            final(self).wf(),
            applied(*old(self), *final(self), *event, r),
    {
        reveal(applied);
        match event {
            AppEvent::AgentDiffReady { id, diff } => {
                self.prompts.pending_agent_confirm = Some(
                    PendingAgentConfirm::Apply { id: id.clone(), diff: diff.clone() },
                );
            },
            AppEvent::AgentCleanupWarning { id, message } => {
                self.prompts.pending_agent_confirm = Some(
                    PendingAgentConfirm::Cleanup { id: id.clone(), message: message.clone() },
                );
            },
            AppEvent::AgentListAvailable(records) => {
                self.agent_panel.agents = records.clone();
                if self.agent_panel.selected >= self.agent_panel.agents.len() {
                    self.agent_panel.selected = self.agent_panel.agents.len().saturating_sub(1);
                }
                let row: Option<usize> = match &self.agent_panel.detail {
                    Some(current) => find_record(records, current.id.as_str()),
                    None => None,
                };
                match row {
                    Some(i) => {
                        self.agent_panel.detail = Some(records[i].clone());
                    },
                    None => {},
                }
            },
            AppEvent::AgentDetailAvailable { id, record } => {
                self.agent_panel.view = AgentsView::Detail;
                self.agent_panel.detail_scroll = 0;
                self.agent_panel.next_step_cursor = 0;
                match record {
                    Some(rec) => {
                        self.agent_panel.visible = true;
                        self.agent_panel.detail = Some(rec.clone());
                    },
                    None => {
                        self.agent_panel.visible = false;
                        self.agent_panel.detail = None;
                        warn(&mut self.transcript.entries, text::cat3("No subagent matches '", id.as_str(), "'."));
                    },
                }
            },
            _ => {},
        }
        None
    }

    /// Events of a subagent merge, and questions to the user.
    #[verifier::spinoff_prover]
    fn apply_merge(&mut self, event: &AppEvent) -> (r: Option<String>)
        requires
            old(self).wf(),
            event is AgentMergeConflict || event is AgentConflictFileResolved
                || event is AgentMergeFinished || event is PermissionRequested
                || event is GuidedQuestionRequested,
        ensures
            final(self).wf(),
            applied(*old(self), *final(self), *event, r),
    {
        reveal(applied);
        match event {
            AppEvent::AgentMergeConflict { id, files } => {
                self.prompts.pending_agent_conflict = Some(
                    PendingAgentConflict {
                        id: id.clone(),
                        files: unresolved(files),
                        selected: 0,
                    },
                );
            },
            AppEvent::AgentConflictFileResolved { id, file, ours } => {
                resolve_conflict_file(
                    &mut self.prompts.pending_agent_conflict,
                    id.as_str(),
                    file.as_str(),
                    *ours,
                );
            },
            AppEvent::AgentMergeFinished { id, applied: done, message } => {
                let mine: bool = match &self.prompts.pending_agent_conflict {
                    Some(c) => same_text(c.id.as_str(), id.as_str()),
                    None => false,
                };
                if mine {
                    self.prompts.pending_agent_conflict = None;
                }
                if *done {
                    note(&mut self.transcript.entries, message.clone());
                } else {
                    warn(&mut self.transcript.entries, message.clone());
                }
            },
            AppEvent::PermissionRequested { summary, working_directory, scope_label } => {
                self.prompts.pending_permission = Some(
                    PermissionPrompt {
                        summary: summary.clone(),
                        working_directory: working_directory.clone(),
                        scope_label: scope_label.clone(),
                    },
                );
            },
            AppEvent::GuidedQuestionRequested(question) => {
                self.prompts.selected_guided_choice = find_recommended(question);
                self.prompts.pending_guided_question = Some(question.clone());
            },
            _ => {},
        }
        None
    }

    /// Events that end a run.
    #[verifier::spinoff_prover]
    fn apply_run_end(&mut self, event: &AppEvent) -> (r: Option<String>)
        requires
            old(self).wf(),
            event is AgentCompleted || event is AgentCancelled || event is AgentStopped,
        ensures
            final(self).wf(),
            applied(*old(self), *final(self), *event, r),
    {
        reveal(applied);
        match event {
            AppEvent::AgentCompleted {
                final_text,
                turns,
                tool_calls,
                failed_tool_calls,
                last_input_tokens,
                partial,
            } => {
                self.transcript.last_input_tokens = *last_input_tokens;
                self.transcript.activity = None;
                self.transcript.streaming_assistant = false;
                self.transcript.streaming_reasoning = false;
                let mut closing: Vec<String> = Vec::new();
                closing.push(self.transcript.run_visibility.completion_summary(*partial));
                closing.push(
                    notes::format_totals(*partial, *turns, *tool_calls, *failed_tool_calls),
                );
                assert(text::texts(closing@) =~= seq![closing@[0]@, closing@[1]@]);
                close_run(&mut self.transcript.entries, &mut self.transcript.file_change_buffer, final_text, closing);
                self.transcript.last_submitted_prompt = None;
                self.show_queued_update();
                self.transcript.queued.take()
            },
            AppEvent::AgentCancelled => {
                self.transcript.activity = None;
                self.transcript.streaming_assistant = false;
                self.transcript.streaming_reasoning = false;
                self.prompts.pending_permission = None;
                let mut closing: Vec<String> = Vec::new();
                closing.push(self.transcript.run_visibility.completion_summary(true));
                closing.push("Cancelled.".to_owned());
                assert(text::texts(closing@) =~= seq![closing@[0]@, closing@[1]@]);
                close_run(&mut self.transcript.entries, &mut self.transcript.file_change_buffer, &None, closing);
                self.transcript.last_submitted_prompt = None;
                self.show_queued_update();
                self.transcript.queued.take()
            },
            AppEvent::AgentStopped => {
                self.transcript.activity = None;
                self.transcript.streaming_assistant = false;
                self.transcript.streaming_reasoning = false;
                self.prompts.pending_permission = None;
                let closing: Vec<String> = Vec::new();
                assert(text::texts(closing@) =~= Seq::<Seq<char>>::empty());
                close_run(&mut self.transcript.entries, &mut self.transcript.file_change_buffer, &None, closing);
                self.transcript.last_submitted_prompt = None;
                self.show_queued_update();
                self.transcript.queued.take()
            },
            _ => None,
        }
    }

    /// Events of sessions.
    #[verifier::spinoff_prover]
    fn apply_session(&mut self, event: &AppEvent) -> (r: Option<String>)
        requires
            old(self).wf(),
            event is ContextCompacted || event is ContextCompactionFailed
                || event is SessionSwitched || event is SessionListAvailable
                || event is SessionResumeFailed,
        ensures
            final(self).wf(),
            applied(*old(self), *final(self), *event, r),
    {
        reveal(applied);
        match event {
            AppEvent::ContextCompacted { automatic } => {
                if *automatic {
                    note(
                    &mut self.transcript.entries,
                    "Context compacted automatically to stay within the model's context window.".to_owned(),
                    );
                } else {
                    note(&mut self.transcript.entries, "Context compacted.".to_owned());
                }
            },
            AppEvent::ContextCompactionFailed(message) => {
                warn(&mut self.transcript.entries, cat2("Could not compact context: ", message.as_str()));
            },
            AppEvent::SessionSwitched { id, name, transition, history } => {
                self.session.current_session_id = id.clone();
                self.session.current_session_name = name.clone();
                self.transcript.scroll = 0;
                self.transcript.streaming_assistant = false;
                self.transcript.streaming_reasoning = false;
                self.transcript.file_change_buffer = Vec::new();
                self.transcript.entries = replay(history);
                note(
                    &mut self.transcript.entries,
                    text::cat3(transition_word(*transition), " session: ", name.as_str()),
                );
                self.screen = Screen::Chat;
            },
            AppEvent::SessionListAvailable(summaries) => {
                self.pickers.sessions = summaries.clone();
                assert(self.pickers.sessions@ =~= summaries@);
                self.pickers.selected_session = 0;
            },
            AppEvent::SessionResumeFailed(message) => {
                report(&mut self.transcript.entries, cat2("Could not resume session: ", message.as_str()));
                self.screen = Screen::Chat;
            },
            _ => {},
        }
        None
    }

    /// Events of worktrees.
    #[verifier::spinoff_prover]
    fn apply_worktree(&mut self, event: &AppEvent) -> (r: Option<String>)
        requires
            old(self).wf(),
            event is WorktreeListAvailable || event is WorktreeCreated
                || event is WorktreeSwitched || event is WorktreeRemoved
                || event is WorktreeOperationFailed,
        ensures
            final(self).wf(),
            applied(*old(self), *final(self), *event, r),
    {
        reveal(applied);
        match event {
            AppEvent::WorktreeListAvailable(worktrees) => {
                note(&mut self.transcript.entries, notes::format_worktree_list(worktrees));
            },
            AppEvent::WorktreeCreated { path, branch } => {
                note(
                    &mut self.transcript.entries,
                    cat5(
                        "Created worktree at ",
                        path.as_str(),
                        " on branch '",
                        branch.as_str(),
                        "'.\nSwitched this session's working directory there.\nReturn to the original workspace with `/worktree switch` (or `/worktree list` to see every worktree).",
                    ),
                );
            },
            AppEvent::WorktreeSwitched { path, branch } => {
                note(
                    &mut self.transcript.entries,
                    cat5(
                        "Switched this session's working directory to ",
                        path.as_str(),
                        " (branch '",
                        branch.as_str(),
                        "').",
                    ),
                );
            },
            AppEvent::WorktreeRemoved { path, switched_to } => {
                note(&mut self.transcript.entries, notes::format_worktree_removed(path.as_str(), switched_to));
            },
            AppEvent::WorktreeOperationFailed(message) => {
                report(&mut self.transcript.entries, cat2("Worktree: ", message.as_str()));
            },
            _ => {},
        }
        None
    }

    /// Events of undo and redo.
    #[verifier::spinoff_prover]
    fn apply_undo(&mut self, event: &AppEvent) -> (r: Option<String>)
        requires
            old(self).wf(),
            event is UndoApplied || event is UndoConflict || event is UndoUnavailable
                || event is UndoStackChanged || event is UndoOperationFailed,
        ensures
            final(self).wf(),
            applied(*old(self), *final(self), *event, r),
    {
        reveal(applied);
        match event {
            AppEvent::UndoApplied { direction, transactions } => {
                note(
                    &mut self.transcript.entries,
                    notes::format_undo_summary(notes::done_word(direction.as_str()), transactions),
                );
            },
            AppEvent::UndoConflict { direction, requested, applied: done, conflicting_files } => {
                note_conflict(&mut self.transcript.entries, direction.as_str(), done, conflicting_files);
                self.prompts.pending_undo_conflict = Some(
                    stop_at_conflict(direction, *requested, done, conflicting_files),
                );
            },
            AppEvent::UndoUnavailable { direction } => {
                if same_text(direction.as_str(), "redo") {
                    note(&mut self.transcript.entries, "Nothing to redo.".to_owned());
                } else {
                    note(&mut self.transcript.entries, "Nothing to undo.".to_owned());
                }
            },
            AppEvent::UndoStackChanged { undo_count, redo_count } => {
                self.undo_count = *undo_count;
                self.redo_count = *redo_count;
            },
            AppEvent::UndoOperationFailed { direction, message } => {
                report(&mut self.transcript.entries, 
                    text::cat3(
                        notes::action_word(direction.as_str()),
                        ": ",
                        message.as_str(),
                    ),
                );
            },
            _ => {},
        }
        None
    }

    /// Applies a normalized application event to the render state.
    ///
    /// Returns a queued prompt to submit, if the run that just ended freed one up.
    pub fn apply(&mut self, event: &AppEvent) -> (r: Option<String>)
        requires
            old(self).wf(),
            event matches AppEvent::ToolOutputChunk { id, chunk } ==> accepts_chunk(
                old(self).transcript.entries@,
                id@,
                chunk@,
            ),
            binds_once_at_most(*event),
        ensures
            final(self).wf(),
            applied(*old(self), *final(self), *event, r),
    {
        match event {
            AppEvent::BootStarted { .. }
            | AppEvent::BootCompleted { .. }
            | AppEvent::PreferencesLoaded { .. }
            | AppEvent::ProjectContextAvailable { .. }
            | AppEvent::CustomCommandsAvailable { .. }
            | AppEvent::SkillsAvailable { .. }
            | AppEvent::McpServersAvailable { .. }
            | AppEvent::McpAuthorizationUrlReady { .. }
            | AppEvent::TerminalResized { .. } => self.apply_project(event),
            AppEvent::CredentialRequired { .. }
            | AppEvent::CredentialValidationStarted { .. }
            | AppEvent::CredentialValidationFailed { .. }
            | AppEvent::ModelsAvailable { .. }
            | AppEvent::ModelSelected { .. }
            | AppEvent::ReasoningEffortChanged { .. } => self.apply_setup(event),
            AppEvent::AssistantTextDelta { .. }
            | AppEvent::AssistantReasoningDelta { .. }
            | AppEvent::DebugStateUpdated { .. }
            | AppEvent::DebugInvestigationReady { .. }
            | AppEvent::ProviderFailed { .. }
            | AppEvent::BlockingError { .. } => self.apply_stream(event),
            AppEvent::UpdateAvailable { .. }
            | AppEvent::UpdateProgress { .. }
            | AppEvent::UpdateReady { .. }
            | AppEvent::UpdateFailed { .. }
            | AppEvent::ExitForUpdate { .. } => self.apply_update(event),
            AppEvent::AgentStateChanged { .. }
            | AppEvent::ToolActivity { .. }
            | AppEvent::ToolOutputChunk { .. }
            | AppEvent::FileChanged { .. }
            | AppEvent::AgentWarning { .. }
            | AppEvent::AgentNotice { .. }
            | AppEvent::AgentProgress { .. } => self.apply_activity(event),
            AppEvent::AgentDiffReady { .. }
            | AppEvent::AgentCleanupWarning { .. }
            | AppEvent::AgentListAvailable { .. }
            | AppEvent::AgentDetailAvailable { .. } => self.apply_subagent(event),
            AppEvent::AgentMergeConflict { .. }
            | AppEvent::AgentConflictFileResolved { .. }
            | AppEvent::AgentMergeFinished { .. }
            | AppEvent::PermissionRequested { .. }
            | AppEvent::GuidedQuestionRequested { .. } => self.apply_merge(event),
            AppEvent::AgentCompleted { .. }
            | AppEvent::AgentCancelled { .. }
            | AppEvent::AgentStopped { .. } => self.apply_run_end(event),
            AppEvent::ContextCompacted { .. }
            | AppEvent::ContextCompactionFailed { .. }
            | AppEvent::SessionSwitched { .. }
            | AppEvent::SessionListAvailable { .. }
            | AppEvent::SessionResumeFailed { .. } => self.apply_session(event),
            AppEvent::WorktreeListAvailable { .. }
            | AppEvent::WorktreeCreated { .. }
            | AppEvent::WorktreeSwitched { .. }
            | AppEvent::WorktreeRemoved { .. }
            | AppEvent::WorktreeOperationFailed { .. } => self.apply_worktree(event),
            AppEvent::UndoApplied { .. }
            | AppEvent::UndoConflict { .. }
            | AppEvent::UndoUnavailable { .. }
            | AppEvent::UndoStackChanged { .. }
            | AppEvent::UndoOperationFailed { .. } => self.apply_undo(event),
        }
    }
}

// ---------------------------------------------------------------------------------------------
// Laws
// ---------------------------------------------------------------------------------------------

proof fn lemma_last_call(before: Seq<ChatEntry>, after: Seq<ChatEntry>, id: Seq<char>)
    requires
        before.len() > 0 ==> entry::is_tool_call(before.last(), id),
        forall|i: int| 0 <= i < after.len() ==> !entry::is_tool_call(#[trigger] after[i], id),
    ensures
        entry::last_call(before + after, id) == before.len() - 1,
    decreases after.len(),
{
    let all = before + after;
    if after.len() == 0 {
        assert(all =~= before);
    } else {
        assert(all.last() == after[after.len() - 1]);
        assert(all.drop_last() =~= before + after.drop_last());
        lemma_last_call(before, after.drop_last(), id);
    }
}

/// What is told of a call changes its own entry, the last one with its id, and leaves every other
/// alone: the status and the detail are the new ones, the output stays, and so does the name where
/// none is given. A call of which nothing was told yet gets an entry behind all others.
pub proof fn law_a_call_is_told_of_in_one_entry(
    before: Seq<ChatEntry>,
    own: ChatEntry,
    after: Seq<ChatEntry>,
    post: Seq<ChatEntry>,
    id: Seq<char>,
    name: Seq<char>,
    status: ToolActivityStatus,
    detail: Seq<char>,
)
    requires
        entry::is_tool_call(own, id),
        forall|i: int| 0 <= i < after.len() ==> !entry::is_tool_call(#[trigger] after[i], id),
    ensures
        tool_activity(before.push(own) + after, post, id, name, status, detail) ==> {
            let n = before.len() as int;
            &&& post.len() == n + 1 + after.len()
            &&& post.take(n) == before
            &&& post.skip(n + 1) == after
            &&& output_of(post[n]) == output_of(own)
            &&& own matches ChatEntry::Tool { name: old_name, .. }
            &&& post[n] matches ChatEntry::Tool { id: i, name: m, status: s, detail: d, .. }
            &&& i@ == id
            &&& m@ == (if name.len() == 0 {
                old_name@
            } else {
                name
            })
            &&& s == status
            &&& d@ == detail
        },
        tool_activity(after, post, id, name, status, detail) ==> {
            &&& post.len() == after.len() + 1
            &&& post.drop_last() == after
            &&& output_of(post.last()).len() == 0
            &&& post.last() matches ChatEntry::Tool { id: i, name: m, status: s, detail: d, .. }
            &&& i@ == id
            &&& m@ == name
            &&& s == status
            &&& d@ == detail
        },
{
    let n = before.len() as int;
    let pre = before.push(own) + after;
    lemma_last_call(before.push(own), after, id);
    let none = Seq::<ChatEntry>::empty();
    lemma_last_call(none, after, id);
    assert(none + after =~= after);
    if tool_activity(pre, post, id, name, status, detail) {
        assert(pre[n] == own);
        assert(post.take(n) =~= before);
        assert(post.skip(n + 1) =~= after);
    }
    if tool_activity(after, post, id, name, status, detail) {
        assert(post.drop_last() =~= after);
    }
}

/// What is cut off a text at a number of bytes is a beginning of it that takes as many.
pub proof fn lemma_cut_is_a_beginning(s: Seq<char>, n: nat)
    ensures
        text::byte_cut(s, n) matches Some(kept) ==> kept.is_prefix_of(s) && text::byte_len(kept)
            == n,
    decreases s.len(),
{
    if n > 0 && s.len() > 0 && text::width(s[0]) <= n {
        let rest = (n - text::width(s[0])) as nat;
        lemma_cut_is_a_beginning(s.skip(1), rest);
        match text::byte_cut(s.skip(1), rest) {
            Some(kept) => {
                let whole = seq![s[0]] + kept;
                assert(whole.skip(1) =~= kept);
                assert(whole =~= s.subrange(0, whole.len() as int)) by {
                    assert forall|i: int| 0 <= i < whole.len() implies whole[i] == s[i] by {
                        if i > 0 {
                            assert(kept[i - 1] == s.skip(1).subrange(0, kept.len() as int)[i - 1]);
                        }
                    }
                }
            },
            None => {},
        }
    } else {
        assert(Seq::<char>::empty() =~= s.subrange(0, 0));
    }
}

/// Chunks of output are put together, one behind the other, up to 4000 bytes. A chunk that goes beyond is
/// cut there and what is left out is marked; after that nothing is added.
pub proof fn law_chunks_of_output_are_put_together(output: Seq<char>, chunk: Seq<char>)
    ensures
        text::byte_len(output) < 4000 && text::byte_len(output + chunk) <= 4000 ==> output_after(
            output,
            chunk,
        ) == Some(output + chunk),
        text::byte_len(output) < 4000 && text::byte_len(output + chunk) > 4000 ==> (output_after(
            output,
            chunk,
        ) matches Some(kept) ==> exists|head: Seq<char>|
            text::byte_len(head) == 4000 && #[trigger] head.is_prefix_of(output + chunk) && kept
                == head + "\n… output truncated …"@),
        text::byte_len(output) >= 4000 ==> output_after(output, chunk) == Some(output),
{
    let whole = output + chunk;
    lemma_cut_is_a_beginning(whole, MAX_TOOL_OUTPUT_BYTES as nat);
}

/// A stored conversation is shown again in its order: what the user said, and what was answered in
/// words. Nothing else of it is shown.
pub proof fn law_a_conversation_is_shown_in_order(
    a: Seq<ChatMessage>,
    b: Seq<ChatMessage>,
    m: ChatMessage,
)
    ensures
        replayed(a + b) == replayed(a) + replayed(b),
        replayed(seq![m]) == match m {
            ChatMessage::User(t) => seq![ChatEntry::User(t)],
            ChatMessage::Assistant { text: Some(t) } => if t@.len() > 0 {
                seq![ChatEntry::Assistant(t)]
            } else {
                Seq::empty()
            },
            _ => Seq::empty(),
        },
    decreases b.len(),
{
    assert(seq![m].drop_last() =~= Seq::empty());
    reveal_with_fuel(replayed, 2);
    assert(replayed(Seq::empty()) =~= Seq::empty());
    if b.len() == 0 {
        assert(a + b =~= a);
        assert(replayed(a) + replayed(b) =~= replayed(a));
    } else {
        assert((a + b).drop_last() =~= a + b.drop_last());
        assert((a + b).last() == b.last());
        law_a_conversation_is_shown_in_order(a, b.drop_last(), m);
        assert(replayed(a + b) =~= replayed(a) + replayed(b));
    }
}

proof fn lemma_recommended(question: GuidedQuestion, from: int, at: int)
    requires
        0 <= from <= at <= question.choices@.len(),
        forall|j: int| from <= j < at ==> !(#[trigger] question.choices@[j]).recommended,
        at < question.choices@.len() ==> question.choices@[at].recommended,
    ensures
        recommended_row(question, from) == (if at < question.choices@.len() {
            at
        } else {
            0
        }),
    decreases at - from,
{
    if from < at {
        lemma_recommended(question, from + 1, at);
    }
}

/// A question is put with the first recommended answer selected, and with the first one where none is
/// recommended.
pub proof fn law_a_recommended_answer_is_selected(question: GuidedQuestion, at: int)
    requires
        0 <= at <= question.choices@.len(),
        forall|j: int| 0 <= j < at ==> !(#[trigger] question.choices@[j]).recommended,
        at < question.choices@.len() ==> question.choices@[at].recommended,
    ensures
        recommended_row(question, 0) == (if at < question.choices@.len() {
            at
        } else {
            0
        }),
{
    lemma_recommended(question, 0, at);
}

proof fn lemma_first_record(records: Seq<SubagentRecord>, id: Seq<char>, from: int)
    requires
        0 <= from <= records.len(),
    ensures
        ({
            let at = first_record(records, id, from);
            &&& at < 0 ==> forall|j: int|
                from <= j < records.len() ==> (#[trigger] records[j]).id@ != id
            &&& at >= 0 ==> from <= at < records.len() && records[at].id@ == id
        }),
    decreases records.len() - from,
{
    if from < records.len() && records[from].id@ != id {
        lemma_first_record(records, id, from + 1);
    }
}

/// After a new list of subagents the selection is on one of them, the same row where there still is
/// one, and the open one shows what the list says of it.
pub proof fn law_an_open_subagent_keeps_in_step(
    pre: AppState,
    post: AppState,
    records: Seq<SubagentRecord>,
)
    requires
        lists_agents(pre, post, records),
    ensures
        records.len() > 0 ==> post.agent_panel.selected < records.len(),
        pre.agent_panel.selected < records.len() ==> post.agent_panel.selected
            == pre.agent_panel.selected,
        pre.agent_panel.selected >= records.len() > 0 ==> post.agent_panel.selected
            == records.len() - 1,
        pre.agent_panel.detail matches Some(open) ==> ({
            let listed = exists|j: int|
                0 <= j < records.len() && (#[trigger] records[j]).id@ == open.id@;
            if listed {
                post.agent_panel.detail matches Some(d) && exists|j: int|
                    0 <= j < records.len() && (#[trigger] records[j]).id@ == open.id@
                        && protocol::same_record(d, records[j])
            } else {
                post.agent_panel.detail == pre.agent_panel.detail
            }
        }),
{
    if pre.agent_panel.detail is Some {
        lemma_first_record(records, pre.agent_panel.detail->Some_0.id@, 0);
    }
}

proof fn lemma_first_file(files: Seq<ConflictFileState>, path: Seq<char>, from: int, at: int)
    requires
        0 <= from <= at < files.len(),
        files[at].path@ == path,
        forall|j: int| from <= j < at ==> (#[trigger] files[j]).path@ != path,
    ensures
        first_file(files, path, from) == at,
    decreases at - from,
{
    if from < at {
        lemma_first_file(files, path, from + 1, at);
    }
}

/// A resolution is recorded on the file that it names, for the side that was taken, and on no other.
/// One for another merge changes nothing.
pub proof fn law_a_resolution_is_recorded_on_its_file(
    pre: PendingAgentConflict,
    post: Option<PendingAgentConflict>,
    id: Seq<char>,
    at: int,
    ours: bool,
)
    requires
        0 <= at < pre.files@.len(),
        forall|j: int| 0 <= j < at ==> (#[trigger] pre.files@[j]).path@ != pre.files@[at].path@,
        records_resolution(Some(pre), post, id, pre.files@[at].path@, ours),
    ensures
        pre.id@ != id ==> post == Some(pre),
        pre.id@ == id ==> (post matches Some(after) && after.files@.len() == pre.files@.len()
            && after.files@[at].path == pre.files@[at].path && after.files@[at].resolution == Some(
            if ours {
                ConflictResolution::Ours
            } else {
                ConflictResolution::Theirs
            },
        ) && forall|j: int|
            0 <= j < pre.files@.len() && j != at ==> #[trigger] after.files@[j] == pre.files@[j]),
{
    lemma_first_file(pre.files@, pre.files@[at].path@, 0, at);
}

/// An event that brings a message adds one entry with it behind all others, of the kind that fits,
/// and changes no other entry. No prompt is freed by it.
pub proof fn law_a_message_becomes_one_entry(
    pre: AppState,
    post: AppState,
    message: String,
    level: String,
    r: Option<String>,
)
    ensures
        applied(pre, post, AppEvent::AgentWarning(message), r) ==> r is None && entry::adds_warning(
            pre.transcript.entries@,
            post.transcript.entries@,
            message@,
        ) && post.transcript.activity == pre.transcript.activity,
        applied(pre, post, AppEvent::AgentNotice(message), r) ==> r is None && entry::adds_info(
            pre.transcript.entries@,
            post.transcript.entries@,
            message@,
        ),
        applied(pre, post, AppEvent::ProviderFailed(message), r) ==> entry::adds_error(
            pre.transcript.entries@,
            post.transcript.entries@,
            message@,
        ) && post.transcript.activity is None && r == pre.transcript.queued
            && post.transcript.queued is None && post.transcript.last_failed_prompt
            == pre.transcript.last_submitted_prompt,
        applied(pre, post, AppEvent::BlockingError(message), r) ==> post.prompts.blocking_error
            == Some(message) && post.transcript.activity is None && post.transcript.entries
            == pre.transcript.entries,
        applied(pre, post, AppEvent::ModelSelected(message), r) ==> post.pickers.current_model
            == Some(message) && post.screen == Screen::Chat && post.transcript.entries
            == pre.transcript.entries,
        applied(pre, post, AppEvent::CredentialValidationFailed(message), r) ==> post.screen
            == Screen::Onboarding && post.status == Some(message),
        applied(
            pre,
            post,
            AppEvent::WorktreeCreated { path: message, branch: level },
            r,
        ) ==> post.transcript.entries@.len() == pre.transcript.entries@.len() + 1
            && post.transcript.entries@.last() is Info,
{
    reveal(applied);
}

/// What can be undone and redone is counted as the last change left it, and an update on its way keeps
/// its versions through its stages.
pub proof fn law_an_update_keeps_its_versions(
    pre: AppState,
    post: AppState,
    prompt: UpdatePrompt,
    percent: Option<u8>,
    message: String,
    undo_count: usize,
    redo_count: usize,
    r: Option<String>,
)
    ensures
        applied(pre, post, AppEvent::UndoStackChanged { undo_count, redo_count }, r)
            ==> post.undo_count == undo_count && post.redo_count == redo_count && post.transcript
            == pre.transcript,
        pre.updates.pending_update == Some(prompt) && applied(
            pre,
            post,
            AppEvent::UpdateProgress { percent, message },
            r,
        ) ==> (post.updates.pending_update matches Some(after) && after.version == prompt.version
            && after.current_version == prompt.current_version && after.notes == prompt.notes
            && after.stage == (UpdateStage::Downloading { percent, message })),
        pre.updates.pending_update == Some(prompt) && applied(
            pre,
            post,
            AppEvent::UpdateReady { message },
            r,
        ) ==> (post.updates.pending_update matches Some(after) && after.version == prompt.version
            && after.stage == (UpdateStage::Completed { message })),
        pre.updates.pending_update == Some(prompt) && applied(
            pre,
            post,
            AppEvent::UpdateFailed(message),
            r,
        ) ==> (post.updates.pending_update matches Some(after) && after.stage
            == UpdateStage::Failed(message)) && post.transcript == pre.transcript,
{
    reveal(applied);
}

/// Events that bring something new to choose from or to decide on put just that before the user, and
/// a session that is switched to is shown from its own beginning.
pub proof fn law_events_bring_what_they_carry(
    pre: AppState,
    post: AppState,
    a: String,
    b: String,
    d: String,
    models: Vec<String>,
    transition: SessionTransition,
    history: Vec<ChatMessage>,
    r: Option<String>,
)
    ensures
        applied(pre, post, AppEvent::ModelsAvailable(models), r) ==> post.pickers.models@ == models@
            && post.pickers.selected_model == 0 && post.screen == Screen::ModelPicker,
        applied(
            pre,
            post,
            AppEvent::PermissionRequested { summary: a, working_directory: b, scope_label: d },
            r,
        ) ==> (post.prompts.pending_permission matches Some(p) && p.summary == a
            && p.working_directory == b && p.scope_label == d) && post.transcript == pre.transcript,
        applied(pre, post, AppEvent::AgentDiffReady { id: a, diff: b }, r)
            ==> post.prompts.pending_agent_confirm == Some(
            PendingAgentConfirm::Apply { id: a, diff: b },
        ),
        applied(pre, post, AppEvent::AgentCleanupWarning { id: a, message: b }, r)
            ==> post.prompts.pending_agent_confirm == Some(
            PendingAgentConfirm::Cleanup { id: a, message: b },
        ),
        applied(pre, post, AppEvent::SessionSwitched { id: a, name: b, transition, history }, r) ==> {
            &&& post.session.current_session_id == a
            &&& post.session.current_session_name == b
            &&& post.screen == Screen::Chat
            &&& post.transcript.scroll == 0
            &&& post.transcript.entries@.len() == replayed(history@).len() + 1
            &&& post.transcript.entries@.drop_last() == replayed(history@)
            &&& post.transcript.entries@.last() is Info
        },
        applied(pre, post, AppEvent::DebugInvestigationReady(a), r) ==> r == Some(a) && post == pre,
        applied(pre, post, AppEvent::CredentialRequired, r) ==> post.screen == Screen::Onboarding,
        applied(pre, post, AppEvent::BootCompleted, r) ==> post.screen == Screen::Chat,
        applied(pre, post, AppEvent::ExitForUpdate, r) ==> post.updates.exit_for_update,
{
    reveal(applied);
    if applied(pre, post, AppEvent::SessionSwitched { id: a, name: b, transition, history }, r) {
        assert(post.transcript.entries@.drop_last() =~= replayed(history@));
    }
}

} // verus!
