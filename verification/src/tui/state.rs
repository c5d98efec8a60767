//! The renderable interface state.

use vstd::prelude::*;

use crate::protocol;
use crate::protocol::{
    AgentActivityState, ConflictingFile, CustomCommand, DebugInvestigation, GuidedQuestion,
    McpServerStatus, PermissionMode, PersonalityName, Preferences, SessionSummary, SkillSummary,
    SubagentRecord, ThemeName, UndoTransactionResult,
};
use crate::text;
use crate::text::same_text;
use crate::tui::entry;
use crate::tui::entry::ChatEntry;
use crate::tui::preferences::Catalog;
use crate::tui::run::RunVisibility;
use crate::tui::wrap::HistoryWrapCache;

verus! {

/// Rows that one scroll step moves the transcript by.
pub const SCROLL_STEP: usize = 5;

/// Bytes of output kept per tool call.
pub const MAX_TOOL_OUTPUT_BYTES: usize = 4000;

/// Prompts remembered for Up/Down recall.
pub const MAX_PROMPT_HISTORY: usize = 200;

/// How many reasoning-effort levels there are.
pub const EFFORT_COUNT: usize = 4;

/// How many rows the settings menu has.
pub const SETTINGS_COUNT: usize = 3;

/// The active top-level interface screen.
#[derive(Clone, Copy, Debug, PartialEq, Eq, Structural)]
pub enum Screen {
    /// Startup state before the application is ready for input.
    Boot,
    /// Credential onboarding before remote provider work starts.
    Onboarding,
    /// Authenticated models waiting for a user selection.
    ModelPicker,
    /// Menu to change the API key, model, or reasoning effort from the chat screen.
    Settings,
    /// Reasoning-effort level selection.
    EffortPicker,
    /// Saved-session picker, opened by `/resume`.
    SessionPicker,
    /// Main conversational interface.
    Chat,
}

/// A pending permission confirmation shown as a modal.
#[derive(Clone, Debug, PartialEq, Eq)]
pub struct PermissionPrompt {
    /// Short summary of the requested action.
    pub summary: String,
    /// Working directory the action would run or write in.
    pub working_directory: String,
    /// The action category affected by "allow always".
    pub scope_label: String,
}

/// An `/undo` or `/redo` that stopped because a transaction's files no longer match, awaiting
/// the user's choice.
#[derive(Clone, Debug, PartialEq, Eq)]
pub struct PendingUndoConflict {
    /// `"undo"` or `"redo"`, echoed back on a forced retry.
    pub direction: String,
    /// The transaction count originally requested, echoed back on a forced retry.
    pub count: usize,
    /// Transactions that already applied before the conflicting one was reached.
    pub applied: Vec<UndoTransactionResult>,
    /// Every file that blocked the conflicting transaction.
    pub conflicting_files: Vec<ConflictingFile>,
    /// Whether the diff for `conflicting_files` is currently expanded.
    pub show_diff: bool,
}

/// An `/agent apply` or `/agent cleanup` awaiting explicit Y/N confirmation.
#[derive(Clone, Debug, PartialEq, Eq)]
pub enum PendingAgentConfirm {
    /// Merge the subagent's worktree branch; `diff` is shown for review.
    Apply { id: String, diff: String },
    /// Remove the subagent's worktree and metadata; `message` names what will be discarded.
    Cleanup { id: String, message: String },
}

/// Which side of a merge conflict to keep for one file.
#[derive(Clone, Copy, Debug, PartialEq, Eq, Structural)]
pub enum ConflictResolution {
    /// Keep the main workspace's version.
    Ours,
    /// Keep the subagent's version.
    Theirs,
}

/// One conflicting file in an in-progress `/agent apply` merge, and its resolution so far.
#[derive(Clone, Debug, PartialEq, Eq)]
pub struct ConflictFileState {
    /// Path relative to the repository root.
    pub path: String,
    /// `None` until the user picks a side for this file.
    pub resolution: Option<ConflictResolution>,
}

/// An in-progress `/agent apply` merge conflict, driving the guided resolver popup.
#[derive(Clone, Debug, PartialEq, Eq)]
pub struct PendingAgentConflict {
    /// The subagent whose merge is in progress.
    pub id: String,
    /// Every conflicting file and its resolution so far.
    pub files: Vec<ConflictFileState>,
    /// Selected row in the file list.
    pub selected: usize,
}

/// Which screen the update popup is currently showing.
#[derive(Clone, Debug, PartialEq, Eq)]
pub enum UpdateStage {
    /// "New update" with the version change and Yes/No buttons.
    Prompt,
    /// Downloading and verifying the update, with a percentage when known.
    Downloading { percent: Option<u8>, message: String },
    /// The update is staged and ready; a Close button finishes the install and restarts.
    Completed { message: String },
    /// Something went wrong; a Close button dismisses the popup.
    Failed(String),
}

/// A user-approved update prompt, delayed until it cannot interrupt work, and the screen its
/// popup is currently showing.
#[derive(Clone, Debug, PartialEq, Eq)]
pub struct UpdatePrompt {
    pub current_version: String,
    pub version: String,
    pub notes: String,
    pub stage: UpdateStage,
}

/// Which screen the `/skills` popup is currently showing.
#[derive(Clone, Copy, Debug, PartialEq, Eq, Structural)]
pub enum SkillsView {
    /// The "Choose an action" menu: list skills, or enable/disable them.
    Menu,
    /// A read-only, spaced-out listing of every discovered skill.
    List,
    /// A checkbox list for toggling skills on or off for this project.
    EnableDisable,
}

/// Which screen the `/mcp` popup is currently showing.
#[derive(Clone, Copy, Debug, PartialEq, Eq, Structural)]
pub enum McpView {
    /// The "Choose an action" menu.
    Menu,
    /// Every configured server and its live connection status.
    ServerList,
    /// The tools discovered from one connected server.
    ServerDetail,
    /// The guided "Add server" wizard.
    AddServer,
}

/// Which screen the `/agents` popup is currently showing.
#[derive(Clone, Copy, Debug, PartialEq, Eq, Structural)]
pub enum AgentsView {
    /// Every known subagent.
    List,
    /// One subagent's full status, messages, and result.
    Detail,
}

/// One step of the `/mcp` "Add server" wizard, in order.
#[derive(Clone, Copy, Debug, PartialEq, Eq, Structural)]
pub enum McpAddStep {
    Name,
    /// Choosing stdio vs. streamable HTTP.
    TransportChoice,
    /// Stdio only: the command line, split on white space.
    CommandLine,
    /// HTTP only: the server's endpoint URL.
    Url,
    /// Choosing none vs. a static API key.
    AuthChoice,
    /// Only reached when the API-key auth choice was made.
    ApiKey,
}

/// One tab of the `/help` popup.
#[derive(Clone, Copy, Debug, PartialEq, Eq, Structural)]
pub enum HelpTab {
    General,
    Commands,
    Custom,
}

impl HelpTab {
    /// The tab's place in display order.
    pub open spec fn place(self) -> nat {
        match self {
            HelpTab::General => 0,
            HelpTab::Commands => 1,
            HelpTab::Custom => 2,
        }
    }

    /// The title shown for the tab.
    pub fn title(self) -> (r: &'static str)
        ensures
            r@ == (match self {
                HelpTab::General => "General"@,
                HelpTab::Commands => "Commands"@,
                HelpTab::Custom => "Custom commands"@,
            }),
    {
        match self {
            HelpTab::General => "General",
            HelpTab::Commands => "Commands",
            HelpTab::Custom => "Custom commands",
        }
    }

    /// The tab's place in display order.
    pub fn index(self) -> (r: usize)
        ensures
            r == self.place(),
    {
        match self {
            HelpTab::General => 0,
            HelpTab::Commands => 1,
            HelpTab::Custom => 2,
        }
    }

    /// The tab to the right, or the first after the last.
    pub fn next(self) -> (r: HelpTab)
        ensures
            r.place() == (self.place() + 1) % 3,
    {
        match self {
            HelpTab::General => HelpTab::Commands,
            HelpTab::Commands => HelpTab::Custom,
            HelpTab::Custom => HelpTab::General,
        }
    }

    /// The tab to the left, or the last before the first.
    pub fn previous(self) -> (r: HelpTab)
        ensures
            r.place() == (self.place() + 2) % 3,
    {
        match self {
            HelpTab::General => HelpTab::Custom,
            HelpTab::Commands => HelpTab::General,
            HelpTab::Custom => HelpTab::Commands,
        }
    }
}

/// A tab is known by its place.
pub proof fn law_help_tabs_are_their_places(a: HelpTab, b: HelpTab)
    ensures
        a.place() == b.place() ==> a == b,
        a.place() < 3,
{
}

/// One endpoint of a mouse selection: an index into the wrapped transcript and a character
/// column within that row.
#[derive(Clone, Copy, Debug, PartialEq, Eq, Structural)]
pub struct SelectionPoint {
    pub line: usize,
    pub col: usize,
}

/// A mouse text selection, anchored where the drag started and extended to the current cursor.
#[derive(Clone, Copy, Debug, PartialEq, Eq, Structural)]
pub struct Selection {
    pub anchor: SelectionPoint,
    pub cursor: SelectionPoint,
}

/// The chat composer: its text, its cursor and the prompts it can recall.
#[derive(Clone, Debug, PartialEq, Eq)]
pub struct Composer {
    pub chat_input: String,
    /// Character index (not byte index) of the composer's insertion point.
    pub cursor: usize,
    pub suggestion_selected: usize,
    /// Previously submitted prompts, oldest first, for Up/Down recall.
    pub prompt_history: Vec<String>,
    /// Index into `prompt_history` currently shown in the composer, while browsing history.
    pub history_cursor: Option<usize>,
    /// The composer's text right before history browsing started.
    pub draft_before_history: Option<String>,
}

/// The onboarding input and the model, effort and session pickers.
#[derive(Clone, Debug, PartialEq, Eq)]
pub struct Pickers {
    pub credential_input: String,
    pub models: Vec<String>,
    pub selected_model: usize,
    pub current_model: Option<String>,
    pub settings_selected: usize,
    pub selected_effort: usize,
    pub current_effort: Option<String>,
    pub sessions: Vec<SessionSummary>,
    pub selected_session: usize,
    /// Set while `/model` (not `/settings`) is driving the model picker.
    pub model_flow_pending_effort: bool,
    /// The model chosen by an in-progress `/model` flow.
    pub pending_model: Option<String>,
}

/// The prompts that stand over the chat screen and take the keys.
#[derive(Clone, Debug, PartialEq, Eq)]
pub struct Prompts {
    pub pending_permission: Option<PermissionPrompt>,
    /// A structured choice requested by the model; it pauses the active run until answered.
    pub pending_guided_question: Option<GuidedQuestion>,
    pub selected_guided_choice: usize,
    /// A `/worktree remove <target>` awaiting explicit Y/N confirmation before it is sent.
    pub pending_worktree_removal: Option<String>,
    /// An `/agent apply` or `/agent cleanup` awaiting explicit Y/N confirmation.
    pub pending_agent_confirm: Option<PendingAgentConfirm>,
    /// An `/agent apply` that hit a merge conflict, awaiting the user's per-file choices.
    pub pending_agent_conflict: Option<PendingAgentConflict>,
    /// An `/undo` or `/redo` that stopped on a conflicting file.
    pub pending_undo_conflict: Option<PendingUndoConflict>,
    pub blocking_error: Option<String>,
}

/// The update popup and what waits to be shown in it.
#[derive(Clone, Debug, PartialEq, Eq)]
pub struct Updates {
    pub pending_update: Option<UpdatePrompt>,
    /// Which button is highlighted on the update prompt: `false` is Yes, `true` is No.
    pub update_selected_no: bool,
    pub queued_update: Option<UpdatePrompt>,
    pub exit_for_update: bool,
}

/// The `/help` popup.
#[derive(Clone, Debug, PartialEq, Eq)]
pub struct HelpPanel {
    pub visible: bool,
    pub tab: HelpTab,
    /// Lines scrolled down from the top of the current `/help` tab's content.
    pub scroll: u16,
}

/// The `/skills` popup.
#[derive(Clone, Debug, PartialEq, Eq)]
pub struct SkillPanel {
    pub visible: bool,
    pub view: SkillsView,
    /// Selected row within the current `/skills` screen (menu action, or skill index).
    pub selected: usize,
    /// Lines scrolled down from the top of the `/skills` list.
    pub list_scroll: u16,
    /// Global and project skills discovered at boot.
    pub skills: Vec<SkillSummary>,
}

/// The `/mcp` popup and its "Add server" wizard.
#[derive(Clone, Debug, PartialEq, Eq)]
pub struct McpPanel {
    pub visible: bool,
    pub view: McpView,
    /// Selected row within the current `/mcp` screen (menu action, or server index).
    pub selected: usize,
    /// Configured MCP servers and their live connection status.
    pub servers: Vec<McpServerStatus>,
    /// Lines scrolled down from the top of the `/mcp` server detail screen.
    pub detail_scroll: u16,
    /// Current step of the `/mcp` "Add server" wizard.
    pub add_step: McpAddStep,
    /// Wizard draft: server name.
    pub add_name: String,
    /// Wizard draft: `true` for HTTP, `false` for stdio.
    pub add_http: bool,
    /// Wizard draft: stdio command line.
    pub add_command_line: String,
    /// Wizard draft: HTTP endpoint URL.
    pub add_url: String,
    /// Wizard draft: `true` for a static API key, `false` for no authentication.
    pub add_api_key_auth: bool,
    /// Wizard draft: the API key itself, shown masked.
    pub add_api_key: String,
}

/// The `/agents` popup.
#[derive(Clone, Debug, PartialEq, Eq)]
pub struct AgentPanel {
    pub visible: bool,
    pub view: AgentsView,
    /// Selected row within the `/agents` list screen.
    pub selected: usize,
    /// Every subagent this session knows about.
    pub agents: Vec<SubagentRecord>,
    /// Lines scrolled down from the top of the `/agents` detail screen.
    pub detail_scroll: u16,
    /// The subagent shown by the `/agents` detail screen.
    pub detail: Option<SubagentRecord>,
    /// Which next step `n` prefills next; cycles.
    pub next_step_cursor: usize,
}

/// The chat transcript and the run that writes to it.
#[derive(Clone, Debug, PartialEq, Eq)]
pub struct Transcript {
    pub selection: Option<Selection>,
    pub entries: Vec<ChatEntry>,
    pub streaming_assistant: bool,
    pub streaming_reasoning: bool,
    pub file_change_buffer: Vec<String>,
    pub activity: Option<AgentActivityState>,
    /// Live, user-facing account of the current run's phase, impact, and validation state.
    pub run_visibility: RunVisibility,
    /// Input tokens reported for the last completed run's last turn.
    pub last_input_tokens: Option<u64>,
    pub scroll: usize,
    pub last_failed_prompt: Option<String>,
    pub last_submitted_prompt: Option<String>,
    pub queued: Option<String>,
}

/// The active session.
#[derive(Clone, Debug, PartialEq, Eq)]
pub struct SessionInfo {
    /// The version of the product.
    pub version: String,
    /// Display form of the detected project root.
    pub working_directory: String,
    pub current_session_id: String,
    pub current_session_name: String,
    /// Display form of the directory that the interface runs in, where there is one.
    pub current_directory: Option<String>,
}

/// Renderable interface state derived from application events.
#[derive(Clone, Debug, PartialEq, Eq)]
pub struct AppState {
    /// Visible top-level screen.
    pub screen: Screen,
    /// User-local, presentation-only settings loaded by the runtime.
    pub preferences: Preferences,
    pub active_personality: PersonalityName,
    pub permission_mode: PermissionMode,
    /// The active session's persisted `/debug` investigation.
    pub debug: DebugInvestigation,
    /// Inverted, so that automatic compaction is on to begin with.
    pub auto_compact_disabled: bool,
    pub copy_notification: Option<String>,
    /// Number of transactions currently available to `/undo`.
    pub undo_count: usize,
    /// Number of transactions currently available to `/redo`.
    pub redo_count: usize,
    /// Project-local slash commands.
    pub custom_commands: Vec<CustomCommand>,
    pub status: Option<String>,
    /// The reading of a monotonic clock, in milliseconds, at the last tick.
    pub clock_ms: u64,
    /// The wall clock, in seconds since the Unix epoch, at the last tick.
    pub unix_seconds: u64,
    pub composer: Composer,
    pub pickers: Pickers,
    pub prompts: Prompts,
    pub updates: Updates,
    pub help: HelpPanel,
    pub skill_panel: SkillPanel,
    pub mcp: McpPanel,
    pub agent_panel: AgentPanel,
    pub transcript: Transcript,
    /// The wrapped transcript, as it was last drawn.
    pub history_wrap_cache: HistoryWrapCache,
    pub session: SessionInfo,
}

impl Composer {
    /// The cursor stands inside the text, and the history cursor on a remembered prompt.
    pub open spec fn wf(self) -> bool {
        &&& self.cursor <= self.chat_input@.len()
        &&& self.prompt_history@.len() <= MAX_PROMPT_HISTORY
        &&& self.history_cursor matches Some(i) ==> i < self.prompt_history@.len()
        &&& self.suggestion_selected < usize::MAX
    }
}

impl Pickers {
    /// Every selection stands on a row; an empty list has its selection at zero.
    pub open spec fn wf(self) -> bool {
        &&& self.selected_effort < EFFORT_COUNT
        &&& self.settings_selected < SETTINGS_COUNT
        &&& self.selected_model == 0 || self.selected_model < self.models@.len()
        &&& self.selected_session == 0 || self.selected_session < self.sessions@.len()
    }
}

impl Prompts {
    /// The selected choice is one of the question's.
    pub open spec fn wf(self) -> bool {
        &&& self.pending_guided_question matches Some(q) ==> q.choices@.len() > 0
            ==> self.selected_guided_choice < q.choices@.len()
        &&& self.pending_agent_conflict matches Some(c) ==> c.selected < usize::MAX
    }

    /// Whether one of the prompts is open.
    pub open spec fn any(self) -> bool {
        ||| self.blocking_error is Some
        ||| self.pending_permission is Some
        ||| self.pending_guided_question is Some
        ||| self.pending_worktree_removal is Some
        ||| self.pending_agent_confirm is Some
        ||| self.pending_agent_conflict is Some
        ||| self.pending_undo_conflict is Some
    }
}

impl AppState {
    /// What holds of the interface state at all times: the composer's cursor stands inside its
    /// text, the history cursor on a remembered prompt, and every selection on a row; and no action
    /// is bound twice.
    pub open spec fn wf(self) -> bool {
        &&& self.composer.wf()
        &&& self.pickers.wf()
        &&& self.prompts.wf()
        &&& self.skill_panel.selected < usize::MAX
        &&& self.mcp.selected < usize::MAX
        &&& self.agent_panel.selected < usize::MAX
        &&& self.transcript.run_visibility.wf()
        &&& protocol::binds_once(self.preferences.keymap@)
    }

    /// Whether a prompt stands over the chat screen and takes the keys.
    pub open spec fn is_interrupted(self) -> bool {
        self.prompts.any()
    }

    /// Whether the chat composer takes the keys.
    pub open spec fn is_composing(self) -> bool {
        &&& self.screen == Screen::Chat
        &&& !self.is_interrupted()
        &&& self.updates.pending_update is None
    }

    /// Whether a prompt stands over the chat screen and takes the keys.
    pub fn interrupted(&self) -> (r: bool)
        ensures
            r == self.is_interrupted(),
    {
        self.prompts.blocking_error.is_some() || self.prompts.pending_permission.is_some()
            || self.prompts.pending_guided_question.is_some() || self.prompts.pending_worktree_removal.is_some()
            || self.prompts.pending_agent_confirm.is_some() || self.prompts.pending_agent_conflict.is_some()
            || self.prompts.pending_undo_conflict.is_some()
    }

    /// Whether the chat composer takes the keys.
    pub fn composing(&self) -> (r: bool)
        ensures
            r == self.is_composing(),
    {
        self.screen == Screen::Chat && !self.interrupted() && self.updates.pending_update.is_none()
    }

    /// Takes the current readings of the two clocks.
    pub fn tick(&mut self, clock_ms: u64, unix_seconds: u64)
        ensures
            *final(self) == (AppState { clock_ms, unix_seconds, ..*old(self) }),
            old(self).wf() ==> final(self).wf(),
    {
        self.clock_ms = clock_ms;
        self.unix_seconds = unix_seconds;
    }

    /// Scrolls the transcript further from the bottom (toward older entries).
    pub fn scroll_up(&mut self)
        ensures
            *final(self) == (AppState { transcript: Transcript { scroll: final(self).transcript.scroll, ..old(self).transcript }, ..*old(self) }),
            final(self).transcript.scroll == (if old(self).transcript.scroll + SCROLL_STEP <= usize::MAX {
                (old(self).transcript.scroll + SCROLL_STEP) as usize
            } else {
                usize::MAX
            }),
    {
        self.transcript.scroll = self.transcript.scroll.saturating_add(SCROLL_STEP);
    }

    /// Scrolls the transcript toward the bottom; reaching zero re-locks to newest output.
    pub fn scroll_down(&mut self)
        ensures
            *final(self) == (AppState { transcript: Transcript { scroll: final(self).transcript.scroll, ..old(self).transcript }, ..*old(self) }),
            final(self).transcript.scroll == (if old(self).transcript.scroll >= SCROLL_STEP {
                (old(self).transcript.scroll - SCROLL_STEP) as usize
            } else {
                0
            }),
    {
        self.transcript.scroll = self.transcript.scroll.saturating_sub(SCROLL_STEP);
    }

    /// Whether the transcript is pinned to the newest entry.
    #[must_use]
    pub fn is_scroll_locked(&self) -> (r: bool)
        ensures
            r == (self.transcript.scroll == 0),
    {
        self.transcript.scroll == 0
    }

    /// Appends one masked-on-screen credential character during onboarding.
    pub fn push_credential_character(&mut self, character: char)
        ensures
            *final(self) == (AppState { pickers: Pickers { credential_input: final(self).pickers.credential_input, ..old(self).pickers }, ..*old(self) }),
            final(self).pickers.credential_input@ == (if old(self).screen == Screen::Onboarding {
                old(self).pickers.credential_input@.push(character)
            } else {
                old(self).pickers.credential_input@
            }),
    {
        if self.screen == Screen::Onboarding {
            self.pickers.credential_input.push(character);
        }
    }

    /// Moves a nonempty onboarding credential out of the state for immediate validation.
    pub fn take_credential_submission(&mut self) -> (r: Option<String>)
        ensures
            *final(self) == (AppState { pickers: Pickers { credential_input: final(self).pickers.credential_input, ..old(self).pickers }, ..*old(self) }),
            if old(self).screen == Screen::Onboarding && old(self).pickers.credential_input@.len() > 0 {
                r == Some(old(self).pickers.credential_input) && final(self).pickers.credential_input@.len() == 0
            } else {
                r is None && final(self).pickers.credential_input == old(self).pickers.credential_input
            },
    {
        if self.screen == Screen::Onboarding && !self.pickers.credential_input.as_str().is_empty() {
            let mut taken: String = String::new();
            std::mem::swap(&mut taken, &mut self.pickers.credential_input);
            Some(taken)
        } else {
            None
        }
    }

    /// Returns the currently highlighted model, if discovery provided one.
    #[must_use]
    pub fn selected_model(&self) -> (r: Option<String>)
        ensures
            r == (if self.pickers.selected_model < self.pickers.models@.len() {
                Some(self.pickers.models@[self.pickers.selected_model as int])
            } else {
                None
            }),
    {
        if self.pickers.selected_model < self.pickers.models.len() {
            Some(self.pickers.models[self.pickers.selected_model].clone())
        } else {
            None
        }
    }

    /// Toggles full/collapsed output on the most recent tool activity entry.
    pub fn toggle_last_tool_output(&mut self)
        ensures
            *final(self) == (AppState { transcript: Transcript { entries: final(self).transcript.entries, ..old(self).transcript }, ..*old(self) }),
            ({
                let i = entry::last_tool(old(self).transcript.entries@);
                if i >= 0 {
                    &&& final(self).transcript.entries@ == old(self).transcript.entries@.update(
                        i,
                        final(self).transcript.entries@[i],
                    )
                    &&& toggles(old(self).transcript.entries@[i], final(self).transcript.entries@[i])
                } else {
                    final(self).transcript.entries == old(self).transcript.entries
                }
            }),
    {
        match entry::find_tool(&self.transcript.entries) {
            Some(i) => {
                let slot: &mut ChatEntry = &mut self.transcript.entries[i];
                match slot {
                    ChatEntry::Tool { expanded, .. } => {
                        *expanded = !*expanded;
                    },
                    _ => {},
                }
            },
            None => {},
        }
    }
}

/// Whether `post` is the tool entry `pre` with its output shown or hidden the other way.
pub open spec fn toggles(pre: ChatEntry, post: ChatEntry) -> bool {
    &&& pre matches ChatEntry::Tool { id, name, status, detail, output, expanded }
    &&& post == (ChatEntry::Tool { id, name, status, detail, output, expanded: !expanded })
}

/// The state of an interface that has seen no event yet, whatever its bindings.
pub open spec fn is_fresh(s: AppState) -> bool {
    &&& s.screen == Screen::Boot
    &&& s.history_wrap_cache.width_of() == 0
    &&& s.history_wrap_cache.lines().len() == 0
    &&& s.history_wrap_cache.rows().len() == 0
    &&& s.pickers.credential_input@.len() == 0
    &&& s.pickers.models@.len() == 0
    &&& s.pickers.selected_model == 0
    &&& s.pickers.current_model is None
    &&& s.pickers.settings_selected == 0
    &&& s.pickers.selected_effort == 0
    &&& s.pickers.current_effort is None
    &&& s.preferences.theme == ThemeName::System
    &&& s.preferences.personality.id == 0
    &&& s.active_personality.id == 0
    &&& s.composer.chat_input@.len() == 0
    &&& s.composer.cursor == 0
    &&& s.composer.suggestion_selected == 0
    &&& s.permission_mode == PermissionMode::Auto
    &&& !s.debug.active && !s.debug.stopped
    &&& s.debug.description is None && s.debug.hypothesis is None
    &&& s.debug.evidence_count == 0 && s.debug.command_count == 0
    &&& s.debug.next_question is None
    &&& !s.auto_compact_disabled
    &&& s.pickers.sessions@.len() == 0
    &&& s.pickers.selected_session == 0
    &&& s.transcript.selection is None
    &&& s.copy_notification is None
    &&& s.transcript.entries@.len() == 0
    &&& !s.transcript.streaming_assistant
    &&& !s.transcript.streaming_reasoning
    &&& s.transcript.file_change_buffer@.len() == 0
    &&& s.transcript.activity is None
    &&& s.transcript.run_visibility.is_blank()
    &&& !s.is_interrupted()
    &&& s.prompts.selected_guided_choice == 0
    &&& s.undo_count == 0
    &&& s.redo_count == 0
    &&& s.updates.pending_update is None
    &&& !s.updates.update_selected_no
    &&& !s.help.visible && s.help.tab == HelpTab::General && s.help.scroll == 0
    &&& !s.skill_panel.visible && s.skill_panel.view == SkillsView::Menu
    &&& s.skill_panel.selected == 0 && s.skill_panel.list_scroll == 0
    &&& s.custom_commands@.len() == 0
    &&& s.skill_panel.skills@.len() == 0
    &&& !s.mcp.visible && s.mcp.view == McpView::Menu
    &&& s.mcp.selected == 0 && s.mcp.servers@.len() == 0 && s.mcp.detail_scroll == 0
    &&& s.mcp.add_step == McpAddStep::Name
    &&& s.mcp.add_name@.len() == 0 && !s.mcp.add_http
    &&& s.mcp.add_command_line@.len() == 0 && s.mcp.add_url@.len() == 0
    &&& !s.mcp.add_api_key_auth && s.mcp.add_api_key@.len() == 0
    &&& !s.agent_panel.visible && s.agent_panel.view == AgentsView::List
    &&& s.agent_panel.selected == 0 && s.agent_panel.agents@.len() == 0 && s.agent_panel.detail_scroll == 0
    &&& s.agent_panel.detail is None && s.agent_panel.next_step_cursor == 0
    &&& s.session.working_directory@.len() == 0
    &&& s.session.current_session_id@.len() == 0
    &&& s.session.current_session_name@.len() == 0
    &&& s.session.current_directory is None
    &&& s.transcript.last_input_tokens is None
    &&& !s.pickers.model_flow_pending_effort
    &&& s.pickers.pending_model is None
    &&& s.updates.queued_update is None
    &&& !s.updates.exit_for_update
    &&& s.status is None
    &&& s.transcript.scroll == 0
    &&& s.transcript.last_failed_prompt is None
    &&& s.transcript.last_submitted_prompt is None
    &&& s.transcript.queued is None
    &&& s.composer.prompt_history@.len() == 0
    &&& s.composer.history_cursor is None
    &&& s.composer.draft_before_history is None
    &&& s.clock_ms == 0
    &&& s.unix_seconds == 0
}

impl AppState {
    /// The state of an interface that has seen no event yet. It begins with the bindings and the
    /// version of the product.
    pub fn new(catalog: &Catalog) -> (r: AppState)
        requires
            catalog.wf(),
        ensures
            is_fresh(r),
            r.preferences.keymap@ == catalog.defaults(),
            r.session.version@ == catalog.version@,
            r.wf(),
    {
        AppState {
            screen: Screen::Boot,
            preferences: Preferences {
                keymap: catalog.default_keymap(),
                theme: ThemeName::System,
                personality: PersonalityName { id: 0 },
            },
            active_personality: PersonalityName { id: 0 },
            permission_mode: PermissionMode::Auto,
            debug: DebugInvestigation {
                active: false,
                stopped: false,
                description: None,
                hypothesis: None,
                evidence_count: 0,
                command_count: 0,
                next_question: None,
            },
            auto_compact_disabled: false,
            copy_notification: None,
            undo_count: 0,
            redo_count: 0,
            custom_commands: Vec::new(),
            status: None,
            clock_ms: 0,
            unix_seconds: 0,
            composer: Composer {
                chat_input: String::new(),
                cursor: 0,
                suggestion_selected: 0,
                prompt_history: Vec::new(),
                history_cursor: None,
                draft_before_history: None,
            },
            pickers: Pickers {
                credential_input: String::new(),
                models: Vec::new(),
                selected_model: 0,
                current_model: None,
                settings_selected: 0,
                selected_effort: 0,
                current_effort: None,
                sessions: Vec::new(),
                selected_session: 0,
                model_flow_pending_effort: false,
                pending_model: None,
            },
            prompts: Prompts {
                pending_permission: None,
                pending_guided_question: None,
                selected_guided_choice: 0,
                pending_worktree_removal: None,
                pending_agent_confirm: None,
                pending_agent_conflict: None,
                pending_undo_conflict: None,
                blocking_error: None,
            },
            updates: Updates {
                pending_update: None,
                update_selected_no: false,
                queued_update: None,
                exit_for_update: false,
            },
            help: HelpPanel {
                visible: false,
                tab: HelpTab::General,
                scroll: 0,
            },
            skill_panel: SkillPanel {
                visible: false,
                view: SkillsView::Menu,
                selected: 0,
                list_scroll: 0,
                skills: Vec::new(),
            },
            mcp: McpPanel {
                visible: false,
                view: McpView::Menu,
                selected: 0,
                servers: Vec::new(),
                detail_scroll: 0,
                add_step: McpAddStep::Name,
                add_name: String::new(),
                add_http: false,
                add_command_line: String::new(),
                add_url: String::new(),
                add_api_key_auth: false,
                add_api_key: String::new(),
            },
            agent_panel: AgentPanel {
                visible: false,
                view: AgentsView::List,
                selected: 0,
                agents: Vec::new(),
                detail_scroll: 0,
                detail: None,
                next_step_cursor: 0,
            },
            transcript: Transcript {
                selection: None,
                entries: Vec::new(),
                streaming_assistant: false,
                streaming_reasoning: false,
                file_change_buffer: Vec::new(),
                activity: None,
                run_visibility: RunVisibility::blank(),
                last_input_tokens: None,
                scroll: 0,
                last_failed_prompt: None,
                last_submitted_prompt: None,
                queued: None,
            },
            history_wrap_cache: HistoryWrapCache::new(),
            session: SessionInfo {
                version: catalog.version.clone(),
                working_directory: String::new(),
                current_session_id: String::new(),
                current_session_name: String::new(),
                current_directory: None,
            },
        }
    }
}

// ---------------------------------------------------------------------------------------------
// Reasoning effort
// ---------------------------------------------------------------------------------------------

/// The provider value of the effort level at a row; the first row leaves the value out.
pub open spec fn effort_value(row: int) -> Option<Seq<char>> {
    if row == 1 {
        Some("low"@)
    } else if row == 2 {
        Some("medium"@)
    } else if row == 3 {
        Some("high"@)
    } else {
        None
    }
}

/// The display name of the effort level at a row.
pub open spec fn effort_name(row: int) -> Seq<char> {
    if row == 1 {
        "Low"@
    } else if row == 2 {
        "Medium"@
    } else if row == 3 {
        "High"@
    } else {
        "None"@
    }
}

/// The first row with a provider value, or the first row when there is none.
pub open spec fn effort_row(effort: Option<Seq<char>>) -> int {
    if effort == Some("low"@) {
        1
    } else if effort == Some("medium"@) {
        2
    } else if effort == Some("high"@) {
        3
    } else {
        0
    }
}

/// Finds the row of a provider value.
pub fn effort_index(effort: &Option<String>) -> (r: usize)
    ensures
        r == effort_row(text::opt_text(*effort)),
        r < EFFORT_COUNT,
{
    match effort {
        Some(value) => {
            if same_text(value.as_str(), "low") {
                1
            } else if same_text(value.as_str(), "medium") {
                2
            } else if same_text(value.as_str(), "high") {
                3
            } else {
                0
            }
        },
        None => 0,
    }
}

/// The display name of a provider value.
pub fn effort_label(effort: &Option<String>) -> (r: &'static str)
    ensures
        r@ == effort_name(effort_row(text::opt_text(*effort))),
{
    effort_title(effort_index(effort))
}

/// The display name of the effort level at a row.
pub fn effort_title(row: usize) -> (r: &'static str)
    ensures
        r@ == effort_name(row as int),
{
    if row == 1 {
        "Low"
    } else if row == 2 {
        "Medium"
    } else if row == 3 {
        "High"
    } else {
        "None"
    }
}

/// The provider value of the effort level at a row.
pub fn effort_choice(row: usize) -> (r: Option<String>)
    ensures
        text::opt_text(r) == effort_value(row as int),
{
    if row == 1 {
        Some("low".to_owned())
    } else if row == 2 {
        Some("medium".to_owned())
    } else if row == 3 {
        Some("high".to_owned())
    } else {
        None
    }
}

/// Choosing a row and finding the row of the chosen value come back to the row.
pub proof fn law_effort_rows_round_trip(row: int)
    requires
        0 <= row < EFFORT_COUNT,
    ensures
        effort_row(effort_value(row)) == row,
{
    reveal_strlit("low");
    reveal_strlit("medium");
    reveal_strlit("high");
    assert("low"@.len() == 3 && "medium"@.len() == 6 && "high"@.len() == 4);
}

} // verus!
