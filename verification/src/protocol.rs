//! The plain values that the interface and the agent runtime exchange.

use vstd::prelude::*;

verus! {

/// Lifecycle of one tool call, as shown in the transcript.
#[derive(Clone, Copy, Debug, PartialEq, Eq, Structural)]
pub enum ToolActivityStatus {
    Started,
    Succeeded,
    Failed,
    Denied,
    Cancelled,
}

/// What the agent is doing while a run is active.
#[derive(Clone, Copy, Debug, PartialEq, Eq, Structural)]
pub enum AgentActivityState {
    Thinking,
    RunningTools,
}

/// How much the agent may do without asking.
#[derive(Clone, Copy, Debug, PartialEq, Eq, Structural)]
pub enum PermissionMode {
    Auto,
    Plan,
    Approve,
    Manual,
}

impl PermissionMode {
    /// The mode that follows this one when the user cycles through them.
    pub open spec fn following(self) -> PermissionMode {
        match self {
            PermissionMode::Auto => PermissionMode::Plan,
            PermissionMode::Plan => PermissionMode::Approve,
            PermissionMode::Approve => PermissionMode::Manual,
            PermissionMode::Manual => PermissionMode::Auto,
        }
    }

    /// Steps to the next mode, back to the first after the last.
    pub fn cycle(self) -> (r: PermissionMode)
        ensures
            r == self.following(),
    {
        match self {
            PermissionMode::Auto => PermissionMode::Plan,
            PermissionMode::Plan => PermissionMode::Approve,
            PermissionMode::Approve => PermissionMode::Manual,
            PermissionMode::Manual => PermissionMode::Auto,
        }
    }
}

/// Cycling four times comes back to the mode it started from, and no earlier.
pub proof fn law_permission_modes_cycle(mode: PermissionMode)
    ensures
        mode.following().following().following().following() == mode,
        mode.following() != mode,
        mode.following().following() != mode,
        mode.following().following().following() != mode,
{
}

/// The user's answer to a permission prompt.
#[derive(Clone, Copy, Debug, PartialEq, Eq, Structural)]
pub enum PermissionChoice {
    AllowOnce,
    AllowAlways,
    Deny,
}

/// An action that a keyboard shortcut can be bound to.
#[derive(Clone, Copy, Debug, PartialEq, Eq, Structural)]
pub enum KeyAction {
    SendMessage,
    InterruptExecution,
    Approve,
    Reject,
    OpenHelp,
    OpenModelPicker,
    NewConversation,
    OpenCommandList,
    HistoryPrevious,
    HistoryNext,
    /// An action that this interface lists but does not react to itself.
    Other(u8),
}

/// A named palette.
#[derive(Clone, Copy, Debug, PartialEq, Eq, Structural)]
pub enum ThemeName {
    System,
    Light,
    Dark,
    HighContrast,
}

/// A named response style; number zero is the default style.
#[derive(Clone, Copy, Debug, PartialEq, Eq, Structural)]
pub struct PersonalityName {
    pub id: u8,
}

/// The shortcut bound to one action.
#[derive(Debug, PartialEq, Eq)]
pub struct KeyBinding {
    pub action: KeyAction,
    pub shortcut: String,
}

impl Clone for KeyBinding {
    fn clone(&self) -> (r: Self)
        ensures
            r == *self,
    {
        KeyBinding { action: self.action, shortcut: self.shortcut.clone() }
    }
}

/// User-local, presentation-only settings.
#[derive(Debug, PartialEq, Eq)]
pub struct Preferences {
    /// At most one binding per action.
    pub keymap: Vec<KeyBinding>,
    pub theme: ThemeName,
    pub personality: PersonalityName,
}

/// Whether no action is bound twice.
pub open spec fn binds_once(keymap: Seq<KeyBinding>) -> bool {
    forall|i: int, j: int|
        0 <= i < j < keymap.len() ==> (#[trigger] keymap[i]).action != (#[trigger] keymap[j]).action
}

/// Tells whether no action is bound twice.
pub fn is_bound_once(keymap: &Vec<KeyBinding>) -> (r: bool)
    ensures
        r == binds_once(keymap@),
{
    let mut i: usize = 0;
    while i < keymap.len()
        invariant
            i <= keymap@.len(),
            forall|a: int, b: int|
                0 <= a < i && a < b < keymap@.len() ==> (#[trigger] keymap@[a]).action != (
                #[trigger] keymap@[b]).action,
        decreases keymap@.len() - i,
    {
        let mut j: usize = i + 1;
        while j < keymap.len()
            invariant
                i < j <= keymap@.len(),
                forall|b: int| i < b < j ==> keymap@[i as int].action != (#[trigger] keymap@[b]).action,
            decreases keymap@.len() - j,
        {
            if keymap[i].action == keymap[j].action {
                return false;
            }
            j = j + 1;
        }
        i = i + 1;
    }
    true
}

/// Whether two sets of preferences hold the same values.
pub open spec fn same_preferences(a: Preferences, b: Preferences) -> bool {
    &&& a.keymap@ == b.keymap@
    &&& a.theme == b.theme
    &&& a.personality == b.personality
}

/// Copies a keymap.
pub fn copy_keymap(keymap: &Vec<KeyBinding>) -> (r: Vec<KeyBinding>)
    ensures
        r@ == keymap@,
{
    let r: Vec<KeyBinding> = keymap.clone();
    assert(r@ =~= keymap@);
    r
}

impl Clone for Preferences {
    fn clone(&self) -> (r: Self)
        ensures
            same_preferences(r, *self),
    {
        Preferences {
            keymap: copy_keymap(&self.keymap),
            theme: self.theme,
            personality: self.personality,
        }
    }
}

/// A project-local slash command.
#[derive(Debug, PartialEq, Eq)]
pub struct CustomCommand {
    /// Name without the leading slash.
    pub name: String,
    pub description: String,
    /// The prompt, in which `$ARGUMENTS` stands for what follows the command.
    pub body: String,
}

impl Clone for CustomCommand {
    fn clone(&self) -> (r: Self)
        ensures
            r == *self,
    {
        CustomCommand {
            name: self.name.clone(),
            description: self.description.clone(),
            body: self.body.clone(),
        }
    }
}

/// Where a skill was found.
#[derive(Clone, Copy, Debug, PartialEq, Eq, Structural)]
pub enum SkillSource {
    Global,
    Project,
}

/// A discovered skill.
#[derive(Debug, PartialEq, Eq)]
pub struct SkillSummary {
    pub name: String,
    pub description: String,
    pub source: SkillSource,
    pub path: String,
    pub enabled: bool,
}

impl Clone for SkillSummary {
    fn clone(&self) -> (r: Self)
        ensures
            r == *self,
    {
        SkillSummary {
            name: self.name.clone(),
            description: self.description.clone(),
            source: self.source,
            path: self.path.clone(),
            enabled: self.enabled,
        }
    }
}

/// A configured MCP server and its connection.
#[derive(Debug, PartialEq, Eq)]
pub struct McpServerStatus {
    pub name: String,
    pub transport: String,
    pub connected: bool,
    pub tool_count: usize,
    pub tool_names: Vec<String>,
    pub error: Option<String>,
    pub needs_authorization: bool,
}

/// Whether two server records hold the same values.
pub open spec fn same_server(a: McpServerStatus, b: McpServerStatus) -> bool {
    &&& a == (McpServerStatus { tool_names: a.tool_names, ..b })
    &&& a.tool_names@ == b.tool_names@
}

impl Clone for McpServerStatus {
    fn clone(&self) -> (r: Self)
        ensures
            same_server(r, *self),
    {
        McpServerStatus {
            name: self.name.clone(),
            transport: self.transport.clone(),
            connected: self.connected,
            tool_count: self.tool_count,
            tool_names: copy_texts(&self.tool_names),
            error: self.error.clone(),
            needs_authorization: self.needs_authorization,
        }
    }
}

/// Copies a list of texts.
pub fn copy_texts(v: &Vec<String>) -> (r: Vec<String>)
    ensures
        r@ == v@,
{
    let r: Vec<String> = v.clone();
    assert(r@ =~= v@);
    r
}

/// How a new MCP server is reached.
#[derive(Debug, PartialEq, Eq)]
pub enum McpTransportConfig {
    /// A local command.
    Stdio { command: String, args: Vec<String>, env: Vec<(String, String)> },
    /// A remote server.
    Http { url: String, headers: Vec<(String, String)> },
}

/// How the client authenticates to an MCP server.
#[derive(Clone, Copy, Debug, PartialEq, Eq, Structural)]
pub enum McpAuthConfig {
    NoAuth,
    ApiKey,
}

/// A new MCP server to configure.
#[derive(Debug, PartialEq, Eq)]
pub struct McpServerEntry {
    pub name: String,
    pub transport: McpTransportConfig,
    pub auth: McpAuthConfig,
    pub enabled: bool,
}

/// A saved session.
#[derive(Debug, PartialEq, Eq)]
pub struct SessionSummary {
    pub id: String,
    pub name: String,
    pub summary: String,
    pub last_used_at_unix: i64,
}

impl Clone for SessionSummary {
    fn clone(&self) -> (r: Self)
        ensures
            r == *self,
    {
        SessionSummary {
            id: self.id.clone(),
            name: self.name.clone(),
            summary: self.summary.clone(),
            last_used_at_unix: self.last_used_at_unix,
        }
    }
}

/// How the active session came to be.
#[derive(Clone, Copy, Debug, PartialEq, Eq, Structural)]
pub enum SessionTransition {
    New,
    Resumed,
    Forked,
}

/// One message of a stored conversation.
#[derive(Debug, PartialEq, Eq)]
pub enum ChatMessage {
    User(String),
    Assistant { text: Option<String> },
    Tool { id: String, content: String },
    System(String),
}

/// The persisted state of a guided bug investigation.
#[derive(Debug, PartialEq, Eq)]
pub struct DebugInvestigation {
    pub active: bool,
    pub stopped: bool,
    pub description: Option<String>,
    pub hypothesis: Option<String>,
    /// How many pieces of evidence were collected.
    pub evidence_count: usize,
    /// How many commands were run.
    pub command_count: usize,
    /// The intake question that is still open, if any.
    pub next_question: Option<String>,
}

impl Clone for DebugInvestigation {
    fn clone(&self) -> (r: Self)
        ensures
            r == *self,
    {
        DebugInvestigation {
            active: self.active,
            stopped: self.stopped,
            description: self.description.clone(),
            hypothesis: self.hypothesis.clone(),
            evidence_count: self.evidence_count,
            command_count: self.command_count,
            next_question: self.next_question.clone(),
        }
    }
}

/// One option of a guided question.
#[derive(Debug, PartialEq, Eq)]
pub struct GuidedChoice {
    pub label: String,
    pub summary: String,
    pub advantages: String,
    pub disadvantages: String,
    pub recommended: bool,
}

impl Clone for GuidedChoice {
    fn clone(&self) -> (r: Self)
        ensures
            r == *self,
    {
        GuidedChoice {
            label: self.label.clone(),
            summary: self.summary.clone(),
            advantages: self.advantages.clone(),
            disadvantages: self.disadvantages.clone(),
            recommended: self.recommended,
        }
    }
}

/// A structured choice that the model asks the user to make.
#[derive(Debug, PartialEq, Eq)]
pub struct GuidedQuestion {
    pub title: String,
    pub context: String,
    pub choices: Vec<GuidedChoice>,
}

/// Whether two questions hold the same values.
pub open spec fn same_question(a: GuidedQuestion, b: GuidedQuestion) -> bool {
    &&& a.title == b.title
    &&& a.context == b.context
    &&& a.choices@ == b.choices@
}

impl Clone for GuidedQuestion {
    fn clone(&self) -> (r: Self)
        ensures
            same_question(r, *self),
    {
        let choices: Vec<GuidedChoice> = self.choices.clone();
        assert(choices@ =~= self.choices@);
        GuidedQuestion { title: self.title.clone(), context: self.context.clone(), choices }
    }
}

/// A Git worktree, as listed for the user.
#[derive(Debug, PartialEq, Eq)]
pub struct WorktreeSummary {
    pub path: String,
    pub branch: Option<String>,
    pub is_main: bool,
}

/// The branch that a new worktree checks out.
#[derive(Debug, PartialEq, Eq)]
pub enum WorktreeBranchSource {
    New,
    Existing(String),
}

/// One undone or redone transaction: its description and each file with what was done to it.
#[derive(Debug, PartialEq, Eq)]
pub struct UndoTransactionResult {
    pub description: String,
    /// Path and action, in order.
    pub files: Vec<(String, String)>,
}

/// Whether two transaction results hold the same values.
pub open spec fn same_transaction(a: UndoTransactionResult, b: UndoTransactionResult) -> bool {
    &&& a.description == b.description
    &&& a.files@ == b.files@
}

/// Copies a list of pairs of texts.
pub fn copy_pairs(v: &Vec<(String, String)>) -> (r: Vec<(String, String)>)
    ensures
        r@ == v@,
{
    let mut r: Vec<(String, String)> = Vec::new();
    let mut i: usize = 0;
    while i < v.len()
        invariant
            i <= v@.len(),
            r@ == v@.take(i as int),
        decreases v@.len() - i,
    {
        let pair: (String, String) = (v[i].0.clone(), v[i].1.clone());
        assert(pair == v@[i as int]);
        r.push(pair);
        i = i + 1;
        assert(r@ =~= v@.take(i as int));
    }
    assert(r@ =~= v@);
    r
}

impl Clone for UndoTransactionResult {
    fn clone(&self) -> (r: Self)
        ensures
            same_transaction(r, *self),
    {
        UndoTransactionResult {
            description: self.description.clone(),
            files: copy_pairs(&self.files),
        }
    }
}

/// A file that blocked an undo or redo.
#[derive(Debug, PartialEq, Eq)]
pub struct ConflictingFile {
    pub path: String,
    /// What the transaction expected to find; `None` for no file.
    pub expected: Option<String>,
    /// What was found; `None` for no file.
    pub actual: Option<String>,
}

impl Clone for ConflictingFile {
    fn clone(&self) -> (r: Self)
        ensures
            r == *self,
    {
        ConflictingFile {
            path: self.path.clone(),
            expected: self.expected.clone(),
            actual: self.actual.clone(),
        }
    }
}

/// What a subagent was created for.
#[derive(Clone, Copy, Debug, PartialEq, Eq, Structural)]
pub enum SubagentMode {
    Research,
    Plan,
    Implement,
    Review,
}

/// Who wrote a message to a subagent.
#[derive(Clone, Copy, Debug, PartialEq, Eq, Structural)]
pub enum SubagentMessageRole {
    Supervisor,
    Subagent,
}

/// One message of a subagent's conversation.
#[derive(Debug, PartialEq, Eq)]
pub struct SubagentMessage {
    pub role: SubagentMessageRole,
    pub text: String,
}

impl Clone for SubagentMessage {
    fn clone(&self) -> (r: Self)
        ensures
            r == *self,
    {
        SubagentMessage { role: self.role, text: self.text.clone() }
    }
}

/// What a subagent delivered.
#[derive(Debug, PartialEq, Eq)]
pub struct SubagentResult {
    pub summary: String,
    pub findings: Vec<String>,
    pub files_changed: Vec<String>,
    pub risks: Vec<String>,
    pub next_steps: Vec<String>,
    pub error: Option<String>,
}

/// Whether two results hold the same values.
pub open spec fn same_result(a: SubagentResult, b: SubagentResult) -> bool {
    &&& a.summary == b.summary
    &&& a.findings@ == b.findings@
    &&& a.files_changed@ == b.files_changed@
    &&& a.risks@ == b.risks@
    &&& a.next_steps@ == b.next_steps@
    &&& a.error == b.error
}

impl Clone for SubagentResult {
    fn clone(&self) -> (r: Self)
        ensures
            same_result(r, *self),
    {
        SubagentResult {
            summary: self.summary.clone(),
            findings: copy_texts(&self.findings),
            files_changed: copy_texts(&self.files_changed),
            risks: copy_texts(&self.risks),
            next_steps: copy_texts(&self.next_steps),
            error: self.error.clone(),
        }
    }
}

/// One subagent, as the interface shows it.
#[derive(Debug, PartialEq, Eq)]
pub struct SubagentRecord {
    pub id: String,
    pub parent_subagent_id: Option<String>,
    pub depth: u32,
    pub task_summary: String,
    /// The name of the mode.
    pub mode: String,
    /// The name of the lifecycle status.
    pub status: String,
    pub elapsed_seconds: u64,
    pub model: String,
    pub worktree_path: Option<String>,
    pub branch: Option<String>,
    pub messages: Vec<SubagentMessage>,
    pub result: Option<SubagentResult>,
}

/// Whether two records hold the same values.
pub open spec fn same_record(a: SubagentRecord, b: SubagentRecord) -> bool {
    &&& a == (SubagentRecord { messages: a.messages, result: a.result, ..b })
    &&& a.messages@ == b.messages@
    &&& match (a.result, b.result) {
        (Some(x), Some(y)) => same_result(x, y),
        (None, None) => true,
        _ => false,
    }
}

impl Clone for SubagentRecord {
    fn clone(&self) -> (r: Self)
        ensures
            same_record(r, *self),
    {
        let messages: Vec<SubagentMessage> = self.messages.clone();
        assert(messages@ =~= self.messages@);
        let result: Option<SubagentResult> = match &self.result {
            Some(x) => Some(x.clone()),
            None => None,
        };
        SubagentRecord {
            id: self.id.clone(),
            parent_subagent_id: self.parent_subagent_id.clone(),
            depth: self.depth,
            task_summary: self.task_summary.clone(),
            mode: self.mode.clone(),
            status: self.status.clone(),
            elapsed_seconds: self.elapsed_seconds,
            model: self.model.clone(),
            worktree_path: self.worktree_path.clone(),
            branch: self.branch.clone(),
            messages,
            result,
        }
    }
}

/// What the runtime tells the interface.
#[derive(Debug, PartialEq, Eq)]
pub enum AppEvent {
    BootStarted,
    BootCompleted,
    PreferencesLoaded { preferences: Preferences, recovery: Option<String> },
    ProjectContextAvailable { working_directory: String },
    CustomCommandsAvailable(Vec<CustomCommand>),
    SkillsAvailable(Vec<SkillSummary>),
    McpServersAvailable(Vec<McpServerStatus>),
    McpAuthorizationUrlReady { server: String, url: String },
    TerminalResized { columns: u16, rows: u16 },
    CredentialRequired,
    CredentialValidationStarted,
    CredentialValidationFailed(String),
    ModelsAvailable(Vec<String>),
    ModelSelected(String),
    AssistantTextDelta(String),
    AssistantReasoningDelta(String),
    DebugStateUpdated(DebugInvestigation),
    DebugInvestigationReady(String),
    ProviderFailed(String),
    BlockingError(String),
    UpdateAvailable { current_version: String, version: String, notes: String },
    UpdateProgress { percent: Option<u8>, message: String },
    UpdateReady { message: String },
    UpdateFailed(String),
    ExitForUpdate,
    AgentStateChanged(AgentActivityState),
    ToolActivity { id: String, name: String, status: ToolActivityStatus, detail: String },
    ToolOutputChunk { id: String, chunk: String },
    FileChanged { path: String, kind: String },
    AgentWarning(String),
    AgentNotice(String),
    AgentProgress { id: String, line: String },
    AgentDiffReady { id: String, diff: String },
    AgentCleanupWarning { id: String, message: String },
    AgentListAvailable(Vec<SubagentRecord>),
    AgentDetailAvailable { id: String, record: Option<SubagentRecord> },
    AgentMergeConflict { id: String, files: Vec<String> },
    AgentConflictFileResolved { id: String, file: String, ours: bool },
    AgentMergeFinished { id: String, applied: bool, message: String },
    PermissionRequested { summary: String, working_directory: String, scope_label: String },
    GuidedQuestionRequested(GuidedQuestion),
    AgentCompleted {
        final_text: Option<String>,
        turns: u64,
        tool_calls: u64,
        failed_tool_calls: u64,
        last_input_tokens: Option<u64>,
        partial: bool,
    },
    AgentCancelled,
    AgentStopped,
    ReasoningEffortChanged { effort: Option<String>, announce: bool },
    ContextCompacted { automatic: bool },
    ContextCompactionFailed(String),
    SessionSwitched {
        id: String,
        name: String,
        transition: SessionTransition,
        history: Vec<ChatMessage>,
    },
    SessionListAvailable(Vec<SessionSummary>),
    SessionResumeFailed(String),
    WorktreeListAvailable(Vec<WorktreeSummary>),
    WorktreeCreated { path: String, branch: String },
    WorktreeSwitched { path: String, branch: String },
    WorktreeRemoved { path: String, switched_to: Option<String> },
    WorktreeOperationFailed(String),
    UndoApplied { direction: String, transactions: Vec<UndoTransactionResult> },
    UndoConflict {
        direction: String,
        requested: usize,
        applied: Vec<UndoTransactionResult>,
        conflicting_files: Vec<ConflictingFile>,
    },
    UndoUnavailable { direction: String },
    UndoStackChanged { undo_count: usize, redo_count: usize },
    UndoOperationFailed { direction: String, message: String },
}

/// What the interface asks of the runtime.
#[derive(Debug, PartialEq, Eq)]
pub enum AppCommand {
    SubmitChat(String),
    Exit,
    Resize { columns: u16, rows: u16 },
    CancelProviderRequest,
    PermissionResponse(PermissionChoice),
    GuidedAnswer(String),
    WorktreeList,
    WorktreeSwitch(String),
    WorktreeRemove(String),
    WorktreeCreate { name: String, branch: WorktreeBranchSource },
    AgentSpawn { task: String, mode: SubagentMode, model: Option<String>, worktree: bool },
    AgentStatus(String),
    AgentMessage { id: String, text: String },
    AgentStop(String),
    AgentResult(String),
    AgentApplyRequest(String),
    AgentApplyConfirm(String),
    AgentCleanupRequest(String),
    AgentCleanupConfirm(String),
    AgentResolveConflict { id: String, file: String, ours: bool },
    AgentFinishMerge(String),
    AgentAbortMerge(String),
    AgentList,
    Undo(usize),
    Redo(usize),
    UndoForce(usize),
    RedoForce(usize),
    AcceptUpdate,
    RejectUpdate,
    RestartForUpdate,
    SubmitCredential(String),
    SelectModel(String),
    SetReasoningEffort(Option<String>),
    SetPermissionMode(PermissionMode),
    SetPreferences(Preferences),
    SetSessionPersonality(PersonalityName),
    SetSkillEnabled { name: String, enabled: bool },
    SetAutoCompact(bool),
    McpConnect(String),
    McpDisconnect(String),
    McpAddServer { entry: McpServerEntry, api_key: Option<String> },
    McpAuthorize(String),
    ClearConversation,
    CompactContext,
    NewSession,
    ResumeSession(String),
    RequestSessionList,
    ForkSession,
    DebugStart(Option<String>),
    DebugStop,
    DebugAnswer(String),
}

} // verus!
