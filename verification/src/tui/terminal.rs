//! The terminal loop's decisions: what each event does to the interface, and what is asked of the
//! runtime.
//!
//! Every input source is offered an event in a fixed order. A source that takes the event ends the
//! chain; a source that lets it pass hands the next one the state as it left it.

use vstd::prelude::*;

use crate::protocol::{AppCommand, AppEvent, KeyAction};
use crate::text::{cat3, same_text};
use crate::tui::chat;
use crate::tui::chat::handle_chat_event;
use crate::tui::commands::ChatSubmission;
use crate::tui::entry;
use crate::tui::input;
use crate::tui::input::{
    classify_event, Event, InputAction, KeyCode, MouseButton, MouseEvent,
    MouseEventKind,
};
use crate::tui::keys;
use crate::tui::keys::key_action_matches;
use crate::tui::layout;
use crate::tui::layout::Rect;
use crate::tui::mcp;
use crate::tui::mcp::{handle_mcp_event, McpEventOutcome};
use crate::tui::mouse;
use crate::tui::mouse::{handle_mouse_event, wants_clipboard_paste};
use crate::tui::notes;
use crate::tui::panels;
use crate::tui::panels::{
    handle_agents_event, handle_help_event, handle_skills_event, AgentsEventOutcome,
    SkillsEventOutcome,
};
use crate::tui::pickers;
use crate::tui::pickers::{
    handle_effort_picker_event, handle_model_picker_event, handle_onboarding_event,
    handle_permission_mode_event, handle_session_picker_event, handle_settings_event,
};
use crate::tui::prompts;
use crate::tui::prompts::{
    handle_agent_confirm_event, handle_agent_conflict_event, handle_guided_question_event,
    handle_permission_event, handle_undo_conflict_event, handle_update_event,
    handle_worktree_removal_event, AgentConfirmAction, AgentConflictEventOutcome,
    UndoConflictOutcome, UpdateEventOutcome,
};
use crate::tui::reduce;
use crate::tui::reduce::note;
use crate::tui::state::{AppState, Pickers, Screen};
use crate::tui::submission;
use crate::tui::submission::{LoopStep, Turn};

verus! {

/// Milliseconds within which a second Ctrl+C exits.
pub const DOUBLE_CTRL_C_MS: u64 = 600;

/// What an event led to.
#[derive(Debug, PartialEq, Eq)]
pub enum Reaction {
    /// Everything is decided: commands to send, and what the loop does next.
    Done(Turn),
    /// The composer submitted something that is still to be carried out.
    Submitted(ChatSubmission),
}

impl Reaction {
    /// Whether nothing is asked for.
    pub open spec fn is_quiet(self) -> bool {
        self matches Reaction::Done(t) && t.is_quiet()
    }

    /// Whether one command is sent and the loop goes on.
    pub open spec fn sends(self, command: AppCommand) -> bool {
        self matches Reaction::Done(t) && t.sends(command)
    }

    /// Whether the runtime is told to exit and the loop ends.
    pub open spec fn leaves(self) -> bool {
        self matches Reaction::Done(t) && t.leaves()
    }
}

fn quiet() -> (r: Reaction)
    ensures
        r.is_quiet(),
{
    Reaction::Done(Turn::quiet())
}

fn send(command: AppCommand) -> (r: Reaction)
    ensures
        r.sends(command),
{
    Reaction::Done(Turn::send(command))
}

/// Whether the `n` key of the `/agents` detail screen can still count its presses.
pub open spec fn can_count(s: AppState) -> bool {
    s.agent_panel.next_step_cursor < usize::MAX
}

// ---------------------------------------------------------------------------------------------
// The end of the chain: the composer, Esc, and an interrupt
// ---------------------------------------------------------------------------------------------

/// Whether Esc cancels the active request.
pub open spec fn cancels(s: AppState, event: Event) -> bool {
    &&& s.screen == Screen::Chat
    &&& !s.is_interrupted()
    &&& input::pressed(event) matches Some((code, _))
    &&& code == KeyCode::Esc
}

/// What an event does that no source took.
pub open spec fn ends(pre: AppState, post: AppState, event: Event, r: Reaction) -> bool {
    &&& post == pre
    &&& if cancels(pre, event) {
        r.sends(AppCommand::CancelProviderRequest)
    } else if input::is_interrupt(event) {
        r.leaves()
    } else {
        r.is_quiet()
    }
}

fn finish(state: &mut AppState, event: &Event) -> (r: Reaction)
    requires
        old(state).wf(),
    ensures
        final(state).wf(),
        ends(*old(state), *final(state), *event, r),
{
    if state.screen == Screen::Chat && !state.interrupted() {
        match input::key_press(event) {
            Some((code, _)) => {
                if code == KeyCode::Esc {
                    return send(AppCommand::CancelProviderRequest);
                }
            },
            None => {},
        }
    }
    match classify_event(event) {
        InputAction::Continue => quiet(),
        InputAction::Interrupt => Reaction::Done(Turn::leave()),
    }
}

/// What an event does once it reaches the composer.
#[verifier::opaque]
pub open spec fn from_chat(pre: AppState, post: AppState, event: Event, r: Reaction) -> bool {
    exists|mid: AppState, s: Option<ChatSubmission>|
        {
            &&& #[trigger] chat::chats(pre, mid, event, s)
            &&& match s {
                Some(submitted) => post == mid && r == Reaction::Submitted(submitted),
                None => ends(mid, post, event, r),
            }
        }
}

fn offer_chat(state: &mut AppState, event: &Event) -> (r: Reaction)
    requires
        old(state).wf(),
    ensures
        final(state).wf(),
        from_chat(*old(state), *final(state), *event, r),
{
    reveal(from_chat);
    match handle_chat_event(state, event) {
        Some(submitted) => Reaction::Submitted(submitted),
        None => finish(state, event),
    }
}

// ---------------------------------------------------------------------------------------------
// The popups
// ---------------------------------------------------------------------------------------------

/// What an event does once it reaches the `/agents` popup.
#[verifier::opaque]
pub open spec fn from_agents(pre: AppState, post: AppState, event: Event, r: Reaction) -> bool {
    exists|mid: AppState, o: AgentsEventOutcome|
        {
            &&& #[trigger] panels::agents_react(pre, mid, event, o)
            &&& match o {
                AgentsEventOutcome::NotHandled => from_chat(mid, post, event, r),
                AgentsEventOutcome::Handled => post == mid && r.is_quiet(),
                AgentsEventOutcome::Refresh => post == mid && r.sends(AppCommand::AgentList),
            }
        }
}

fn offer_agents(state: &mut AppState, event: &Event) -> (r: Reaction)
    requires
        old(state).wf(),
        can_count(*old(state)),
    ensures
        final(state).wf(),
        from_agents(*old(state), *final(state), *event, r),
{
    reveal(from_agents);
    match handle_agents_event(state, event) {
        AgentsEventOutcome::NotHandled => offer_chat(state, event),
        AgentsEventOutcome::Handled => quiet(),
        AgentsEventOutcome::Refresh => send(AppCommand::AgentList),
    }
}

/// What an event does once it reaches the `/mcp` popup.
#[verifier::opaque]
pub open spec fn from_mcp(pre: AppState, post: AppState, event: Event, r: Reaction) -> bool {
    exists|mid: AppState, o: McpEventOutcome|
        {
            &&& #[trigger] mcp::mcp_reacts(pre, mid, event, o)
            &&& match o {
                McpEventOutcome::NotHandled => from_agents(mid, post, event, r),
                McpEventOutcome::Handled => post == mid && r.is_quiet(),
                McpEventOutcome::Connect(name) => post == mid && r.sends(
                    AppCommand::McpConnect(name),
                ),
                McpEventOutcome::Disconnect(name) => post == mid && r.sends(
                    AppCommand::McpDisconnect(name),
                ),
                McpEventOutcome::AddServer { entry: server, api_key } => post == mid && r.sends(
                    AppCommand::McpAddServer { entry: server, api_key },
                ),
                McpEventOutcome::Authorize(name) => post == mid && r.sends(
                    AppCommand::McpAuthorize(name),
                ),
            }
        }
}

fn offer_mcp(state: &mut AppState, event: &Event) -> (r: Reaction)
    requires
        old(state).wf(),
        can_count(*old(state)),
    ensures
        final(state).wf(),
        from_mcp(*old(state), *final(state), *event, r),
{
    reveal(from_mcp);
    match handle_mcp_event(state, event) {
        McpEventOutcome::NotHandled => offer_agents(state, event),
        McpEventOutcome::Handled => quiet(),
        McpEventOutcome::Connect(name) => send(AppCommand::McpConnect(name)),
        McpEventOutcome::Disconnect(name) => send(AppCommand::McpDisconnect(name)),
        McpEventOutcome::AddServer { entry: server, api_key } => send(
            AppCommand::McpAddServer { entry: server, api_key },
        ),
        McpEventOutcome::Authorize(name) => send(AppCommand::McpAuthorize(name)),
    }
}

/// What an event does once it reaches the `/skills` popup.
#[verifier::opaque]
pub open spec fn from_skills(pre: AppState, post: AppState, event: Event, r: Reaction) -> bool {
    exists|mid: AppState, o: SkillsEventOutcome|
        {
            &&& #[trigger] panels::skills_react(pre, mid, event, o)
            &&& match o {
                SkillsEventOutcome::NotHandled => from_mcp(mid, post, event, r),
                SkillsEventOutcome::Handled => post == mid && r.is_quiet(),
                SkillsEventOutcome::ToggleSkill { name, enabled } => post == mid && r.sends(
                    AppCommand::SetSkillEnabled { name, enabled },
                ),
            }
        }
}

fn offer_skills(state: &mut AppState, event: &Event) -> (r: Reaction)
    requires
        old(state).wf(),
        can_count(*old(state)),
    ensures
        final(state).wf(),
        from_skills(*old(state), *final(state), *event, r),
{
    reveal(from_skills);
    match handle_skills_event(state, event) {
        SkillsEventOutcome::NotHandled => offer_mcp(state, event),
        SkillsEventOutcome::Handled => quiet(),
        SkillsEventOutcome::ToggleSkill { name, enabled } => send(
            AppCommand::SetSkillEnabled { name, enabled },
        ),
    }
}

/// What an event does once it reaches the `/help` popup.
#[verifier::opaque]
pub open spec fn from_help(pre: AppState, post: AppState, event: Event, r: Reaction) -> bool {
    exists|mid: AppState, taken: bool|
        {
            &&& #[trigger] panels::helps(pre, mid, event, taken)
            &&& if taken {
                post == mid && r.is_quiet()
            } else {
                from_skills(mid, post, event, r)
            }
        }
}

fn offer_help(state: &mut AppState, event: &Event) -> (r: Reaction)
    requires
        old(state).wf(),
        can_count(*old(state)),
    ensures
        final(state).wf(),
        from_help(*old(state), *final(state), *event, r),
{
    reveal(from_help);
    if handle_help_event(state, event) {
        quiet()
    } else {
        offer_skills(state, event)
    }
}

// ---------------------------------------------------------------------------------------------
// The permission mode and the pickers
// ---------------------------------------------------------------------------------------------

/// What an event does once it reaches the permission mode.
#[verifier::opaque]
pub open spec fn from_mode(pre: AppState, post: AppState, event: Event, r: Reaction) -> bool {
    exists|mid: AppState, mode: Option<crate::protocol::PermissionMode>|
        {
            &&& #[trigger] pickers::cycles(pre, mid, event, mode)
            &&& match mode {
                Some(m) => post == mid && r.sends(AppCommand::SetPermissionMode(m)),
                None => from_help(mid, post, event, r),
            }
        }
}

fn offer_mode(state: &mut AppState, event: &Event) -> (r: Reaction)
    requires
        old(state).wf(),
        can_count(*old(state)),
    ensures
        final(state).wf(),
        from_mode(*old(state), *final(state), *event, r),
{
    reveal(from_mode);
    match handle_permission_mode_event(state, event) {
        Some(mode) => send(AppCommand::SetPermissionMode(mode)),
        None => offer_help(state, event),
    }
}

/// What an event does once it reaches the session picker.
#[verifier::opaque]
pub open spec fn from_sessions(pre: AppState, post: AppState, event: Event, r: Reaction) -> bool {
    exists|mid: AppState, id: Option<String>|
        {
            &&& #[trigger] pickers::picks_session(pre, mid, event, id)
            &&& match id {
                Some(chosen) => post == mid && r.sends(AppCommand::ResumeSession(chosen)),
                None => from_mode(mid, post, event, r),
            }
        }
}

fn offer_sessions(state: &mut AppState, event: &Event) -> (r: Reaction)
    requires
        old(state).wf(),
        can_count(*old(state)),
    ensures
        final(state).wf(),
        from_sessions(*old(state), *final(state), *event, r),
{
    reveal(from_sessions);
    match handle_session_picker_event(state, event) {
        Some(id) => send(AppCommand::ResumeSession(id)),
        None => offer_mode(state, event),
    }
}

/// The state after the model of a `/model` flow was taken out of it.
pub open spec fn model_taken(s: AppState) -> AppState {
    AppState {
        pickers: Pickers { pending_model: None, model_flow_pending_effort: false, ..s.pickers },
        ..s
    }
}

/// What an event does once it reaches the effort picker. A model chosen just before goes to the
/// runtime first, whether the effort was confirmed or left as it is.
#[verifier::opaque]
pub open spec fn from_effort(pre: AppState, post: AppState, event: Event, r: Reaction) -> bool {
    exists|mid: AppState, effort: Option<Option<String>>|
        {
            &&& #[trigger] pickers::picks_effort(pre, mid, event, effort)
            &&& match (effort, mid.pickers.pending_model) {
                (Some(value), Some(model)) => {
                    &&& post == model_taken(mid)
                    &&& r matches Reaction::Done(t)
                    &&& t.step == LoopStep::Next
                    &&& t.commands@ == seq![
                        AppCommand::SelectModel(model),
                        AppCommand::SetReasoningEffort(value),
                    ]
                },
                (Some(value), None) => post == mid && r.sends(
                    AppCommand::SetReasoningEffort(value),
                ),
                (None, Some(model)) => if pre.screen == Screen::EffortPicker && mid.screen
                    != Screen::EffortPicker {
                    post == model_taken(mid) && r.sends(AppCommand::SelectModel(model))
                } else {
                    from_sessions(mid, post, event, r)
                },
                (None, None) => from_sessions(mid, post, event, r),
            }
        }
}

fn offer_effort(state: &mut AppState, event: &Event) -> (r: Reaction)
    requires
        old(state).wf(),
        can_count(*old(state)),
    ensures
        final(state).wf(),
        from_effort(*old(state), *final(state), *event, r),
{
    reveal(from_effort);
    let was_picking: bool = state.screen == Screen::EffortPicker;
    match handle_effort_picker_event(state, event) {
        Some(effort) => {
            let pending: Option<String> = state.pickers.pending_model.take();
            match pending {
                Some(model) => {
                    state.pickers.model_flow_pending_effort = false;
                    let mut commands: Vec<AppCommand> = Vec::new();
                    commands.push(AppCommand::SelectModel(model));
                    commands.push(AppCommand::SetReasoningEffort(effort));
                    assert(commands@ =~= seq![
                        AppCommand::SelectModel(model),
                        AppCommand::SetReasoningEffort(effort),
                    ]);
                    Reaction::Done(Turn { commands, step: LoopStep::Next })
                },
                None => send(AppCommand::SetReasoningEffort(effort)),
            }
        },
        None => {
            if was_picking && state.screen != Screen::EffortPicker {
                let pending: Option<String> = state.pickers.pending_model.take();
                match pending {
                    Some(model) => {
                        state.pickers.model_flow_pending_effort = false;
                        return send(AppCommand::SelectModel(model));
                    },
                    None => {},
                }
            }
            offer_sessions(state, event)
        },
    }
}

/// What an event does once it reaches the settings menu.
#[verifier::opaque]
pub open spec fn from_settings(pre: AppState, post: AppState, event: Event, r: Reaction) -> bool {
    exists|mid: AppState, taken: bool|
        {
            &&& #[trigger] pickers::picks_setting(pre, mid, event, taken)
            &&& if taken {
                post == mid && r.is_quiet()
            } else {
                from_effort(mid, post, event, r)
            }
        }
}

fn offer_settings(state: &mut AppState, event: &Event) -> (r: Reaction)
    requires
        old(state).wf(),
        can_count(*old(state)),
    ensures
        final(state).wf(),
        from_settings(*old(state), *final(state), *event, r),
{
    reveal(from_settings);
    if handle_settings_event(state, event) {
        quiet()
    } else {
        offer_effort(state, event)
    }
}

/// What an event does once it reaches the model picker. A key that leaves the picker is not
/// offered to the screen that it opens.
#[verifier::opaque]
pub open spec fn from_models(pre: AppState, post: AppState, event: Event, r: Reaction) -> bool {
    exists|mid: AppState, model: Option<String>|
        {
            &&& #[trigger] pickers::picks_model(pre, mid, event, model)
            &&& match model {
                Some(chosen) => post == mid && r.sends(AppCommand::SelectModel(chosen)),
                None => if pre.screen == Screen::ModelPicker && mid.screen != Screen::ModelPicker {
                    post == mid && r.is_quiet()
                } else {
                    from_settings(mid, post, event, r)
                },
            }
        }
}

fn offer_models(state: &mut AppState, event: &Event) -> (r: Reaction)
    requires
        old(state).wf(),
        can_count(*old(state)),
    ensures
        final(state).wf(),
        from_models(*old(state), *final(state), *event, r),
{
    reveal(from_models);
    let was_picking: bool = state.screen == Screen::ModelPicker;
    match handle_model_picker_event(state, event) {
        Some(model) => send(AppCommand::SelectModel(model)),
        None => {
            if was_picking && state.screen != Screen::ModelPicker {
                quiet()
            } else {
                offer_settings(state, event)
            }
        },
    }
}

/// What an event does once it reaches onboarding.
#[verifier::opaque]
pub open spec fn from_onboarding(pre: AppState, post: AppState, event: Event, r: Reaction) -> bool {
    exists|mid: AppState, credential: Option<String>|
        {
            &&& #[trigger] pickers::onboards(pre, mid, event, credential)
            &&& match credential {
                Some(entered) => post == mid && r.sends(AppCommand::SubmitCredential(entered)),
                None => from_models(mid, post, event, r),
            }
        }
}

fn offer_onboarding(state: &mut AppState, event: &Event) -> (r: Reaction)
    requires
        old(state).wf(),
        can_count(*old(state)),
    ensures
        final(state).wf(),
        from_onboarding(*old(state), *final(state), *event, r),
{
    reveal(from_onboarding);
    match handle_onboarding_event(state, event) {
        Some(credential) => send(AppCommand::SubmitCredential(credential)),
        None => offer_models(state, event),
    }
}

// ---------------------------------------------------------------------------------------------
// The prompts
// ---------------------------------------------------------------------------------------------

/// What an event does once it reaches the update popup.
#[verifier::opaque]
pub open spec fn from_update(pre: AppState, post: AppState, event: Event, r: Reaction) -> bool {
    exists|mid: AppState, o: UpdateEventOutcome|
        {
            &&& #[trigger] prompts::answers_update(pre, mid, event, o)
            &&& match o {
                UpdateEventOutcome::NotHandled => from_onboarding(mid, post, event, r),
                UpdateEventOutcome::Handled => post == mid && r.is_quiet(),
                UpdateEventOutcome::Accepted => post == mid && r.sends(AppCommand::AcceptUpdate),
                UpdateEventOutcome::Rejected => post == mid && r.sends(AppCommand::RejectUpdate),
                UpdateEventOutcome::RestartRequested => post == mid && r.sends(
                    AppCommand::RestartForUpdate,
                ),
            }
        }
}

fn offer_update(state: &mut AppState, event: &Event) -> (r: Reaction)
    requires
        old(state).wf(),
        can_count(*old(state)),
    ensures
        final(state).wf(),
        from_update(*old(state), *final(state), *event, r),
{
    reveal(from_update);
    match handle_update_event(state, event) {
        UpdateEventOutcome::NotHandled => offer_onboarding(state, event),
        UpdateEventOutcome::Handled => quiet(),
        UpdateEventOutcome::Accepted => send(AppCommand::AcceptUpdate),
        UpdateEventOutcome::Rejected => send(AppCommand::RejectUpdate),
        UpdateEventOutcome::RestartRequested => send(AppCommand::RestartForUpdate),
    }
}

/// Whether a message was added to the transcript and nothing is asked for.
pub open spec fn tells(pre: AppState, post: AppState, message: Seq<char>, r: Reaction) -> bool {
    &&& r.is_quiet()
    &&& reduce::only_entries(pre, post)
    &&& entry::adds_info(pre.transcript.entries@, post.transcript.entries@, message)
}

/// What an event does once it reaches an undo conflict.
#[verifier::opaque]
pub open spec fn from_undo(pre: AppState, post: AppState, event: Event, r: Reaction) -> bool {
    exists|mid: AppState, o: Option<UndoConflictOutcome>|
        {
            &&& #[trigger] prompts::answers_undo(pre, mid, event, o)
            &&& match o {
                Some(UndoConflictOutcome::Forced { direction, count }) => post == mid && r.sends(
                    if notes::is_redo(direction@) {
                        AppCommand::RedoForce(count)
                    } else {
                        AppCommand::UndoForce(count)
                    },
                ),
                Some(UndoConflictOutcome::Cancelled) => tells(mid, post, "Cancelled."@, r),
                Some(UndoConflictOutcome::DiffToggled) => post == mid && r.is_quiet(),
                None => from_update(mid, post, event, r),
            }
        }
}

fn offer_undo(state: &mut AppState, event: &Event) -> (r: Reaction)
    requires
        old(state).wf(),
        can_count(*old(state)),
    ensures
        final(state).wf(),
        from_undo(*old(state), *final(state), *event, r),
{
    reveal(from_undo);
    match handle_undo_conflict_event(state, event) {
        Some(UndoConflictOutcome::Forced { direction, count }) => {
            if same_text(direction.as_str(), "redo") {
                send(AppCommand::RedoForce(count))
            } else {
                send(AppCommand::UndoForce(count))
            }
        },
        Some(UndoConflictOutcome::Cancelled) => {
            note(&mut state.transcript.entries, "Cancelled.".to_owned());
            quiet()
        },
        Some(UndoConflictOutcome::DiffToggled) => quiet(),
        None => offer_update(state, event),
    }
}

/// What an event does once it reaches the conflict resolver.
#[verifier::opaque]
pub open spec fn from_resolver(pre: AppState, post: AppState, event: Event, r: Reaction) -> bool {
    exists|mid: AppState, o: AgentConflictEventOutcome|
        {
            &&& #[trigger] prompts::answers_resolver(pre, mid, event, o)
            &&& match o {
                AgentConflictEventOutcome::NotHandled => from_undo(mid, post, event, r),
                AgentConflictEventOutcome::Handled => post == mid && r.is_quiet(),
                AgentConflictEventOutcome::Resolve { id, file, ours } => post == mid && r.sends(
                    AppCommand::AgentResolveConflict { id, file, ours },
                ),
                AgentConflictEventOutcome::Finish(id) => post == mid && r.sends(
                    AppCommand::AgentFinishMerge(id),
                ),
                AgentConflictEventOutcome::Abort(id) => post == mid && r.sends(
                    AppCommand::AgentAbortMerge(id),
                ),
            }
        }
}

fn offer_resolver(state: &mut AppState, event: &Event) -> (r: Reaction)
    requires
        old(state).wf(),
        can_count(*old(state)),
    ensures
        final(state).wf(),
        from_resolver(*old(state), *final(state), *event, r),
{
    reveal(from_resolver);
    match handle_agent_conflict_event(state, event) {
        AgentConflictEventOutcome::NotHandled => offer_undo(state, event),
        AgentConflictEventOutcome::Handled => quiet(),
        AgentConflictEventOutcome::Resolve { id, file, ours } => send(
            AppCommand::AgentResolveConflict { id, file, ours },
        ),
        AgentConflictEventOutcome::Finish(id) => send(AppCommand::AgentFinishMerge(id)),
        AgentConflictEventOutcome::Abort(id) => send(AppCommand::AgentAbortMerge(id)),
    }
}

/// What an event does once it reaches a subagent confirmation.
#[verifier::opaque]
pub open spec fn from_confirm(pre: AppState, post: AppState, event: Event, r: Reaction) -> bool {
    exists|mid: AppState, o: Option<(AgentConfirmAction, bool)>|
        {
            &&& #[trigger] prompts::answers_confirm(pre, mid, event, o)
            &&& match o {
                Some((AgentConfirmAction::Apply(id), yes)) => if yes {
                    post == mid && r.sends(AppCommand::AgentApplyConfirm(id))
                } else {
                    tells(mid, post, "Cancelled applying subagent "@ + id@ + "."@, r)
                },
                Some((AgentConfirmAction::Cleanup(id), yes)) => if yes {
                    post == mid && r.sends(AppCommand::AgentCleanupConfirm(id))
                } else {
                    tells(mid, post, "Cancelled cleaning up subagent "@ + id@ + "."@, r)
                },
                None => from_resolver(mid, post, event, r),
            }
        }
}

fn offer_confirm(state: &mut AppState, event: &Event) -> (r: Reaction)
    requires
        old(state).wf(),
        can_count(*old(state)),
    ensures
        final(state).wf(),
        from_confirm(*old(state), *final(state), *event, r),
{
    reveal(from_confirm);
    match handle_agent_confirm_event(state, event) {
        Some((AgentConfirmAction::Apply(id), yes)) => {
            if yes {
                send(AppCommand::AgentApplyConfirm(id))
            } else {
                note(
                    &mut state.transcript.entries,
                    cat3("Cancelled applying subagent ", id.as_str(), "."),
                );
                quiet()
            }
        },
        Some((AgentConfirmAction::Cleanup(id), yes)) => {
            if yes {
                send(AppCommand::AgentCleanupConfirm(id))
            } else {
                note(
                    &mut state.transcript.entries,
                    cat3("Cancelled cleaning up subagent ", id.as_str(), "."),
                );
                quiet()
            }
        },
        None => offer_resolver(state, event),
    }
}

/// What an event does once it reaches a worktree removal.
#[verifier::opaque]
pub open spec fn from_removal(pre: AppState, post: AppState, event: Event, r: Reaction) -> bool {
    exists|mid: AppState, o: Option<(String, bool)>|
        {
            &&& #[trigger] prompts::answers_removal(pre, mid, event, o)
            &&& match o {
                Some((target, yes)) => if yes {
                    post == mid && r.sends(AppCommand::WorktreeRemove(target))
                } else {
                    tells(mid, post, "Cancelled removing worktree '"@ + target@ + "'."@, r)
                },
                None => from_confirm(mid, post, event, r),
            }
        }
}

fn offer_removal(state: &mut AppState, event: &Event) -> (r: Reaction)
    requires
        old(state).wf(),
        can_count(*old(state)),
    ensures
        final(state).wf(),
        from_removal(*old(state), *final(state), *event, r),
{
    reveal(from_removal);
    match handle_worktree_removal_event(state, event) {
        Some((target, yes)) => {
            if yes {
                send(AppCommand::WorktreeRemove(target))
            } else {
                note(
                    &mut state.transcript.entries,
                    cat3("Cancelled removing worktree '", target.as_str(), "'."),
                );
                quiet()
            }
        },
        None => offer_confirm(state, event),
    }
}

/// What an event does once it reaches a question of the model.
#[verifier::opaque]
pub open spec fn from_question(pre: AppState, post: AppState, event: Event, r: Reaction) -> bool {
    exists|mid: AppState, answer: Option<String>|
        {
            &&& #[trigger] prompts::answers_question(pre, mid, event, answer)
            &&& match answer {
                Some(given) => post == mid && r.sends(AppCommand::GuidedAnswer(given)),
                None => from_removal(mid, post, event, r),
            }
        }
}

fn offer_question(state: &mut AppState, event: &Event) -> (r: Reaction)
    requires
        old(state).wf(),
        can_count(*old(state)),
    ensures
        final(state).wf(),
        from_question(*old(state), *final(state), *event, r),
{
    reveal(from_question);
    match handle_guided_question_event(state, event) {
        Some(answer) => send(AppCommand::GuidedAnswer(answer)),
        None => offer_removal(state, event),
    }
}

/// What an event does once it reaches a permission prompt.
#[verifier::opaque]
pub open spec fn from_permission(pre: AppState, post: AppState, event: Event, r: Reaction) -> bool {
    exists|mid: AppState, choice: Option<crate::protocol::PermissionChoice>|
        {
            &&& #[trigger] prompts::answers_permission(pre, mid, event, choice)
            &&& match choice {
                Some(given) => post == mid && r.sends(AppCommand::PermissionResponse(given)),
                None => from_question(mid, post, event, r),
            }
        }
}

fn offer_permission(state: &mut AppState, event: &Event) -> (r: Reaction)
    requires
        old(state).wf(),
        can_count(*old(state)),
    ensures
        final(state).wf(),
        from_permission(*old(state), *final(state), *event, r),
{
    reveal(from_permission);
    match handle_permission_event(state, event) {
        Some(choice) => send(AppCommand::PermissionResponse(choice)),
        None => offer_question(state, event),
    }
}

// ---------------------------------------------------------------------------------------------
// The head of the chain
// ---------------------------------------------------------------------------------------------

/// Whether an event is Ctrl+C, whatever else is held.
pub open spec fn is_ctrl_c(event: Event) -> bool {
    input::pressed(event) matches Some((code, m)) && code == KeyCode::Char('c') && m.control
}

/// Whether an event interrupts the active run.
pub open spec fn interrupts(s: AppState, event: Event) -> bool {
    &&& s.transcript.activity is Some
    &&& input::pressed(event) matches Some((code, m))
    &&& keys::triggers(s.preferences.keymap@, KeyAction::InterruptExecution, code, m)
}

/// What Ctrl+C does: it copies a selection, exits when it was pressed a moment ago, and else says
/// how to exit.
pub open spec fn ctrl_c(
    pre: AppState,
    post: AppState,
    pressed_before: Option<u64>,
    pressed_after: Option<u64>,
    r: Reaction,
) -> bool {
    let again = pressed_before matches Some(at) && layout::left_over(
        pre.clock_ms as int,
        at as int,
    ) < DOUBLE_CTRL_C_MS;
    if pre.transcript.selection is Some {
        &&& post == pre
        &&& pressed_after == pressed_before
        &&& r matches Reaction::Done(t)
        &&& t.commands@.len() == 0
        &&& t.step == LoopStep::CopySelection
    } else if again {
        post == pre && pressed_after == pressed_before && r.leaves()
    } else {
        &&& pressed_after == Some(pre.clock_ms)
        &&& post == (AppState { status: post.status, ..pre })
        &&& post.status matches Some(told)
        &&& told@ == "Press Ctrl+C again to exit."@
        &&& r.is_quiet()
    }
}

fn on_ctrl_c(state: &mut AppState, last_ctrl_c: &mut Option<u64>) -> (r: Reaction)
    requires
        old(state).wf(),
    ensures
        final(state).wf(),
        ctrl_c(*old(state), *final(state), *old(last_ctrl_c), *final(last_ctrl_c), r),
{
    if state.transcript.selection.is_some() {
        return Reaction::Done(Turn { commands: Vec::new(), step: LoopStep::CopySelection });
    }
    match *last_ctrl_c {
        Some(at) => {
            if state.clock_ms.saturating_sub(at) < DOUBLE_CTRL_C_MS {
                return Reaction::Done(Turn::leave());
            }
        },
        None => {},
    }
    *last_ctrl_c = Some(state.clock_ms);
    state.status = Some("Press Ctrl+C again to exit.".to_owned());
    quiet()
}

/// What a mouse event leads to: releasing the left button copies the selection, and a right click
/// on the composer pastes.
pub open spec fn mouse_reaction(pre: AppState, e: MouseEvent, area: Rect, taken: bool) -> LoopStep {
    if mouse::asks_paste(pre, e, area) {
        LoopStep::PasteClipboard
    } else if taken && e.kind == MouseEventKind::Up(MouseButton::Left) {
        LoopStep::CopySelection
    } else {
        LoopStep::Next
    }
}

/// What a terminal event does. `pressed_before` and `pressed_after` are the clock readings of the
/// last Ctrl+C before and after the event.
pub open spec fn reacts(
    pre: AppState,
    post: AppState,
    event: Event,
    area: Rect,
    pressed_before: Option<u64>,
    pressed_after: Option<u64>,
    r: Reaction,
) -> bool {
    match event {
        Event::Resize(columns, rows) => {
            &&& post == pre
            &&& pressed_after == pressed_before
            &&& r.sends(AppCommand::Resize { columns, rows })
        },
        Event::Mouse(e) => {
            &&& pressed_after == pressed_before
            &&& r matches Reaction::Done(t)
            &&& t.commands@.len() == 0
            &&& exists|taken: bool| #[trigger]
                mouse::moused(pre, post, e, area, taken) && t.step == mouse_reaction(
                    pre,
                    e,
                    area,
                    taken,
                )
        },
        _ => if is_ctrl_c(event) {
            ctrl_c(pre, post, pressed_before, pressed_after, r)
        } else {
            &&& pressed_after == pressed_before
            &&& if interrupts(pre, event) {
                post == pre && r.sends(AppCommand::CancelProviderRequest)
            } else {
                from_permission(pre, post, event, r)
            }
        },
    }
}

fn on_mouse(state: &mut AppState, e: &MouseEvent, area: Rect) -> (r: Reaction)
    requires
        old(state).wf(),
    ensures
        final(state).wf(),
        ({
            &&& r matches Reaction::Done(t)
            &&& t.commands@.len() == 0
            &&& exists|taken: bool| #[trigger]
                mouse::moused(*old(state), *final(state), *e, area, taken) && t.step
                    == mouse_reaction(*old(state), *e, area, taken)
        }),
{
    let paste: bool = wants_clipboard_paste(state, e, area);
    let taken: bool = handle_mouse_event(state, e, area);
    let released: bool = match e.kind {
        MouseEventKind::Up(MouseButton::Left) => true,
        _ => false,
    };
    let step: LoopStep = if paste {
        LoopStep::PasteClipboard
    } else if taken && released {
        LoopStep::CopySelection
    } else {
        LoopStep::Next
    };
    Reaction::Done(Turn { commands: Vec::new(), step })
}

/// Reads one terminal event: routes it through every input source in order, and returns the
/// commands to send with what the loop does next, or a submission to carry out.
pub fn handle_terminal_event(
    state: &mut AppState,
    event: &Event,
    terminal_area: Rect,
    last_ctrl_c: &mut Option<u64>,
) -> (r: Reaction)
    requires
        old(state).wf(),
        can_count(*old(state)),
    ensures
        final(state).wf(),
        reacts(
            *old(state),
            *final(state),
            *event,
            terminal_area,
            *old(last_ctrl_c),
            *final(last_ctrl_c),
            r,
        ),
{
    match event {
        Event::Resize(columns, rows) => {
            return send(AppCommand::Resize { columns: *columns, rows: *rows });
        },
        Event::Mouse(e) => {
            return on_mouse(state, e, terminal_area);
        },
        _ => {},
    }
    match input::key_press(event) {
        Some((code, m)) => {
            if code == KeyCode::Char('c') && m.control {
                return on_ctrl_c(state, last_ctrl_c);
            }
            if state.transcript.activity.is_some() && key_action_matches(
                &state.preferences,
                KeyAction::InterruptExecution,
                code,
                m,
            ) {
                return send(AppCommand::CancelProviderRequest);
            }
        },
        None => {},
    }
    offer_permission(state, event)
}

// ---------------------------------------------------------------------------------------------
// Events from the runtime
// ---------------------------------------------------------------------------------------------

/// What an event from the runtime does: it is applied, a queued prompt that it released starts a
/// run, and an exit for an update ends the loop.
pub open spec fn absorbs(pre: AppState, post: AppState, event: AppEvent, t: Turn) -> bool {
    exists|mid: AppState, released: Option<String>|
        {
            let sent = match released {
                Some(prompt) => seq![AppCommand::SubmitChat(prompt)],
                None => Seq::empty(),
            };
            &&& #[trigger] reduce::applied(pre, mid, event, released)
            &&& match released {
                Some(prompt) => submission::runs(mid, post, prompt),
                None => post == mid,
            }
            &&& if mid.updates.exit_for_update {
                t.step == LoopStep::Exit && t.commands@ == sent.push(AppCommand::Exit)
            } else {
                t.step == LoopStep::Next && t.commands@ == sent
            }
        }
}

/// Applies one event from the runtime.
pub fn handle_app_event(state: &mut AppState, event: &AppEvent) -> (t: Turn)
    requires
        old(state).wf(),
        reduce::binds_once_at_most(*event),
        event matches AppEvent::ToolOutputChunk { id, chunk } ==> reduce::accepts_chunk(
            old(state).transcript.entries@,
            id@,
            chunk@,
        ),
    ensures
        final(state).wf(),
        absorbs(*old(state), *final(state), *event, t),
{
    let mut commands: Vec<AppCommand> = Vec::new();
    match state.apply(event) {
        Some(prompt) => {
            state.begin_run(prompt.clone());
            commands.push(AppCommand::SubmitChat(prompt));
            assert(commands@ =~= seq![AppCommand::SubmitChat(prompt)]);
        },
        None => {},
    }
    if state.updates.exit_for_update {
        commands.push(AppCommand::Exit);
        return Turn { commands, step: LoopStep::Exit };
    }
    Turn { commands, step: LoopStep::Next }
}

} // verus!
