//! The prompts that stand over the chat screen, and the update popup.

use vstd::prelude::*;

use crate::protocol::{KeyAction, PermissionChoice};
use crate::text;
use crate::tui::input;
use crate::tui::input::{Event, KeyCode, KeyModifiers};
use crate::tui::keys;
use crate::tui::keys::key_action_matches;
use crate::tui::mcp;
use crate::tui::mcp::select_below;
use crate::tui::state::{
    AppState, ConflictFileState, PendingAgentConfirm, PendingAgentConflict, PendingUndoConflict,
    Prompts, UpdatePrompt, UpdateStage, Updates,
};

verus! {

// ---------------------------------------------------------------------------------------------
// Permission
// ---------------------------------------------------------------------------------------------

/// The answer that a key gives to a permission prompt.
pub open spec fn permission_answer(pre: AppState, code: KeyCode, m: KeyModifiers) -> Option<
    PermissionChoice,
> {
    let keymap = pre.preferences.keymap@;
    if code == KeyCode::Char('1') || keys::triggers(keymap, KeyAction::Approve, code, m) || code
        == KeyCode::Enter {
        Some(PermissionChoice::AllowOnce)
    } else if code == KeyCode::Char('2') {
        Some(PermissionChoice::AllowAlways)
    } else if keys::triggers(keymap, KeyAction::Reject, code, m) || code == KeyCode::Esc {
        Some(PermissionChoice::Deny)
    } else {
        None
    }
}

/// What a terminal event does to a pending permission prompt.
pub open spec fn answers_permission(pre: AppState, post: AppState, event: Event, r: Option<PermissionChoice>) -> bool {
    &&& r == (match input::pressed(event) {
        Some((code, m)) => if pre.prompts.pending_permission is Some {
            permission_answer(pre, code, m)
        } else {
            None
        },
        None => None,
    })
    &&& post == (if r is Some {
        AppState {
            prompts: Prompts { pending_permission: None, ..pre.prompts },
            ..pre
        }
    } else {
        pre
    })
}

/// Applies confirmation keys to a pending permission prompt.
///
/// Returns the user's choice, clearing the prompt, or nothing where the key gives no answer.
#[must_use]
pub fn handle_permission_event(state: &mut AppState, event: &Event) -> (r: Option<
    PermissionChoice,
>)
    requires
        old(state).wf(),
    ensures
        final(state).wf(),
        answers_permission(*old(state), *final(state), *event, r),
{
    if state.prompts.pending_permission.is_none() {
        return None;
    }
    let (code, m) = match input::key_press(event) {
        Some(press) => press,
        None => {
            return None;
        },
    };
    let choice: Option<PermissionChoice> = if code == KeyCode::Char('1') || key_action_matches(
        &state.preferences,
        KeyAction::Approve,
        code,
        m,
    ) || code == KeyCode::Enter {
        Some(PermissionChoice::AllowOnce)
    } else if code == KeyCode::Char('2') {
        Some(PermissionChoice::AllowAlways)
    } else if key_action_matches(&state.preferences, KeyAction::Reject, code, m) || code
        == KeyCode::Esc {
        Some(PermissionChoice::Deny)
    } else {
        None
    };
    if choice.is_some() {
        state.prompts.pending_permission = None;
    }
    choice
}

// ---------------------------------------------------------------------------------------------
// Guided question
// ---------------------------------------------------------------------------------------------

/// What a key does to an open question. Enter answers with the selected choice's label; Escape
/// answers that nothing was selected.
pub open spec fn question_key(
    pre: Prompts,
    post: Prompts,
    code: KeyCode,
    r: Option<String>,
) -> bool {
    match pre.pending_guided_question {
        Some(q) => {
            let count = q.choices@.len();
            if count > 0 && (code == KeyCode::Up || code == KeyCode::Char('k')) {
                &&& r is None
                &&& post == (Prompts {
                    selected_guided_choice: mcp::less(
                        pre.selected_guided_choice as int,
                        1,
                    ) as usize,
                    ..pre
                })
            } else if count > 0 && (code == KeyCode::Down || code == KeyCode::Char('j')) {
                &&& r is None
                &&& post == (Prompts {
                    selected_guided_choice: mcp::row_below(
                        pre.selected_guided_choice as int,
                        count as int,
                    ) as usize,
                    ..pre
                })
            } else if count > 0 && code == KeyCode::Enter {
                &&& r == Some(q.choices@[pre.selected_guided_choice as int].label)
                &&& post == (Prompts { pending_guided_question: None, ..pre })
            } else if code == KeyCode::Esc {
                &&& text::opt_text(r) == Some(
                    "No option selected; the user cancelled this decision."@,
                )
                &&& post == (Prompts { pending_guided_question: None, ..pre })
            } else {
                r is None && post == pre
            }
        },
        None => r is None && post == pre,
    }
}

fn on_question_key(p: &mut Prompts, code: KeyCode) -> (r: Option<String>)
    requires
        old(p).wf(),
    ensures
        final(p).wf(),
        question_key(*old(p), *final(p), code, r),
{
    let count: usize = match &p.pending_guided_question {
        Some(q) => q.choices.len(),
        None => {
            return None;
        },
    };
    if count > 0 && (code == KeyCode::Up || code == KeyCode::Char('k')) {
        p.selected_guided_choice = p.selected_guided_choice.saturating_sub(1);
        None
    } else if count > 0 && (code == KeyCode::Down || code == KeyCode::Char('j')) {
        p.selected_guided_choice = select_below(p.selected_guided_choice, count);
        None
    } else if count > 0 && code == KeyCode::Enter {
        let answer: Option<String> = match &p.pending_guided_question {
            Some(q) => Some(q.choices[p.selected_guided_choice].label.clone()),
            None => None,
        };
        p.pending_guided_question = None;
        answer
    } else if code == KeyCode::Esc {
        p.pending_guided_question = None;
        Some("No option selected; the user cancelled this decision.".to_owned())
    } else {
        None
    }
}

/// What a terminal event does to a pending question.
pub open spec fn answers_question(pre: AppState, post: AppState, event: Event, r: Option<String>) -> bool {
    &&& post == (AppState { prompts: post.prompts, ..pre })
    &&& match input::pressed(event) {
        Some((code, _)) => question_key(pre.prompts, post.prompts, code, r),
        None => r is None && post == pre,
    }
}

/// Applies navigation and confirmation keys to a model-requested decision card.
#[must_use]
pub fn handle_guided_question_event(state: &mut AppState, event: &Event) -> (r: Option<String>)
    requires
        old(state).wf(),
    ensures
        final(state).wf(),
        answers_question(*old(state), *final(state), *event, r),
{
    match input::key_press(event) {
        Some((code, _)) => on_question_key(&mut state.prompts, code),
        None => None,
    }
}

// ---------------------------------------------------------------------------------------------
// Yes/No confirmations
// ---------------------------------------------------------------------------------------------

/// The answer that a key gives to a Yes/No confirmation.
pub open spec fn yes_no(code: KeyCode) -> Option<bool> {
    if code == KeyCode::Char('y') || code == KeyCode::Char('Y') || code == KeyCode::Enter {
        Some(true)
    } else if code == KeyCode::Char('n') || code == KeyCode::Char('N') || code == KeyCode::Esc {
        Some(false)
    } else {
        None
    }
}

/// Reads the answer that a key gives to a Yes/No confirmation.
pub fn read_yes_no(code: KeyCode) -> (r: Option<bool>)
    ensures
        r == yes_no(code),
{
    if code == KeyCode::Char('y') || code == KeyCode::Char('Y') || code == KeyCode::Enter {
        Some(true)
    } else if code == KeyCode::Char('n') || code == KeyCode::Char('N') || code == KeyCode::Esc {
        Some(false)
    } else {
        None
    }
}

/// The answer that an event gives to a Yes/No confirmation.
pub open spec fn event_yes_no(event: Event) -> Option<bool> {
    match input::pressed(event) {
        Some((code, _)) => yes_no(code),
        None => None,
    }
}

fn read_event_yes_no(event: &Event) -> (r: Option<bool>)
    ensures
        r == event_yes_no(*event),
{
    match input::key_press(event) {
        Some((code, _)) => read_yes_no(code),
        None => None,
    }
}

/// What a terminal event does to a pending removal of a worktree.
pub open spec fn answers_removal(pre: AppState, post: AppState, event: Event, r: Option<(String, bool)>) -> bool {
    &&& match (pre.prompts.pending_worktree_removal, event_yes_no(event)) {
        (Some(target), Some(yes)) => {
            &&& r == Some((target, yes))
            &&& post == (AppState {
                prompts: Prompts { pending_worktree_removal: None, ..pre.prompts },
                ..pre
            })
        },
        _ => r is None && post == pre,
    }
}

/// Applies Y/N confirmation keys to a pending `/worktree remove` prompt.
///
/// Returns the removal target together with `true` on confirmation or `false` on cancellation,
/// clearing the prompt either way.
#[must_use]
pub fn handle_worktree_removal_event(state: &mut AppState, event: &Event) -> (r: Option<
    (String, bool),
>)
    requires
        old(state).wf(),
    ensures
        final(state).wf(),
        answers_removal(*old(state), *final(state), *event, r),
{
    match read_event_yes_no(event) {
        Some(yes) => {
            let target: Option<String> = state.prompts.pending_worktree_removal.take();
            match target {
                Some(target) => Some((target, yes)),
                None => None,
            }
        },
        None => None,
    }
}

/// Which pending `/agent` action an answer refers to.
#[derive(Clone, Debug, PartialEq, Eq)]
pub enum AgentConfirmAction {
    /// Merge the subagent's worktree branch.
    Apply(String),
    /// Remove the subagent's worktree and metadata.
    Cleanup(String),
}

/// The action that a confirmation is about.
pub open spec fn confirmed_action(pending: PendingAgentConfirm) -> AgentConfirmAction {
    match pending {
        PendingAgentConfirm::Apply { id, .. } => AgentConfirmAction::Apply(id),
        PendingAgentConfirm::Cleanup { id, .. } => AgentConfirmAction::Cleanup(id),
    }
}

/// What a terminal event does to a pending confirmation.
pub open spec fn answers_confirm(pre: AppState, post: AppState, event: Event, r: Option<(AgentConfirmAction, bool)>) -> bool {
    &&& match (pre.prompts.pending_agent_confirm, event_yes_no(event)) {
        (Some(pending), Some(yes)) => {
            &&& r == Some((confirmed_action(pending), yes))
            &&& post == (AppState {
                prompts: Prompts { pending_agent_confirm: None, ..pre.prompts },
                ..pre
            })
        },
        _ => r is None && post == pre,
    }
}

/// Applies Y/N confirmation keys to a pending `/agent apply` or `/agent cleanup` prompt.
///
/// Returns the action together with `true` on confirmation or `false` on cancellation, clearing
/// the prompt either way.
#[must_use]
pub fn handle_agent_confirm_event(state: &mut AppState, event: &Event) -> (r: Option<
    (AgentConfirmAction, bool),
>)
    requires
        old(state).wf(),
    ensures
        final(state).wf(),
        answers_confirm(*old(state), *final(state), *event, r),
{
    match read_event_yes_no(event) {
        Some(yes) => {
            let pending: Option<PendingAgentConfirm> = state.prompts.pending_agent_confirm.take();
            match pending {
                Some(PendingAgentConfirm::Apply { id, .. }) => Some(
                    (AgentConfirmAction::Apply(id), yes),
                ),
                Some(PendingAgentConfirm::Cleanup { id, .. }) => Some(
                    (AgentConfirmAction::Cleanup(id), yes),
                ),
                None => None,
            }
        },
        None => None,
    }
}

// ---------------------------------------------------------------------------------------------
// Merge conflicts
// ---------------------------------------------------------------------------------------------

/// Outcome of dispatching a terminal event to the guided `/agent apply` conflict resolver.
#[derive(Clone, Debug, PartialEq, Eq)]
pub enum AgentConflictEventOutcome {
    /// The resolver isn't shown, or the event isn't one it cares about.
    NotHandled,
    /// The event was consumed by the resolver with no further side effect.
    Handled,
    /// Keep one side of the conflict for `file` and stage it.
    Resolve { id: String, file: String, ours: bool },
    /// Every file is resolved; complete the merge.
    Finish(String),
    /// Abort the in-progress merge, discarding every resolution made so far.
    Abort(String),
}

/// Whether every file has a side chosen.
pub open spec fn all_resolved(files: Seq<ConflictFileState>) -> bool {
    forall|i: int| 0 <= i < files.len() ==> (#[trigger] files[i]).resolution is Some
}

/// Tests whether every file has a side chosen.
pub fn is_all_resolved(files: &Vec<ConflictFileState>) -> (r: bool)
    ensures
        r == all_resolved(files@),
{
    let mut i: usize = 0;
    while i < files.len()
        invariant
            i <= files@.len(),
            forall|j: int| 0 <= j < i ==> (#[trigger] files@[j]).resolution is Some,
        decreases files@.len() - i,
    {
        if files[i].resolution.is_none() {
            return false;
        }
        i = i + 1;
    }
    true
}

/// What a key does on the resolver. No key records a resolution: that waits for the confirmation
/// that the file was staged.
pub open spec fn resolver_key(
    pre: PendingAgentConflict,
    post: PendingAgentConflict,
    code: KeyCode,
    r: AgentConflictEventOutcome,
) -> bool {
    let on_row = pre.selected < pre.files@.len();
    let file = pre.files@[pre.selected as int].path;
    match code {
        KeyCode::Up => r is Handled && post == (PendingAgentConflict {
            selected: mcp::less(pre.selected as int, 1) as usize,
            ..pre
        }),
        KeyCode::Down => r is Handled && post == (PendingAgentConflict {
            selected: mcp::row_below(pre.selected as int, pre.files@.len() as int) as usize,
            ..pre
        }),
        KeyCode::Char('o') | KeyCode::Char('O') => post == pre && if on_row {
            r == (AgentConflictEventOutcome::Resolve { id: pre.id, file, ours: true })
        } else {
            r is Handled
        },
        KeyCode::Char('t') | KeyCode::Char('T') => post == pre && if on_row {
            r == (AgentConflictEventOutcome::Resolve { id: pre.id, file, ours: false })
        } else {
            r is Handled
        },
        KeyCode::Enter => post == pre && if all_resolved(pre.files@) {
            r == AgentConflictEventOutcome::Finish(pre.id)
        } else {
            r is Handled
        },
        KeyCode::Esc | KeyCode::Char('c') | KeyCode::Char('C') => post == pre && r
            == AgentConflictEventOutcome::Abort(pre.id),
        _ => post == pre && r is Handled,
    }
}

fn keep_side(p: &PendingAgentConflict, ours: bool) -> (r: AgentConflictEventOutcome)
    ensures
        if p.selected < p.files@.len() {
            r == (AgentConflictEventOutcome::Resolve {
                id: p.id,
                file: p.files@[p.selected as int].path,
                ours,
            })
        } else {
            r is Handled
        },
{
    if p.selected < p.files.len() {
        AgentConflictEventOutcome::Resolve {
            id: p.id.clone(),
            file: p.files[p.selected].path.clone(),
            ours,
        }
    } else {
        AgentConflictEventOutcome::Handled
    }
}

fn on_resolver_key(p: &mut PendingAgentConflict, code: KeyCode) -> (r: AgentConflictEventOutcome)
    requires
        old(p).selected < usize::MAX,
    ensures
        final(p).selected < usize::MAX,
        resolver_key(*old(p), *final(p), code, r),
{
    match code {
        KeyCode::Up => {
            p.selected = p.selected.saturating_sub(1);
        },
        KeyCode::Down => {
            p.selected = select_below(p.selected, p.files.len());
        },
        KeyCode::Char('o') | KeyCode::Char('O') => {
            return keep_side(p, true);
        },
        KeyCode::Char('t') | KeyCode::Char('T') => {
            return keep_side(p, false);
        },
        KeyCode::Enter => {
            if is_all_resolved(&p.files) {
                return AgentConflictEventOutcome::Finish(p.id.clone());
            }
        },
        KeyCode::Esc | KeyCode::Char('c') | KeyCode::Char('C') => {
            return AgentConflictEventOutcome::Abort(p.id.clone());
        },
        _ => {},
    }
    AgentConflictEventOutcome::Handled
}

/// What a terminal event does to the conflict resolver.
pub open spec fn answers_resolver(pre: AppState, post: AppState, event: Event, r: AgentConflictEventOutcome) -> bool {
    &&& match (pre.prompts.pending_agent_conflict, input::pressed(event)) {
        (Some(before), Some((code, _))) => {
            &&& post.prompts.pending_agent_conflict matches Some(after)
            &&& post == (AppState {
                prompts: Prompts { pending_agent_conflict: Some(after), ..pre.prompts },
                ..pre
            })
            &&& resolver_key(before, after, code, r)
        },
        _ => r is NotHandled && post == pre,
    }
}

/// Applies navigation and resolution keys to the guided `/agent apply` conflict resolver:
/// Up/Down to move the selection, `o`/`t` to keep our/their side of the selected file, Enter to
/// finish once every file is resolved, Esc/`c` to abort the merge entirely.
///
/// Returns `NotHandled` when the resolver isn't shown or the event isn't a key press.
#[must_use]
pub fn handle_agent_conflict_event(state: &mut AppState, event: &Event) -> (r:
    AgentConflictEventOutcome)
    requires
        old(state).wf(),
    ensures
        final(state).wf(),
        answers_resolver(*old(state), *final(state), *event, r),
{
    let code: KeyCode = match input::key_press(event) {
        Some((code, _)) => code,
        None => {
            return AgentConflictEventOutcome::NotHandled;
        },
    };
    let pending: Option<PendingAgentConflict> = state.prompts.pending_agent_conflict.take();
    match pending {
        Some(mut conflict) => {
            let outcome: AgentConflictEventOutcome = on_resolver_key(&mut conflict, code);
            state.prompts.pending_agent_conflict = Some(conflict);
            outcome
        },
        None => AgentConflictEventOutcome::NotHandled,
    }
}

// ---------------------------------------------------------------------------------------------
// Undo conflicts
// ---------------------------------------------------------------------------------------------

/// Outcome of dispatching a terminal event to a pending `/undo`/`/redo` conflict prompt.
#[derive(Clone, Debug, PartialEq, Eq)]
pub enum UndoConflictOutcome {
    /// The user cancelled; nothing further was applied.
    Cancelled,
    /// The user toggled the inline diff; the prompt stays open.
    DiffToggled,
    /// The user forced the transaction through despite the conflict.
    Forced {
        /// `"undo"` or `"redo"`.
        direction: String,
        /// The transaction count to resend, force flag on.
        count: usize,
    },
}

/// What a key does to the conflict prompt.
pub open spec fn conflict_key(
    pre: PendingUndoConflict,
    post: Option<PendingUndoConflict>,
    code: KeyCode,
    r: Option<UndoConflictOutcome>,
) -> bool {
    match code {
        KeyCode::Char('f') | KeyCode::Char('F') => {
            &&& post is None
            &&& r == Some(
                UndoConflictOutcome::Forced { direction: pre.direction, count: pre.count },
            )
        },
        KeyCode::Char('d') | KeyCode::Char('D') => {
            &&& post == Some(PendingUndoConflict { show_diff: !pre.show_diff, ..pre })
            &&& r == Some(UndoConflictOutcome::DiffToggled)
        },
        KeyCode::Char('c') | KeyCode::Char('C') | KeyCode::Esc => post is None && r == Some(
            UndoConflictOutcome::Cancelled,
        ),
        _ => post == Some(pre) && r is None,
    }
}

/// What a terminal event does to a pending undo conflict.
pub open spec fn answers_undo(pre: AppState, post: AppState, event: Event, r: Option<UndoConflictOutcome>) -> bool {
    &&& match (pre.prompts.pending_undo_conflict, input::pressed(event)) {
        (Some(before), Some((code, _))) => {
            let after = post.prompts.pending_undo_conflict;
            &&& post == (AppState {
                prompts: Prompts { pending_undo_conflict: after, ..pre.prompts },
                ..pre
            })
            &&& conflict_key(before, after, code, r)
        },
        _ => r is None && post == pre,
    }
}

/// Applies force/diff/cancel keys to a pending `/undo`/`/redo` conflict prompt.
#[must_use]
pub fn handle_undo_conflict_event(state: &mut AppState, event: &Event) -> (r: Option<
    UndoConflictOutcome,
>)
    requires
        old(state).wf(),
    ensures
        final(state).wf(),
        answers_undo(*old(state), *final(state), *event, r),
{
    let code: KeyCode = match input::key_press(event) {
        Some((code, _)) => code,
        None => {
            return None;
        },
    };
    let pending: Option<PendingUndoConflict> = state.prompts.pending_undo_conflict.take();
    match pending {
        Some(mut prompt) => match code {
            KeyCode::Char('f') | KeyCode::Char('F') => Some(
                UndoConflictOutcome::Forced { direction: prompt.direction, count: prompt.count },
            ),
            KeyCode::Char('d') | KeyCode::Char('D') => {
                prompt.show_diff = !prompt.show_diff;
                state.prompts.pending_undo_conflict = Some(prompt);
                Some(UndoConflictOutcome::DiffToggled)
            },
            KeyCode::Char('c') | KeyCode::Char('C') | KeyCode::Esc => Some(
                UndoConflictOutcome::Cancelled,
            ),
            _ => {
                state.prompts.pending_undo_conflict = Some(prompt);
                None
            },
        },
        None => None,
    }
}

// ---------------------------------------------------------------------------------------------
// Updates
// ---------------------------------------------------------------------------------------------

/// Outcome of dispatching a terminal event to the update popup.
#[derive(Clone, Copy, Debug, PartialEq, Eq, Structural)]
pub enum UpdateEventOutcome {
    /// The popup is not shown, or the event isn't one it cares about.
    NotHandled,
    /// The event was consumed by the popup with no further side effect.
    Handled,
    /// The user chose to install the update; download and staging should begin.
    Accepted,
    /// The user declined; nothing more to do this run.
    Rejected,
    /// The user confirmed the "Completed" screen; the update should now be installed and the
    /// application restarted.
    RestartRequested,
}

/// Whether a popup moved to the download screen, with no percentage known yet.
pub open spec fn starts_download(pre: Updates, post: Updates) -> bool {
    &&& pre.pending_update matches Some(before)
    &&& post.pending_update matches Some(after)
    &&& post == (Updates { pending_update: Some(after), ..pre })
    &&& after == (UpdatePrompt { stage: after.stage, ..before })
    &&& after.stage matches UpdateStage::Downloading { percent: None, message }
    &&& message@ == "Downloading update…"@
}

/// What a key does on the update popup.
pub open spec fn update_key(
    pre: Updates,
    post: Updates,
    code: KeyCode,
    r: UpdateEventOutcome,
) -> bool {
    let closed = Updates { pending_update: None, ..pre };
    let confirms = code == KeyCode::Enter || code == KeyCode::Esc || code == KeyCode::Char(' ');
    match pre.pending_update {
        None => r == UpdateEventOutcome::NotHandled && post == pre,
        Some(prompt) => match prompt.stage {
            UpdateStage::Prompt => if code == KeyCode::Left || code == KeyCode::Right || code
                == KeyCode::Tab || code == KeyCode::BackTab {
                &&& r == UpdateEventOutcome::Handled
                &&& post == (Updates { update_selected_no: !pre.update_selected_no, ..pre })
            } else if code == KeyCode::Char('y') || code == KeyCode::Char('Y') || (code
                == KeyCode::Enter && !pre.update_selected_no) {
                r == UpdateEventOutcome::Accepted && starts_download(pre, post)
            } else if code == KeyCode::Char('n') || code == KeyCode::Char('N') || code
                == KeyCode::Esc || code == KeyCode::Enter {
                r == UpdateEventOutcome::Rejected && post == closed
            } else {
                r == UpdateEventOutcome::Handled && post == pre
            },
            UpdateStage::Downloading { .. } => r == UpdateEventOutcome::Handled && post == pre,
            UpdateStage::Completed { .. } => post == pre && r == (if confirms {
                UpdateEventOutcome::RestartRequested
            } else {
                UpdateEventOutcome::Handled
            }),
            UpdateStage::Failed(_) => r == UpdateEventOutcome::Handled && post == (if confirms {
                closed
            } else {
                pre
            }),
        },
    }
}

impl Updates {
    /// Switches the update popup to the download-progress screen the instant the user accepts.
    pub fn begin_update_download(&mut self)
        ensures
            match old(self).pending_update {
                Some(_) => starts_download(*old(self), *final(self)),
                None => *final(self) == *old(self),
            },
    {
        match &mut self.pending_update {
            Some(prompt) => {
                prompt.stage = UpdateStage::Downloading {
                    percent: None,
                    message: "Downloading update…".to_owned(),
                };
            },
            None => {},
        }
    }
}

fn on_update_key(u: &mut Updates, code: KeyCode) -> (r: UpdateEventOutcome)
    ensures
        update_key(*old(u), *final(u), code, r),
{
    let confirms: bool = code == KeyCode::Enter || code == KeyCode::Esc || code == KeyCode::Char(
        ' ',
    );
    match &u.pending_update {
        None => UpdateEventOutcome::NotHandled,
        Some(prompt) => {
            match &prompt.stage {
                UpdateStage::Prompt => {
                    if code == KeyCode::Left || code == KeyCode::Right || code == KeyCode::Tab
                        || code == KeyCode::BackTab {
                        u.update_selected_no = !u.update_selected_no;
                        UpdateEventOutcome::Handled
                    } else if code == KeyCode::Char('y') || code == KeyCode::Char('Y') || (code
                        == KeyCode::Enter && !u.update_selected_no) {
                        u.begin_update_download();
                        UpdateEventOutcome::Accepted
                    } else if code == KeyCode::Char('n') || code == KeyCode::Char('N') || code
                        == KeyCode::Esc || code == KeyCode::Enter {
                        u.pending_update = None;
                        UpdateEventOutcome::Rejected
                    } else {
                        UpdateEventOutcome::Handled
                    }
                },
                UpdateStage::Downloading { .. } => UpdateEventOutcome::Handled,
                UpdateStage::Completed { .. } => {
                    if confirms {
                        UpdateEventOutcome::RestartRequested
                    } else {
                        UpdateEventOutcome::Handled
                    }
                },
                UpdateStage::Failed(_) => {
                    if confirms {
                        u.pending_update = None;
                    }
                    UpdateEventOutcome::Handled
                },
            }
        },
    }
}

/// What a terminal event does to the update popup.
pub open spec fn answers_update(pre: AppState, post: AppState, event: Event, r: UpdateEventOutcome) -> bool {
    &&& post == (AppState { updates: post.updates, ..pre })
    &&& match input::pressed(event) {
        Some((code, _)) => update_key(pre.updates, post.updates, code, r),
        None => r == UpdateEventOutcome::NotHandled && post == pre,
    }
}

/// Drives the update popup: the Yes/No prompt, the (non-interactive) download progress screen,
/// and the Completed/Failed screens' Close button.
pub fn handle_update_event(state: &mut AppState, event: &Event) -> (r: UpdateEventOutcome)
    requires
        old(state).wf(),
    ensures
        final(state).wf(),
        answers_update(*old(state), *final(state), *event, r),
{
    match input::key_press(event) {
        Some((code, _)) => on_update_key(&mut state.updates, code),
        None => UpdateEventOutcome::NotHandled,
    }
}

// ---------------------------------------------------------------------------------------------
// Laws
// ---------------------------------------------------------------------------------------------

/// A merge can be finished only when a side was chosen for every file.
pub proof fn law_merge_finishes_only_when_resolved(
    pre: PendingAgentConflict,
    post: PendingAgentConflict,
    code: KeyCode,
    r: AgentConflictEventOutcome,
)
    requires
        resolver_key(pre, post, code, r),
    ensures
        r is Finish ==> all_resolved(pre.files@),
        post.files == pre.files,
        post.id == pre.id,
{
}

/// An update is accepted only by an explicit yes on the prompt screen.
pub proof fn law_update_needs_an_explicit_yes(
    pre: Updates,
    post: Updates,
    code: KeyCode,
    r: UpdateEventOutcome,
)
    requires
        update_key(pre, post, code, r),
        r == UpdateEventOutcome::Accepted,
    ensures
        pre.pending_update matches Some(p) && p.stage is Prompt,
        code == KeyCode::Char('y') || code == KeyCode::Char('Y') || code == KeyCode::Enter,
        code == KeyCode::Enter ==> !pre.update_selected_no,
{
}

/// The conflict resolver never shows a file as resolved by itself: whatever key is pressed, the list
/// of files stays as the runtime reported it.
pub proof fn law_only_the_runtime_resolves_a_file(
    pre: AppState,
    post: AppState,
    event: Event,
    r: AgentConflictEventOutcome,
)
    requires
        answers_resolver(pre, post, event, r),
    ensures
        match (pre.prompts.pending_agent_conflict, post.prompts.pending_agent_conflict) {
            (Some(before), Some(after)) => before.id == after.id && before.files == after.files,
            (None, None) => true,
            _ => false,
        },
{
}

/// Nothing is allowed but by a key that allows it: 1, 2 and Enter, and the key bound to approving.
/// Nothing is asked any more once it was answered, and a key that gives no answer changes nothing.
pub proof fn law_only_a_key_that_allows_allows(
    pre: AppState,
    post: AppState,
    event: Event,
    code: KeyCode,
    m: KeyModifiers,
    r: Option<PermissionChoice>,
)
    requires
        answers_permission(pre, post, event, r),
        input::pressed(event) == Some((code, m)),
        pre.prompts.pending_permission is Some,
    ensures
        ({
            let approves = keys::triggers(pre.preferences.keymap@, KeyAction::Approve, code, m);
            let rejects = keys::triggers(pre.preferences.keymap@, KeyAction::Reject, code, m);
            &&& r == Some(PermissionChoice::AllowOnce) <==> approves || code == KeyCode::Char('1')
                || code == KeyCode::Enter
            &&& r == Some(PermissionChoice::AllowAlways) <==> !approves && code == KeyCode::Char('2')
            &&& code == KeyCode::Esc && !approves ==> r == Some(PermissionChoice::Deny)
            &&& rejects && !approves && code != KeyCode::Char('1') && code != KeyCode::Char('2')
                && code != KeyCode::Enter ==> r == Some(PermissionChoice::Deny)
            &&& r is Some ==> post.prompts.pending_permission is None
            &&& r is None ==> post == pre
        }),
{
}

/// A question is answered by the selected choice. A step down and a step up undo each other, whether
/// by the arrows or by letters, and Escape answers that nothing was selected.
pub proof fn law_a_question_is_answered_by_the_selected_choice(
    a: Prompts,
    b: Prompts,
    c: Prompts,
    down: KeyCode,
    up: KeyCode,
    r: Option<String>,
)
    requires
        a.pending_guided_question is Some,
        a.selected_guided_choice < a.pending_guided_question->0.choices@.len(),
        a.selected_guided_choice < usize::MAX,
        down == KeyCode::Down || down == KeyCode::Char('j'),
        up == KeyCode::Up || up == KeyCode::Char('k'),
    ensures
        question_key(a, b, KeyCode::Enter, r) ==> r == Some(
            a.pending_guided_question->0.choices@[a.selected_guided_choice as int].label,
        ) && b.pending_guided_question is None,
        question_key(a, b, KeyCode::Esc, r) ==> r is Some && b.pending_guided_question is None,
        question_key(a, b, down, None) && a.selected_guided_choice + 1
            < a.pending_guided_question->0.choices@.len() ==> b.selected_guided_choice
            == a.selected_guided_choice + 1,
        question_key(a, b, down, None) && question_key(b, c, up, None) && a.selected_guided_choice
            + 1 < a.pending_guided_question->0.choices@.len() ==> c == a,
{
}

/// A confirmation is given by `y` or Enter and refused by `n` or Escape, in either case of the
/// letter; no other key answers it.
pub proof fn law_a_confirmation_takes_a_yes(
    pre: AppState,
    post: AppState,
    event: Event,
    code: KeyCode,
    m: KeyModifiers,
    target: String,
    r: Option<(String, bool)>,
)
    requires
        answers_removal(pre, post, event, r),
        input::pressed(event) == Some((code, m)),
        pre.prompts.pending_worktree_removal == Some(target),
    ensures
        r == Some((target, true)) <==> code == KeyCode::Char('y') || code == KeyCode::Char('Y')
            || code == KeyCode::Enter,
        r == Some((target, false)) <==> code == KeyCode::Char('n') || code == KeyCode::Char('N')
            || code == KeyCode::Esc,
        r is Some <==> post.prompts.pending_worktree_removal is None,
        r is None ==> post == pre,
{
}

/// Of the selected file the side that was asked for is kept, a merge is finished by Enter and given
/// up by Escape, and an undo is forced by `f` only.
pub proof fn law_a_conflict_is_settled_as_asked(
    pre: PendingAgentConflict,
    post: PendingAgentConflict,
    code: KeyCode,
    r: AgentConflictEventOutcome,
    undo: PendingUndoConflict,
    after: Option<PendingUndoConflict>,
    outcome: Option<UndoConflictOutcome>,
)
    requires
        resolver_key(pre, post, code, r),
        conflict_key(undo, after, code, outcome),
    ensures
        r matches AgentConflictEventOutcome::Resolve { id, file, ours } ==> id == pre.id
            && pre.selected < pre.files@.len() && file == pre.files@[pre.selected as int].path && (
        if ours {
            code == KeyCode::Char('o') || code == KeyCode::Char('O')
        } else {
            code == KeyCode::Char('t') || code == KeyCode::Char('T')
        }),
        (code == KeyCode::Char('o') || code == KeyCode::Char('t')) && pre.selected
            < pre.files@.len() ==> r is Resolve,
        r is Finish ==> code == KeyCode::Enter,
        code == KeyCode::Esc ==> r == AgentConflictEventOutcome::Abort(pre.id),
        outcome matches Some(UndoConflictOutcome::Forced { direction, count }) ==> direction
            == undo.direction && count == undo.count && (code == KeyCode::Char('f') || code
            == KeyCode::Char('F')),
        code == KeyCode::Char('f') ==> outcome is Some && after is None,
        code == KeyCode::Esc ==> outcome == Some(UndoConflictOutcome::Cancelled) && after is None,
{
}

} // verus!
