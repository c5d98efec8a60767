//! Which screen is drawn, and what stands over it.

use vstd::prelude::*;

use crate::tui::layout::{Rect, MIN_HEIGHT, MIN_WIDTH};
use crate::tui::state::{AppState, Screen};

verus! {

/// What a terminal that is too small shows in place of any screen.
pub const TOO_SMALL: &'static str = "Terminal too small — resize to continue.";

/// What stands over the chat screen.
#[derive(Clone, Copy, Debug, PartialEq, Eq, Structural)]
pub enum Overlay {
    Nothing,
    Permission,
    GuidedQuestion,
    WorktreeRemoval,
    AgentConfirm,
    AgentConflict,
    UndoConflict,
    Update,
    BlockingError,
    Help,
    Skills,
    Mcp,
    Agents,
}

/// What the terminal shows.
#[derive(Clone, Copy, Debug, PartialEq, Eq, Structural)]
pub enum Scene {
    /// The notice that the terminal is too small.
    TooSmall,
    /// One of the screens without an overlay.
    Plain(Screen),
    /// The chat screen and what stands over it.
    Chat(Overlay),
}

/// What stands over the chat screen: the first of the open prompts, else the first of the open
/// panels.
pub open spec fn topmost(s: AppState) -> Overlay {
    if s.prompts.pending_permission is Some {
        Overlay::Permission
    } else if s.prompts.pending_guided_question is Some {
        Overlay::GuidedQuestion
    } else if s.prompts.pending_worktree_removal is Some {
        Overlay::WorktreeRemoval
    } else if s.prompts.pending_agent_confirm is Some {
        Overlay::AgentConfirm
    } else if s.prompts.pending_agent_conflict is Some {
        Overlay::AgentConflict
    } else if s.prompts.pending_undo_conflict is Some {
        Overlay::UndoConflict
    } else if s.updates.pending_update is Some {
        Overlay::Update
    } else if s.prompts.blocking_error is Some {
        Overlay::BlockingError
    } else if s.help.visible {
        Overlay::Help
    } else if s.skill_panel.visible {
        Overlay::Skills
    } else if s.mcp.visible {
        Overlay::Mcp
    } else if s.agent_panel.visible {
        Overlay::Agents
    } else {
        Overlay::Nothing
    }
}

/// What the terminal shows.
pub open spec fn drawn(s: AppState, area: Rect) -> Scene {
    if area.width < MIN_WIDTH || area.height < MIN_HEIGHT {
        Scene::TooSmall
    } else if s.screen == Screen::Chat {
        Scene::Chat(topmost(s))
    } else {
        Scene::Plain(s.screen)
    }
}

/// Finds what stands over the chat screen.
pub fn find_overlay(s: &AppState) -> (r: Overlay)
    ensures
        r == topmost(*s),
{
    if s.prompts.pending_permission.is_some() {
        Overlay::Permission
    } else if s.prompts.pending_guided_question.is_some() {
        Overlay::GuidedQuestion
    } else if s.prompts.pending_worktree_removal.is_some() {
        Overlay::WorktreeRemoval
    } else if s.prompts.pending_agent_confirm.is_some() {
        Overlay::AgentConfirm
    } else if s.prompts.pending_agent_conflict.is_some() {
        Overlay::AgentConflict
    } else if s.prompts.pending_undo_conflict.is_some() {
        Overlay::UndoConflict
    } else if s.updates.pending_update.is_some() {
        Overlay::Update
    } else if s.prompts.blocking_error.is_some() {
        Overlay::BlockingError
    } else if s.help.visible {
        Overlay::Help
    } else if s.skill_panel.visible {
        Overlay::Skills
    } else if s.mcp.visible {
        Overlay::Mcp
    } else if s.agent_panel.visible {
        Overlay::Agents
    } else {
        Overlay::Nothing
    }
}

/// Decides what the terminal shows.
pub fn scene(s: &AppState, area: Rect) -> (r: Scene)
    ensures
        r == drawn(*s, area),
{
    if area.width < MIN_WIDTH || area.height < MIN_HEIGHT {
        Scene::TooSmall
    } else if s.screen == Screen::Chat {
        Scene::Chat(find_overlay(s))
    } else {
        Scene::Plain(s.screen)
    }
}

/// Over the chat screen, the composer takes the keys exactly while neither a prompt nor the update
/// popup stands over it.
pub proof fn law_prompts_are_seen(s: AppState)
    requires
        s.screen == Screen::Chat,
    ensures
        s.is_composing() <==> (topmost(s) == Overlay::Nothing || topmost(s) == Overlay::Help
            || topmost(s) == Overlay::Skills || topmost(s) == Overlay::Mcp || topmost(s)
            == Overlay::Agents),
{
}

} // verus!
