//! The `/help`, `/skills` and `/agents` popups.

use vstd::prelude::*;

use crate::protocol;
use crate::protocol::SubagentRecord;
use crate::text::cat3;
use crate::tui::input;
use crate::tui::input::{Event, KeyCode, KeyModifiers};
use crate::tui::mcp;
use crate::tui::mcp::{scroll_by, select_below, select_other};
use crate::tui::state::{AgentPanel, AgentsView, AppState, HelpPanel, SkillPanel, SkillsView};

verus! {

// ---------------------------------------------------------------------------------------------
// Help
// ---------------------------------------------------------------------------------------------

/// What a key does on the `/help` popup.
pub open spec fn help_key(
    pre: HelpPanel,
    post: HelpPanel,
    code: KeyCode,
    m: KeyModifiers,
) -> bool {
    if code == KeyCode::Esc || code == KeyCode::Enter {
        post == (HelpPanel { visible: false, ..pre })
    } else if code == KeyCode::BackTab || code == KeyCode::Left || (code == KeyCode::Tab
        && m.shift) {
        &&& post == (HelpPanel { tab: post.tab, scroll: 0, ..pre })
        &&& post.tab.place() == (pre.tab.place() + 2) % 3
    } else if code == KeyCode::Tab || code == KeyCode::Right {
        &&& post == (HelpPanel { tab: post.tab, scroll: 0, ..pre })
        &&& post.tab.place() == (pre.tab.place() + 1) % 3
    } else {
        post == (HelpPanel { scroll: mcp::scrolled(pre.scroll, code) as u16, ..pre })
    }
}

fn on_help_key(p: &mut HelpPanel, code: KeyCode, m: KeyModifiers)
    ensures
        help_key(*old(p), *final(p), code, m),
{
    match code {
        KeyCode::Esc | KeyCode::Enter => {
            p.visible = false;
        },
        KeyCode::BackTab | KeyCode::Left => {
            p.tab = p.tab.previous();
            p.scroll = 0;
        },
        KeyCode::Tab => {
            p.tab = if m.shift {
                p.tab.previous()
            } else {
                p.tab.next()
            };
            p.scroll = 0;
        },
        KeyCode::Right => {
            p.tab = p.tab.next();
            p.scroll = 0;
        },
        _ => {
            p.scroll = scroll_by(p.scroll, code);
        },
    }
}

/// What a terminal event does to the help popup.
pub open spec fn helps(pre: AppState, post: AppState, event: Event, r: bool) -> bool {
    &&& r == (pre.help.visible && input::pressed(event) is Some)
    &&& !r ==> post == pre
    &&& r ==> post == (AppState { help: post.help, ..pre })
    &&& r ==> help_key(
        pre.help,
        post.help,
        input::pressed(event)->Some_0.0,
        input::pressed(event)->Some_0.1,
    )
}

/// Switches tabs on Tab/Shift+Tab/Left/Right, scrolls the current tab's content on Up/Down and
/// PageUp/PageDown, and dismisses the `/help` popup on Esc or Enter.
///
/// Returns `true` when the event was handled, so the caller can skip further dispatch.
pub fn handle_help_event(state: &mut AppState, event: &Event) -> (r: bool)
    requires
        old(state).wf(),
    ensures
        final(state).wf(),
        helps(*old(state), *final(state), *event, r),
{
    if !state.help.visible {
        return false;
    }
    match input::key_press(event) {
        Some((code, m)) => {
            on_help_key(&mut state.help, code, m);
            true
        },
        None => false,
    }
}

// ---------------------------------------------------------------------------------------------
// Skills
// ---------------------------------------------------------------------------------------------

/// Outcome of dispatching a terminal event to the `/skills` popup.
#[derive(Debug, PartialEq, Eq)]
pub enum SkillsEventOutcome {
    /// The popup is not shown, or the event isn't one it cares about.
    NotHandled,
    /// The event was consumed by the popup with no further side effect.
    Handled,
    /// A skill's enabled state was toggled and should be persisted.
    ToggleSkill { name: String, enabled: bool },
}

/// What a key does on the `/skills` popup.
pub open spec fn skills_key(
    pre: SkillPanel,
    post: SkillPanel,
    code: KeyCode,
    r: SkillsEventOutcome,
) -> bool {
    match pre.view {
        SkillsView::Menu => r is Handled && post == (match code {
            KeyCode::Up | KeyCode::Down => SkillPanel {
                selected: mcp::other_row(pre.selected as int) as usize,
                ..pre
            },
            KeyCode::Enter => SkillPanel {
                view: if pre.selected == 0 {
                    SkillsView::List
                } else {
                    SkillsView::EnableDisable
                },
                selected: 0,
                list_scroll: 0,
                ..pre
            },
            KeyCode::Esc => SkillPanel { visible: false, ..pre },
            _ => pre,
        }),
        SkillsView::List => r is Handled && post == (match code {
            KeyCode::Esc | KeyCode::Enter => SkillPanel {
                view: SkillsView::Menu,
                selected: 0,
                list_scroll: 0,
                ..pre
            },
            _ => SkillPanel { list_scroll: mcp::scrolled(pre.list_scroll, code) as u16, ..pre },
        }),
        SkillsView::EnableDisable => match code {
            KeyCode::Up => r is Handled && post == (SkillPanel {
                selected: mcp::less(pre.selected as int, 1) as usize,
                ..pre
            }),
            KeyCode::Down => r is Handled && post == (SkillPanel {
                selected: mcp::row_below(pre.selected as int, pre.skills@.len() as int) as usize,
                ..pre
            }),
            KeyCode::Enter | KeyCode::Char(' ') => toggles_skill(pre, post, r),
            KeyCode::Esc => r is Handled && post == (SkillPanel {
                view: SkillsView::Menu,
                selected: 0,
                ..pre
            }),
            _ => r is Handled && post == pre,
        },
    }
}

/// Toggling the selected skill: exactly its flag flips, and the new flag is handed out.
pub open spec fn toggles_skill(pre: SkillPanel, post: SkillPanel, r: SkillsEventOutcome) -> bool {
    let i = pre.selected as int;
    if i < pre.skills@.len() {
        let before = pre.skills@[i];
        &&& post == (SkillPanel { skills: post.skills, ..pre })
        &&& post.skills@ == pre.skills@.update(
            i,
            protocol::SkillSummary { enabled: !before.enabled, ..before },
        )
        &&& r == (SkillsEventOutcome::ToggleSkill { name: before.name, enabled: !before.enabled })
    } else {
        r is Handled && post == pre
    }
}

fn toggle_skill(p: &mut SkillPanel) -> (r: SkillsEventOutcome)
    ensures
        toggles_skill(*old(p), *final(p), r),
{
    let i: usize = p.selected;
    if i >= p.skills.len() {
        return SkillsEventOutcome::Handled;
    }
    let mut skill: protocol::SkillSummary = p.skills[i].clone();
    skill.enabled = !skill.enabled;
    let name: String = skill.name.clone();
    let enabled: bool = skill.enabled;
    p.skills.set(i, skill);
    SkillsEventOutcome::ToggleSkill { name, enabled }
}

fn on_skills_key(p: &mut SkillPanel, code: KeyCode) -> (r: SkillsEventOutcome)
    requires
        old(p).selected < usize::MAX,
    ensures
        final(p).selected < usize::MAX,
        skills_key(*old(p), *final(p), code, r),
{
    match p.view {
        SkillsView::Menu => match code {
            KeyCode::Up | KeyCode::Down => {
                p.selected = select_other(p.selected);
            },
            KeyCode::Enter => {
                p.view = if p.selected == 0 {
                    SkillsView::List
                } else {
                    SkillsView::EnableDisable
                };
                p.selected = 0;
                p.list_scroll = 0;
            },
            KeyCode::Esc => {
                p.visible = false;
            },
            _ => {},
        },
        SkillsView::List => match code {
            KeyCode::Esc | KeyCode::Enter => {
                p.view = SkillsView::Menu;
                p.selected = 0;
                p.list_scroll = 0;
            },
            _ => {
                p.list_scroll = scroll_by(p.list_scroll, code);
            },
        },
        SkillsView::EnableDisable => match code {
            KeyCode::Up => {
                p.selected = p.selected.saturating_sub(1);
            },
            KeyCode::Down => {
                p.selected = select_below(p.selected, p.skills.len());
            },
            KeyCode::Enter | KeyCode::Char(' ') => {
                return toggle_skill(p);
            },
            KeyCode::Esc => {
                p.view = SkillsView::Menu;
                p.selected = 0;
            },
            _ => {},
        },
    }
    SkillsEventOutcome::Handled
}

/// What an event does on the `/skills` popup: nothing unless it is shown and a key was pressed.
pub open spec fn skills_react(
    pre: AppState,
    post: AppState,
    event: Event,
    r: SkillsEventOutcome,
) -> bool {
    match input::pressed(event) {
        Some((code, _)) => if pre.skill_panel.visible {
            &&& post == (AppState { skill_panel: post.skill_panel, ..pre })
            &&& skills_key(pre.skill_panel, post.skill_panel, code, r)
        } else {
            r is NotHandled && post == pre
        },
        None => r is NotHandled && post == pre,
    }
}

/// Drives the `/skills` popup: its menu, the read-only skill list, and the enable/disable screen.
///
/// Returns `NotHandled` when the popup isn't shown or the event doesn't apply to it, so the caller
/// can fall through to other dispatch.
pub fn handle_skills_event(state: &mut AppState, event: &Event) -> (r: SkillsEventOutcome)
    requires
        old(state).wf(),
    ensures
        final(state).wf(),
        skills_react(*old(state), *final(state), *event, r),
{
    if !state.skill_panel.visible {
        return SkillsEventOutcome::NotHandled;
    }
    match input::key_press(event) {
        Some((code, _)) => on_skills_key(&mut state.skill_panel, code),
        None => SkillsEventOutcome::NotHandled,
    }
}

// ---------------------------------------------------------------------------------------------
// Subagents
// ---------------------------------------------------------------------------------------------

/// Outcome of dispatching a terminal event to the `/agents` popup.
#[derive(Clone, Copy, Debug, PartialEq, Eq, Structural)]
pub enum AgentsEventOutcome {
    /// The popup is not shown, or the event isn't one it cares about.
    NotHandled,
    /// The event was consumed by the popup with no further side effect.
    Handled,
    /// `r` was pressed: re-request the current list from the runtime.
    Refresh,
}

/// The next steps of the subagent shown in detail.
pub open spec fn next_steps(detail: Option<SubagentRecord>) -> Seq<String> {
    match detail {
        Some(record) => match record.result {
            Some(result) => result.next_steps@,
            None => Seq::empty(),
        },
        None => Seq::empty(),
    }
}

/// What a key does on the list of subagents.
pub open spec fn agent_list_key(
    pre: AgentPanel,
    post: AgentPanel,
    code: KeyCode,
    r: AgentsEventOutcome,
) -> bool {
    match code {
        KeyCode::Up => r == AgentsEventOutcome::Handled && post == (AgentPanel {
            selected: mcp::less(pre.selected as int, 1) as usize,
            ..pre
        }),
        KeyCode::Down => r == AgentsEventOutcome::Handled && post == (AgentPanel {
            selected: mcp::row_below(pre.selected as int, pre.agents@.len() as int) as usize,
            ..pre
        }),
        KeyCode::Enter | KeyCode::Right => {
            &&& r == AgentsEventOutcome::Handled
            &&& if pre.selected < pre.agents@.len() {
                &&& post == (AgentPanel {
                    detail: post.detail,
                    view: AgentsView::Detail,
                    detail_scroll: 0,
                    next_step_cursor: 0,
                    ..pre
                })
                &&& post.detail matches Some(d)
                &&& protocol::same_record(d, pre.agents@[pre.selected as int])
            } else {
                post == pre
            }
        },
        KeyCode::Char('r') => r == AgentsEventOutcome::Refresh && post == pre,
        KeyCode::Esc => r == AgentsEventOutcome::Handled && post == (AgentPanel {
            visible: false,
            ..pre
        }),
        _ => r == AgentsEventOutcome::Handled && post == pre,
    }
}

/// What a key does on a subagent's detail, apart from `n`.
pub open spec fn agent_detail_key(
    pre: AgentPanel,
    post: AgentPanel,
    code: KeyCode,
    r: AgentsEventOutcome,
) -> bool {
    match code {
        KeyCode::Esc | KeyCode::Left => r == AgentsEventOutcome::Handled && post == (AgentPanel {
            view: AgentsView::List,
            detail_scroll: 0,
            ..pre
        }),
        KeyCode::Up | KeyCode::Down => r == AgentsEventOutcome::Handled && post == (AgentPanel {
            detail_scroll: mcp::scrolled(pre.detail_scroll, code) as u16,
            ..pre
        }),
        KeyCode::Char('r') => r == AgentsEventOutcome::Refresh && post == pre,
        _ => r == AgentsEventOutcome::Handled && post == pre,
    }
}

/// Prefilling the next step in turn: the composer gets a ready-to-edit spawn command and the
/// popup closes; without a next step nothing happens.
pub open spec fn prefills(pre: AppState, post: AppState) -> bool {
    let steps = next_steps(pre.agent_panel.detail);
    if steps.len() == 0 {
        post == pre
    } else {
        let step = steps[pre.agent_panel.next_step_cursor as int % steps.len() as int];
        &&& post == (AppState {
            composer: post.composer,
            agent_panel: crate::tui::state::AgentPanel {
                visible: false,
                next_step_cursor: (pre.agent_panel.next_step_cursor + 1) as usize,
                ..pre.agent_panel
            },
            ..pre
        })
        &&& post.composer@ == pre.composer@.placed("/agent spawn \""@ + step@ + "\""@)
    }
}

/// Whether a key asks for the next step.
pub open spec fn asks_next_step(pre: AppState, event: Event) -> bool {
    &&& pre.agent_panel.visible
    &&& pre.agent_panel.view == AgentsView::Detail
    &&& input::pressed(event) matches Some((code, _))
    &&& code == KeyCode::Char('n') || code == KeyCode::Char('N')
}

/// What an event does on the `/agents` popup: nothing unless it is shown and a key was pressed.
pub open spec fn agents_react(
    pre: AppState,
    post: AppState,
    event: Event,
    r: AgentsEventOutcome,
) -> bool {
    match input::pressed(event) {
        Some((code, _)) => if !pre.agent_panel.visible {
            r == AgentsEventOutcome::NotHandled && post == pre
        } else if asks_next_step(pre, event) {
            r == AgentsEventOutcome::Handled && prefills(pre, post)
        } else {
            &&& post == (AppState { agent_panel: post.agent_panel, ..pre })
            &&& match pre.agent_panel.view {
                AgentsView::List => agent_list_key(pre.agent_panel, post.agent_panel, code, r),
                AgentsView::Detail => agent_detail_key(pre.agent_panel, post.agent_panel, code, r),
            }
        },
        None => r == AgentsEventOutcome::NotHandled && post == pre,
    }
}

fn on_agent_list_key(p: &mut AgentPanel, code: KeyCode) -> (r: AgentsEventOutcome)
    requires
        old(p).selected < usize::MAX,
    ensures
        final(p).selected < usize::MAX,
        agent_list_key(*old(p), *final(p), code, r),
{
    match code {
        KeyCode::Up => {
            p.selected = p.selected.saturating_sub(1);
        },
        KeyCode::Down => {
            p.selected = select_below(p.selected, p.agents.len());
        },
        KeyCode::Enter | KeyCode::Right => {
            if p.selected < p.agents.len() {
                p.detail = Some(p.agents[p.selected].clone());
                p.view = AgentsView::Detail;
                p.detail_scroll = 0;
                p.next_step_cursor = 0;
            }
        },
        KeyCode::Char('r') => {
            return AgentsEventOutcome::Refresh;
        },
        KeyCode::Esc => {
            p.visible = false;
        },
        _ => {},
    }
    AgentsEventOutcome::Handled
}

fn on_agent_detail_key(p: &mut AgentPanel, code: KeyCode) -> (r: AgentsEventOutcome)
    ensures
        final(p).selected == old(p).selected,
        agent_detail_key(*old(p), *final(p), code, r),
{
    match code {
        KeyCode::Esc | KeyCode::Left => {
            p.view = AgentsView::List;
            p.detail_scroll = 0;
        },
        KeyCode::Up | KeyCode::Down => {
            p.detail_scroll = scroll_by(p.detail_scroll, code);
        },
        KeyCode::Char('r') => {
            return AgentsEventOutcome::Refresh;
        },
        _ => {},
    }
    AgentsEventOutcome::Handled
}

fn pick_step(detail: &Option<SubagentRecord>, cursor: usize) -> (r: Option<String>)
    ensures
        ({
            let steps = next_steps(*detail);
            r == (if steps.len() == 0 {
                None
            } else {
                Some(steps[cursor as int % steps.len() as int])
            })
        }),
{
    match detail {
        Some(record) => match &record.result {
            Some(result) => {
                if result.next_steps.len() == 0 {
                    None
                } else {
                    let i: usize = cursor % result.next_steps.len();
                    Some(result.next_steps[i].clone())
                }
            },
            None => None,
        },
        None => None,
    }
}

/// Turns the suggestion whose turn it is into a ready-to-edit `/agent spawn "<step>"` in the
/// composer, closing the popup. Nothing happens when there is no next step to act on.
fn prefill_next_step_spawn(state: &mut AppState)
    requires
        old(state).wf(),
        old(state).agent_panel.next_step_cursor < usize::MAX,
    ensures
        final(state).wf(),
        prefills(*old(state), *final(state)),
{
    let picked: Option<String> = pick_step(
        &state.agent_panel.detail,
        state.agent_panel.next_step_cursor,
    );
    match picked {
        Some(step) => {
            state.agent_panel.next_step_cursor = state.agent_panel.next_step_cursor + 1;
            state.composer.set_chat_input(cat3("/agent spawn \"", step.as_str(), "\""));
            state.agent_panel.visible = false;
        },
        None => {},
    }
}

/// Applies navigation and view-switching keys to the `/agents` popup: Up/Down to move the
/// selection, Enter/Right to open a subagent's detail, Esc/Left to go back or close, `r` to
/// refresh, `n` to spawn a next step.
///
/// Returns `NotHandled` when the popup isn't shown or the event isn't a key press.
#[must_use]
pub fn handle_agents_event(state: &mut AppState, event: &Event) -> (r: AgentsEventOutcome)
    requires
        old(state).wf(),
        asks_next_step(*old(state), *event) ==> old(state).agent_panel.next_step_cursor
            < usize::MAX,
    ensures
        final(state).wf(),
        agents_react(*old(state), *final(state), *event, r),
{
    if !state.agent_panel.visible {
        return AgentsEventOutcome::NotHandled;
    }
    let code: KeyCode = match input::key_press(event) {
        Some((code, _)) => code,
        None => {
            return AgentsEventOutcome::NotHandled;
        },
    };
    match state.agent_panel.view {
        AgentsView::List => on_agent_list_key(&mut state.agent_panel, code),
        AgentsView::Detail => {
            if code == KeyCode::Char('n') || code == KeyCode::Char('N') {
                prefill_next_step_spawn(state);
                AgentsEventOutcome::Handled
            } else {
                on_agent_detail_key(&mut state.agent_panel, code)
            }
        },
    }
}

// ---------------------------------------------------------------------------------------------
// Laws
// ---------------------------------------------------------------------------------------------

/// Pressing the toggle key twice on a skill leaves the skills as they were.
pub proof fn law_toggling_a_skill_twice_restores_it(
    a: SkillPanel,
    b: SkillPanel,
    c: SkillPanel,
    first: SkillsEventOutcome,
    second: SkillsEventOutcome,
)
    requires
        toggles_skill(a, b, first),
        toggles_skill(b, c, second),
    ensures
        c.skills@ == a.skills@,
        c.selected == a.selected,
{
    let i = a.selected as int;
    if i < a.skills@.len() {
        assert(c.skills@ =~= a.skills@);
    }
}

/// Every next step gets its turn: after as many presses as there are steps, the first comes again.
pub proof fn law_next_steps_take_turns(cursor: int, count: int)
    requires
        0 <= cursor,
        0 < count,
    ensures
        (cursor + count) % count == cursor % count,
        0 <= cursor % count < count,
{
    vstd::arithmetic::div_mod::lemma_mod_add_multiples_vanish(cursor, count);
}

/// The tabs of the help take turns, to either side, and going there and back returns to the tab.
pub proof fn law_help_tabs_take_turns(a: HelpPanel, b: HelpPanel, c: HelpPanel, d: HelpPanel, m: KeyModifiers)
    requires
        help_key(a, b, KeyCode::Right, m),
    ensures
        help_key(b, c, KeyCode::Left, m) ==> c.tab.place() == a.tab.place() && c.scroll == 0,
        help_key(b, c, KeyCode::Right, m) && help_key(c, d, KeyCode::Right, m) ==> d.tab.place()
            == a.tab.place(),
        b.tab.place() != a.tab.place(),
        b.visible == a.visible,
{
}

/// A key opens the subagent that is selected, and going back returns to the list with the same one
/// selected.
pub proof fn law_a_subagent_is_opened_and_left(
    a: AgentPanel,
    b: AgentPanel,
    c: AgentPanel,
    r1: AgentsEventOutcome,
    r2: AgentsEventOutcome,
)
    requires
        a.view == AgentsView::List,
        a.selected < a.agents@.len(),
        agent_list_key(a, b, KeyCode::Enter, r1),
        agent_detail_key(b, c, KeyCode::Left, r2),
    ensures
        b.view == AgentsView::Detail,
        b.detail matches Some(d) && protocol::same_record(d, a.agents@[a.selected as int]),
        c.view == AgentsView::List,
        c.selected == a.selected && c.agents == a.agents && c.visible == a.visible,
{
}

} // verus!
