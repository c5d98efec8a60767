//! The onboarding screen, the pickers and the settings menu.

use vstd::prelude::*;

use crate::protocol::PermissionMode;
use crate::text;
use crate::text::same_text;
use crate::tui::input;
use crate::tui::input::{Event, KeyCode, KeyModifiers};
use crate::tui::mcp;
use crate::tui::mcp::select_below;
use crate::tui::state;
use crate::tui::state::{effort_choice, effort_index, AppState, Pickers, Screen, EFFORT_COUNT,
    SETTINGS_COUNT};

verus! {

/// What an event does to the credential input.
pub open spec fn onboards(pre: AppState, post: AppState, event: Event, r: Option<String>) -> bool {
    let field = pre.pickers.credential_input;
    if pre.screen != Screen::Onboarding {
        post == pre && r is None
    } else if event is Paste {
        &&& r is None
        &&& types_credential(pre, post, field@ + event->Paste_0@)
    } else {
        match input::pressed(event) {
            Some((KeyCode::Char(c), m)) => r is None && if !m.control && !m.alt {
                types_credential(pre, post, field@.push(c))
            } else {
                post == pre
            },
            Some((KeyCode::Backspace, _)) => r is None && types_credential(
                pre,
                post,
                mcp::typed(field@, KeyCode::Backspace),
            ),
            Some((KeyCode::Enter, _)) => if field@.len() > 0 {
                r == Some(field) && types_credential(pre, post, Seq::empty())
            } else {
                r is None && post == pre
            },
            Some((KeyCode::Esc, _)) => r is None && if pre.pickers.current_model is Some {
                &&& post == (AppState {
                    screen: Screen::Chat,
                    status: None,
                    pickers: Pickers {
                        credential_input: post.pickers.credential_input,
                        ..pre.pickers
                    },
                    ..pre
                })
                &&& post.pickers.credential_input@.len() == 0
            } else {
                post == pre
            },
            _ => post == pre && r is None,
        }
    }
}

/// Whether nothing but the credential input changed, to the given text.
pub open spec fn types_credential(pre: AppState, post: AppState, t: Seq<char>) -> bool {
    &&& post == (AppState {
        pickers: Pickers { credential_input: post.pickers.credential_input, ..pre.pickers },
        ..pre
    })
    &&& post.pickers.credential_input@ == t
}

/// Applies one terminal event to the credential onboarding input.
///
/// Returns the credential only when the user explicitly submits it with Enter.
#[must_use]
pub fn handle_onboarding_event(state: &mut AppState, event: &Event) -> (r: Option<String>)
    requires
        old(state).wf(),
    ensures
        final(state).wf(),
        onboards(*old(state), *final(state), *event, r),
{
    if state.screen != Screen::Onboarding {
        return None;
    }
    match event {
        Event::Paste(pasted) => {
            state.pickers.credential_input.append(pasted.as_str());
            return None;
        },
        _ => {},
    }
    let (code, m) = match input::key_press(event) {
        Some(press) => press,
        None => {
            return None;
        },
    };
    match code {
        KeyCode::Char(character) => {
            if !m.control && !m.alt {
                state.push_credential_character(character);
            }
        },
        KeyCode::Backspace => {
            mcp::type_into(&mut state.pickers.credential_input, KeyCode::Backspace);
        },
        KeyCode::Enter => {
            let taken: Option<String> = state.take_credential_submission();
            assert(taken is Some ==> state.pickers.credential_input@ =~= Seq::<char>::empty());
            return taken;
        },
        KeyCode::Esc => {
            if state.pickers.current_model.is_some() {
                state.pickers.credential_input = String::new();
                state.status = None;
                state.screen = Screen::Chat;
            }
        },
        _ => {},
    }
    None
}

/// What an event does to the model picker.
pub open spec fn picks_model(pre: AppState, post: AppState, event: Event, r: Option<String>) -> bool {
    let p = pre.pickers;
    match input::pressed(event) {
        Some((code, _)) => if pre.screen != Screen::ModelPicker {
            post == pre && r is None
        } else if code == KeyCode::Up {
            &&& r is None
            &&& post == (AppState {
                pickers: Pickers { selected_model: mcp::less(p.selected_model as int, 1) as usize, ..p
                },
                ..pre
            })
        } else if code == KeyCode::Down {
            &&& r is None
            &&& post == (AppState {
                pickers: Pickers {
                    selected_model: mcp::row_below(
                        p.selected_model as int,
                        p.models@.len() as int,
                    ) as usize,
                    ..p
                },
                ..pre
            })
        } else if code == KeyCode::Enter && p.selected_model < p.models@.len() {
            let model = p.models@[p.selected_model as int];
            if p.model_flow_pending_effort {
                &&& r is None
                &&& post == (AppState {
                    screen: Screen::EffortPicker,
                    pickers: Pickers {
                        pending_model: Some(model),
                        selected_effort: state::effort_row(text::opt_text(p.current_effort)) as usize,
                        ..p
                    },
                    ..pre
                })
            } else {
                post == pre && r == Some(model)
            }
        } else if code == KeyCode::Esc && p.current_model is Some {
            &&& r is None
            &&& post == (AppState {
                screen: Screen::Chat,
                pickers: Pickers { model_flow_pending_effort: false, ..p },
                ..pre
            })
        } else {
            post == pre && r is None
        },
        None => post == pre && r is None,
    }
}

/// Applies navigation and confirmation keys to the discovered-model picker.
#[must_use]
pub fn handle_model_picker_event(state: &mut AppState, event: &Event) -> (r: Option<String>)
    requires
        old(state).wf(),
    ensures
        final(state).wf(),
        picks_model(*old(state), *final(state), *event, r),
{
    if state.screen != Screen::ModelPicker {
        return None;
    }
    let code: KeyCode = match input::key_press(event) {
        Some((code, _)) => code,
        None => {
            return None;
        },
    };
    let models: usize = state.pickers.models.len();
    match code {
        KeyCode::Up => {
            state.pickers.selected_model = state.pickers.selected_model.saturating_sub(1);
        },
        KeyCode::Down => {
            state.pickers.selected_model = select_below(state.pickers.selected_model, models);
        },
        KeyCode::Enter => {
            let model: String = match state.selected_model() {
                Some(model) => model,
                None => {
                    return None;
                },
            };
            if state.pickers.model_flow_pending_effort {
                state.pickers.pending_model = Some(model);
                state.screen = Screen::EffortPicker;
                state.pickers.selected_effort = effort_index(&state.pickers.current_effort);
                return None;
            }
            return Some(model);
        },
        KeyCode::Esc => {
            if state.pickers.current_model.is_some() {
                state.pickers.model_flow_pending_effort = false;
                state.screen = Screen::Chat;
            }
        },
        _ => {},
    }
    None
}

/// The row of the current model, or the first row.
pub open spec fn model_row(p: Pickers, from: int) -> int
    decreases p.models@.len() - from,
{
    if from >= p.models@.len() {
        0
    } else if p.current_model matches Some(m) && p.models@[from]@ == m@ {
        from
    } else {
        model_row(p, from + 1)
    }
}

fn find_model(p: &Pickers) -> (r: usize)
    ensures
        r == model_row(*p, 0),
        r == 0 || r < p.models@.len(),
{
    let mut i: usize = 0;
    while i < p.models.len()
        invariant
            i <= p.models@.len(),
            model_row(*p, 0) == model_row(*p, i as int),
        decreases p.models@.len() - i,
    {
        match &p.current_model {
            Some(m) => {
                if same_text(p.models[i].as_str(), m.as_str()) {
                    return i;
                }
            },
            None => {},
        }
        i = i + 1;
    }
    0
}

/// What a key does on the settings menu.
pub open spec fn settings_key(pre: AppState, post: AppState, code: KeyCode) -> bool {
    let p = pre.pickers;
    match code {
        KeyCode::Up => post == (AppState {
            pickers: Pickers {
                settings_selected: mcp::less(p.settings_selected as int, 1) as usize,
                ..p
            },
            ..pre
        }),
        KeyCode::Down => post == (AppState {
            pickers: Pickers {
                settings_selected: mcp::row_below(
                    p.settings_selected as int,
                    SETTINGS_COUNT as int,
                ) as usize,
                ..p
            },
            ..pre
        }),
        KeyCode::Enter => if p.settings_selected == 0 {
            &&& post == (AppState {
                screen: Screen::Onboarding,
                status: None,
                pickers: Pickers { credential_input: post.pickers.credential_input, ..p },
                ..pre
            })
            &&& post.pickers.credential_input@.len() == 0
        } else if p.settings_selected == 1 {
            post == (AppState {
                screen: Screen::ModelPicker,
                pickers: Pickers {
                    model_flow_pending_effort: false,
                    selected_model: model_row(p, 0) as usize,
                    ..p
                },
                ..pre
            })
        } else {
            post == (AppState {
                screen: Screen::EffortPicker,
                pickers: Pickers {
                    selected_effort: state::effort_row(text::opt_text(p.current_effort)) as usize,
                    ..p
                },
                ..pre
            })
        },
        KeyCode::Esc => post == (AppState { screen: Screen::Chat, ..pre }),
        _ => post == pre,
    }
}

/// What a terminal event does on the settings screen.
pub open spec fn picks_setting(pre: AppState, post: AppState, event: Event, r: bool) -> bool {
    &&& r == (pre.screen == Screen::Settings && input::pressed(event) is Some)
    &&& if r {
        settings_key(pre, post, input::pressed(event)->Some_0.0)
    } else {
        post == pre
    }
}

/// Applies navigation and selection keys to the settings menu.
///
/// Returns `true` when the event was handled (whether or not it changed anything), so the caller
/// can skip further dispatch.
pub fn handle_settings_event(state: &mut AppState, event: &Event) -> (r: bool)
    requires
        old(state).wf(),
    ensures
        final(state).wf(),
        picks_setting(*old(state), *final(state), *event, r),
{
    if state.screen != Screen::Settings {
        return false;
    }
    let code: KeyCode = match input::key_press(event) {
        Some((code, _)) => code,
        None => {
            return false;
        },
    };
    match code {
        KeyCode::Up => {
            state.pickers.settings_selected = state.pickers.settings_selected.saturating_sub(1);
        },
        KeyCode::Down => {
            state.pickers.settings_selected = select_below(
                state.pickers.settings_selected,
                SETTINGS_COUNT,
            );
        },
        KeyCode::Enter => {
            if state.pickers.settings_selected == 0 {
                state.screen = Screen::Onboarding;
                state.pickers.credential_input = String::new();
                state.status = None;
            } else if state.pickers.settings_selected == 1 {
                let row: usize = find_model(&state.pickers);
                state.screen = Screen::ModelPicker;
                state.pickers.model_flow_pending_effort = false;
                state.pickers.selected_model = row;
            } else {
                state.screen = Screen::EffortPicker;
                state.pickers.selected_effort = effort_index(&state.pickers.current_effort);
            }
        },
        KeyCode::Esc => {
            state.screen = Screen::Chat;
        },
        _ => {},
    }
    true
}

/// What an event does to the effort picker.
pub open spec fn picks_effort(
    pre: AppState,
    post: AppState,
    event: Event,
    r: Option<Option<String>>,
) -> bool {
    let p = pre.pickers;
    match input::pressed(event) {
        Some((code, _)) => if pre.screen != Screen::EffortPicker {
            post == pre && r is None
        } else if code == KeyCode::Up {
            &&& r is None
            &&& post == (AppState {
                pickers: Pickers {
                    selected_effort: mcp::less(p.selected_effort as int, 1) as usize,
                    ..p
                },
                ..pre
            })
        } else if code == KeyCode::Down {
            &&& r is None
            &&& post == (AppState {
                pickers: Pickers {
                    selected_effort: mcp::row_below(
                        p.selected_effort as int,
                        EFFORT_COUNT as int,
                    ) as usize,
                    ..p
                },
                ..pre
            })
        } else if code == KeyCode::Enter {
            &&& post == pre
            &&& r matches Some(value)
            &&& text::opt_text(value) == state::effort_value(p.selected_effort as int)
        } else if code == KeyCode::Esc {
            r is None && post == (AppState { screen: Screen::Chat, ..pre })
        } else {
            post == pre && r is None
        },
        None => post == pre && r is None,
    }
}

/// Applies navigation and confirmation keys to the reasoning-effort picker.
///
/// Returns the selected provider value on confirmation (`None` clears the effort level).
#[must_use]
pub fn handle_effort_picker_event(state: &mut AppState, event: &Event) -> (r: Option<
    Option<String>,
>)
    requires
        old(state).wf(),
    ensures
        final(state).wf(),
        picks_effort(*old(state), *final(state), *event, r),
{
    if state.screen != Screen::EffortPicker {
        return None;
    }
    let code: KeyCode = match input::key_press(event) {
        Some((code, _)) => code,
        None => {
            return None;
        },
    };
    match code {
        KeyCode::Up => {
            state.pickers.selected_effort = state.pickers.selected_effort.saturating_sub(1);
        },
        KeyCode::Down => {
            state.pickers.selected_effort = select_below(
                state.pickers.selected_effort,
                EFFORT_COUNT,
            );
        },
        KeyCode::Enter => {
            return Some(effort_choice(state.pickers.selected_effort));
        },
        KeyCode::Esc => {
            state.screen = Screen::Chat;
        },
        _ => {},
    }
    None
}

/// What an event does to the session picker.
pub open spec fn picks_session(
    pre: AppState,
    post: AppState,
    event: Event,
    r: Option<String>,
) -> bool {
    let p = pre.pickers;
    match input::pressed(event) {
        Some((code, _)) => if pre.screen != Screen::SessionPicker {
            post == pre && r is None
        } else if code == KeyCode::Up {
            &&& r is None
            &&& post == (AppState {
                pickers: Pickers {
                    selected_session: mcp::less(p.selected_session as int, 1) as usize,
                    ..p
                },
                ..pre
            })
        } else if code == KeyCode::Down {
            &&& r is None
            &&& post == (AppState {
                pickers: Pickers {
                    selected_session: mcp::row_below(
                        p.selected_session as int,
                        p.sessions@.len() as int,
                    ) as usize,
                    ..p
                },
                ..pre
            })
        } else if code == KeyCode::Enter {
            &&& post == pre
            &&& r == (if p.selected_session < p.sessions@.len() {
                Some(p.sessions@[p.selected_session as int].id)
            } else {
                None
            })
        } else if code == KeyCode::Esc && p.current_model is Some {
            r is None && post == (AppState { screen: Screen::Chat, ..pre })
        } else {
            post == pre && r is None
        },
        None => post == pre && r is None,
    }
}

/// Applies navigation and confirmation keys to the saved-session picker.
///
/// Returns the chosen session's id on confirmation.
#[must_use]
pub fn handle_session_picker_event(state: &mut AppState, event: &Event) -> (r: Option<String>)
    requires
        old(state).wf(),
    ensures
        final(state).wf(),
        picks_session(*old(state), *final(state), *event, r),
{
    if state.screen != Screen::SessionPicker {
        return None;
    }
    let code: KeyCode = match input::key_press(event) {
        Some((code, _)) => code,
        None => {
            return None;
        },
    };
    let count: usize = state.pickers.sessions.len();
    match code {
        KeyCode::Up => {
            state.pickers.selected_session = state.pickers.selected_session.saturating_sub(1);
        },
        KeyCode::Down => {
            state.pickers.selected_session = select_below(state.pickers.selected_session, count);
        },
        KeyCode::Enter => {
            if state.pickers.selected_session < count {
                return Some(
                    state.pickers.sessions[state.pickers.selected_session].id.clone(),
                );
            }
        },
        KeyCode::Esc => {
            if state.pickers.current_model.is_some() {
                state.screen = Screen::Chat;
            }
        },
        _ => {},
    }
    None
}

/// Whether a key cycles the permission mode: Shift+Tab, or F2 for terminals that keep Shift+Tab
/// for themselves.
pub open spec fn cycles_mode(code: KeyCode, m: KeyModifiers) -> bool {
    code == KeyCode::BackTab || code == KeyCode::F(2) || (code == KeyCode::Tab && m.shift)
}

/// What a terminal event does to the permission mode.
pub open spec fn cycles(pre: AppState, post: AppState, event: Event, r: Option<PermissionMode>) -> bool {
    &&& ({
        let cycles = pre.is_composing() && (input::pressed(event) matches Some((code, m))
            && cycles_mode(code, m));
        let next = pre.permission_mode.following();
        if cycles {
            &&& r == Some(next)
            &&& post == (AppState { permission_mode: next, ..pre })
        } else {
            r is None && post == pre
        }
    })
}

/// Cycles the permission mode (Auto → Plan → Approve → Manual → Auto) on Shift+Tab from the chat
/// composer, returning the newly selected mode.
///
/// Handled ahead of `handle_chat_event` so a Shift+Tab keypress never falls through to plain
/// Tab's autocomplete behavior.
#[must_use]
pub fn handle_permission_mode_event(state: &mut AppState, event: &Event) -> (r: Option<
    PermissionMode,
>)
    requires
        old(state).wf(),
    ensures
        final(state).wf(),
        cycles(*old(state), *final(state), *event, r),
{
    if !state.composing() {
        return None;
    }
    match input::key_press(event) {
        Some((code, m)) => {
            if code == KeyCode::BackTab || code == KeyCode::F(2) || (code == KeyCode::Tab
                && m.shift) {
                state.permission_mode = state.permission_mode.cycle();
                Some(state.permission_mode)
            } else {
                None
            }
        },
        None => None,
    }
}

/// What is typed as the credential is what is handed out, and it is forgotten then.
pub proof fn law_the_typed_credential_is_handed_out(
    a: AppState,
    b: AppState,
    c: AppState,
    typing: Event,
    enter: Event,
    ch: char,
    m: KeyModifiers,
    n: KeyModifiers,
    none: Option<String>,
    r: Option<String>,
)
    requires
        a.screen == Screen::Onboarding,
        input::pressed(typing) == Some((KeyCode::Char(ch), m)),
        !(typing is Paste) && !(enter is Paste),
        !m.control && !m.alt,
        input::pressed(enter) == Some((KeyCode::Enter, n)),
        onboards(a, b, typing, none),
        onboards(b, c, enter, r),
    ensures
        none is None,
        r matches Some(key) && key@ == a.pickers.credential_input@.push(ch),
        c.pickers.credential_input@.len() == 0,
        c.screen == Screen::Onboarding,
{
}

proof fn lemma_model_row(p: Pickers, from: int, at: int)
    requires
        p.current_model is Some,
        0 <= from <= at <= p.models@.len(),
        forall|j: int| from <= j < at ==> (#[trigger] p.models@[j])@ != p.current_model->0@,
        at < p.models@.len() ==> p.models@[at]@ == p.current_model->0@,
    ensures
        model_row(p, from) == (if at < p.models@.len() {
            at
        } else {
            0
        }),
    decreases at - from,
{
    if from < at {
        lemma_model_row(p, from + 1, at);
    }
}

/// The list of models opens on the one in use, and on the first where that one is not listed.
pub proof fn law_the_models_open_on_the_current_one(p: Pickers, at: int)
    requires
        p.current_model is Some,
        0 <= at <= p.models@.len(),
        forall|j: int| 0 <= j < at ==> (#[trigger] p.models@[j])@ != p.current_model->0@,
        at < p.models@.len() ==> p.models@[at]@ == p.current_model->0@,
    ensures
        model_row(p, 0) == (if at < p.models@.len() {
            at
        } else {
            0
        }),
{
    lemma_model_row(p, 0, at);
}

/// Enter takes the row that a step down has just selected: the model or the session.
pub proof fn law_enter_takes_the_selected_row(
    a: AppState,
    b: AppState,
    c: AppState,
    down: Event,
    enter: Event,
    m: KeyModifiers,
    n: KeyModifiers,
    none: Option<String>,
    r: Option<String>,
)
    requires
        input::pressed(down) == Some((KeyCode::Down, m)),
        input::pressed(enter) == Some((KeyCode::Enter, n)),
        a.pickers.selected_model < usize::MAX,
        a.pickers.selected_session < usize::MAX,
    ensures
        a.screen == Screen::ModelPicker && !a.pickers.model_flow_pending_effort
            && a.pickers.selected_model + 1 < a.pickers.models@.len() && picks_model(
            a,
            b,
            down,
            none,
        ) && picks_model(b, c, enter, r) ==> r == Some(
            a.pickers.models@[a.pickers.selected_model + 1],
        ),
        a.screen == Screen::SessionPicker && a.pickers.selected_session + 1
            < a.pickers.sessions@.len() && picks_session(a, b, down, none) && picks_session(
            b,
            c,
            enter,
            r,
        ) ==> r == Some(a.pickers.sessions@[a.pickers.selected_session + 1].id),
{
}

} // verus!
