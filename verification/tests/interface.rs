//! The interface: what events and keys do to its state, and what it shows.

use gocode::protocol::{
    AgentActivityState, AppEvent, ChatMessage, CustomCommand, GuidedChoice, GuidedQuestion, KeyAction,
    McpAuthConfig, McpServerStatus, McpTransportConfig, PermissionChoice, PermissionMode,
    SessionSummary, SessionTransition, SkillSource, SkillSummary, SubagentMode, SubagentRecord,
    SubagentResult, ThemeName, ToolActivityStatus, WorktreeBranchSource, WorktreeSummary,
};
use gocode::tui::chat::handle_chat_event;
use gocode::tui::commands::{
    resolve_slash_command, slash_suggestions, ChatSubmission, SlashCommand,
};
use gocode::tui::composer::char_index_from_line_col;
use gocode::tui::entry::ChatEntry;
use gocode::tui::input::{
    classify_event, Event, InputAction, KeyCode, KeyEvent, KeyEventKind, KeyModifiers,
    MouseButton, MouseEvent, MouseEventKind,
};
use gocode::tui::layout::{chat_layout, Rect};
use gocode::tui::mcp::{handle_mcp_event, McpEventOutcome};
use gocode::tui::mouse::{extract_selected_text, handle_mouse_event};
use gocode::tui::panels::{
    handle_agents_event, handle_help_event, handle_skills_event, AgentsEventOutcome,
    SkillsEventOutcome,
};
use gocode::tui::pickers::{
    handle_effort_picker_event, handle_model_picker_event, handle_onboarding_event,
    handle_permission_mode_event, handle_session_picker_event, handle_settings_event,
};
use gocode::tui::preferences::{ActionEntry, Catalog};
use gocode::tui::prompts::{
    handle_agent_confirm_event, handle_agent_conflict_event, handle_guided_question_event,
    handle_permission_event, handle_update_event, handle_worktree_removal_event,
    AgentConfirmAction, AgentConflictEventOutcome, UpdateEventOutcome,
};
use gocode::tui::requests::{
    parse_agent_command, parse_worktree_command, AgentInvocation, ModeEntry, WorktreeInvocation,
};
use gocode::tui::run::RunPhase;
use gocode::tui::state::{
    effort_index, AgentsView, AppState, ConflictFileState, ConflictResolution, HelpTab,
    McpAddStep, McpView, PendingAgentConfirm, PendingAgentConflict, Screen, Selection,
    SelectionPoint, SkillsView, UpdateStage,
};
use gocode::tui::transcript::{compose_lines, compose_lines_tagged, wrapped_history_lines};
use gocode::tui::view::chat::{composer_view, history_title, history_view, interrupt_hint_text};
use gocode::tui::view::modals::{
    agent_confirm_text, agent_conflict_text, blocking_error_text, copy_notification_area,
    download_label, guided_question_text, permission_text, undo_conflict_text, update_lines,
    worktree_removal_text,
};
use gocode::tui::view::popups::{
    agents_list_text, help_tab_content, mcp_menu_text, skills_menu_text,
};
use gocode::tui::view::scene::{scene, Overlay, Scene, TOO_SMALL};
use gocode::tui::view::screens::{
    effort_picker_text, format_relative_time, model_picker_text, onboarding_text,
    session_picker_text, settings_text,
};
use gocode::tui::view::theme::{theme_tokens, Color};
use gocode::tui::wrap::{
    compute_visible_window, selected_char_range, visible_suggestion_window, wrap_lines,
    LineKind, MAX_VISIBLE_SUGGESTIONS,
};

fn catalog() -> Catalog {
    let action = |action: KeyAction, label: &str, shortcut: &str| ActionEntry {
        action,
        label: label.to_owned(),
        shortcut: shortcut.to_owned(),
    };
    Catalog {
        version: "0.1.0".to_owned(),
        actions: vec![
            action(KeyAction::Approve, "Approve", "y"),
            action(KeyAction::Reject, "Reject", "n"),
            action(KeyAction::InterruptExecution, "Interrupt", "esc"),
        ],
        themes: Vec::new(),
        personalities: Vec::new(),
        compact_threshold: 100_000,
    }
}

fn fresh() -> AppState {
    AppState::new(&catalog())
}

fn none() -> KeyModifiers {
    KeyModifiers::none()
}

fn control() -> KeyModifiers {
    KeyModifiers { control: true, ..KeyModifiers::none() }
}

fn shift() -> KeyModifiers {
    KeyModifiers { shift: true, ..KeyModifiers::none() }
}

fn key(code: KeyCode, modifiers: KeyModifiers, kind: KeyEventKind) -> Event {
    Event::Key(KeyEvent { code, modifiers, kind })
}

fn press(code: KeyCode) -> Event {
    key(code, none(), KeyEventKind::Press)
}

fn state_with(set: impl FnOnce(&mut AppState)) -> AppState {
    let mut state = fresh();
    set(&mut state);
    state
}

fn chatting() -> AppState {
    state_with(|s| s.screen = Screen::Chat)
}

fn two_lines() -> Vec<String> {
    vec!["first".to_owned(), "second".to_owned()]
}

/// Everything that a terminal of the given size shows, as one text.
fn painted(state: &AppState, size: (u16, u16)) -> String {
    let area = Rect { x: 0, y: 0, width: size.0, height: size.1 };
    let overlay = match scene(state, area) {
        Scene::TooSmall => return TOO_SMALL.to_owned(),
        Scene::Plain(Screen::Onboarding) => return onboarding_text(state),
        Scene::Plain(Screen::ModelPicker) => return model_picker_text(state, area.height),
        Scene::Plain(Screen::Settings) => return settings_text(state),
        Scene::Plain(Screen::EffortPicker) => return effort_picker_text(state),
        Scene::Plain(Screen::SessionPicker) => return session_picker_text(state, area.height),
        Scene::Plain(_) => return String::new(),
        Scene::Chat(overlay) => overlay,
    };
    let (history, composer) = chat_layout(area, state);
    let mut shown = format!("{}\n", history_title(state));
    for row in history_view(state, history) {
        shown.push_str(&format!("{}{}{}\n", row.before, row.marked, row.after));
    }
    let rows = composer_view(state, mode_name(state.permission_mode), composer);
    for line in rows.input.iter().chain(&rows.suggestions).chain(&rows.more).chain(&rows.status) {
        shown.push_str(&format!("{line}\n"));
    }
    shown.push_str(&rows.mode);
    if let Some(gap) = rows.gap {
        shown.push_str(&format!("{}{}", " ".repeat(gap), interrupt_hint_text()));
    }
    if let Some(message) = &state.copy_notification {
        if copy_notification_area(message, history).is_some() {
            shown.push_str(message);
        }
    }
    let above = match overlay {
        Overlay::Nothing => String::new(),
        Overlay::Permission => permission_text(state.prompts.pending_permission.as_ref().unwrap()),
        Overlay::GuidedQuestion => guided_question_text(
            state.prompts.pending_guided_question.as_ref().unwrap(),
            state.prompts.selected_guided_choice,
        ),
        Overlay::WorktreeRemoval => {
            worktree_removal_text(state.prompts.pending_worktree_removal.as_ref().unwrap())
        }
        Overlay::AgentConfirm => {
            agent_confirm_text(state.prompts.pending_agent_confirm.as_ref().unwrap()).1
        }
        Overlay::AgentConflict => {
            agent_conflict_text(state.prompts.pending_agent_conflict.as_ref().unwrap())
        }
        Overlay::UndoConflict => {
            undo_conflict_text(state.prompts.pending_undo_conflict.as_ref().unwrap())
        }
        Overlay::Update => {
            let prompt = state.updates.pending_update.as_ref().unwrap();
            let (title, lines) = update_lines(prompt);
            let label = match prompt.stage {
                UpdateStage::Downloading { percent, .. } => download_label(percent),
                _ => String::new(),
            };
            format!("{title}\n{}\n{label}", lines.join("\n"))
        }
        Overlay::BlockingError => {
            blocking_error_text(state.prompts.blocking_error.as_ref().unwrap())
        }
        Overlay::Help => help_tab_content(state, state.help.tab),
        Overlay::Skills => skills_menu_text(state.skill_panel.selected),
        Overlay::Mcp => mcp_menu_text(state.mcp.selected),
        Overlay::Agents => agents_list_text(state, area.height),
    };
    format!("{shown}\n{above}")
}

fn mode_name(mode: PermissionMode) -> &'static str {
    match mode {
        PermissionMode::Auto => "auto",
        PermissionMode::Plan => "plan",
        PermissionMode::Approve => "approve",
        PermissionMode::Manual => "manual",
    }
}

fn modes() -> Vec<ModeEntry> {
    [
        (SubagentMode::Research, "research"),
        (SubagentMode::Plan, "plan"),
        (SubagentMode::Implement, "implement"),
        (SubagentMode::Review, "review"),
    ]
    .into_iter()
    .map(|(mode, name)| ModeEntry { mode, name: name.to_owned() })
    .collect()
}

fn record(id: &str, task: &str, mode: &str) -> SubagentRecord {
    SubagentRecord {
        id: id.to_owned(),
        parent_subagent_id: None,
        depth: 1,
        task_summary: task.to_owned(),
        mode: mode.to_owned(),
        status: "queued".to_owned(),
        elapsed_seconds: 0,
        model: "test-model".to_owned(),
        worktree_path: None,
        branch: None,
        messages: Vec::new(),
        result: None,
    }
}

fn sample_agent_records() -> Vec<SubagentRecord> {
    vec![
        record("a1b2c3d4", "investigate flaky login test", "research"),
        record("e5f6a7b8", "add a doc comment", "implement"),
    ]
}

fn agent_with_next_steps(steps: &[&str]) -> SubagentRecord {
    let mut record = sample_agent_records().remove(0);
    record.status = "completed".to_owned();
    record.result = Some(SubagentResult {
        summary: "investigated the login flow".into(),
        findings: Vec::new(),
        files_changed: Vec::new(),
        risks: Vec::new(),
        next_steps: steps.iter().map(|step| (*step).to_string()).collect(),
        error: None,
    });
    record
}

#[test]
fn the_copy_notification_does_not_overwrite_the_history_border() {
    let mut state = chatting();
    state.copy_notification = Some("Copied 78 chars to clipboard".into());
    let terminal_area = Rect { x: 0, y: 0, width: 80, height: 20 };
    let (history_area, _) = chat_layout(terminal_area, &state);

    let area = copy_notification_area("Copied 78 chars to clipboard", history_area)
        .expect("the notification fits");
    assert_eq!(area.width, 28);
    assert!(area.y < history_area.y + history_area.height - 1);
    assert!(area.x + area.width < history_area.x + history_area.width);
    assert!(painted(&state, (80, 20)).contains("Copied 78 chars to clipboard"));
}

#[test]
fn relative_time_reports_minutes_and_hours_within_a_day() {
    let now = std::time::SystemTime::now()
        .duration_since(std::time::UNIX_EPOCH)
        .expect("clock should be after epoch")
        .as_secs();

    assert_eq!(
        format_relative_time(i64::try_from(now).unwrap() - 60, now),
        "1 minute ago"
    );
    assert_eq!(
        format_relative_time(i64::try_from(now).unwrap() - 2 * 3600, now),
        "2 hours ago"
    );
    // Beyond a day comes an absolute date, not a relative phrase.
    let over_a_day_ago = i64::try_from(now).unwrap() - 25 * 3600;
    assert!(!format_relative_time(over_a_day_ago, now).contains("ago"));
}

#[test]
fn the_effort_slash_command_resolves_and_skips_the_model_picker() {
    assert_eq!(resolve_slash_command("/effort"), Some(SlashCommand::Effort));

    let mut state = state_with(|s| {
        s.screen = Screen::EffortPicker;
        s.pickers.model_flow_pending_effort = false;
        s.pickers.pending_model = None;
        s.pickers.current_effort = Some("high".into());
        s.pickers.selected_effort = effort_index(&Some("high".into()));
    });

    assert_eq!(state.pickers.selected_effort, 3);
    assert_eq!(
        handle_effort_picker_event(&mut state, &press(KeyCode::Enter)),
        Some(Some("high".to_string()))
    );
    assert!(state.pickers.pending_model.is_none());
}

#[test]
fn themes_expose_distinct_semantic_tokens_and_no_color_is_safe() {
    assert_ne!(
        theme_tokens(ThemeName::Light, true).background,
        theme_tokens(ThemeName::Dark, true).background
    );
    let fallback = theme_tokens(ThemeName::HighContrast, false);
    assert_eq!(fallback.primary, Color::Reset);
    assert_eq!(fallback.danger, Color::Reset);
}

#[test]
fn help_includes_preference_commands() {
    let state = fresh();
    let help = help_tab_content(&state, HelpTab::Commands);
    assert!(help.contains("/keymap"));
    assert!(help.contains("/theme"));
    assert!(help.contains("/personality"));
}

#[test]
fn parses_debug_description_and_auxiliary_commands() {
    let mut state = chatting();
    state.composer.set_chat_input("/debug login fails after refresh".into());
    assert_eq!(
        handle_chat_event(
            &mut state,
            &press(KeyCode::Enter)
        ),
        Some(ChatSubmission::Command(SlashCommand::Debug(
            "login fails after refresh".into()
        )))
    );
    state.composer.set_chat_input("/debug status".into());
    assert_eq!(
        handle_chat_event(
            &mut state,
            &press(KeyCode::Enter)
        ),
        Some(ChatSubmission::Command(SlashCommand::Debug(
            "status".into()
        )))
    );
}

#[test]
fn guided_question_selects_recommended_choice_and_returns_its_label() {
    let mut state = chatting();
    state.apply(&AppEvent::GuidedQuestionRequested(
        GuidedQuestion {
            title: "How should I proceed?".into(),
            context: "Two valid approaches were found.".into(),
            choices: vec![
                GuidedChoice {
                    label: "Minimal change".into(),
                    summary: "Reuse the existing module.".into(),
                    advantages: "Lower risk.".into(),
                    disadvantages: "Less flexible.".into(),
                    recommended: true,
                },
                GuidedChoice {
                    label: "New module".into(),
                    summary: "Create an isolated abstraction.".into(),
                    advantages: "More flexible.".into(),
                    disadvantages: "More code.".into(),
                    recommended: false,
                },
            ],
        },
    ));

    assert_eq!(state.prompts.selected_guided_choice, 0);
    assert_eq!(
        handle_guided_question_event(
            &mut state,
            &press(KeyCode::Enter),
        ),
        Some("Minimal change".into())
    );
    assert!(state.prompts.pending_guided_question.is_none());
}

#[test]
fn boot_lifecycle_events_render_boot_then_chat() {
    let mut state = fresh();

    state.apply(&AppEvent::BootStarted);
    assert_eq!(state.screen, Screen::Boot);

    state.apply(&AppEvent::BootCompleted);
    assert_eq!(state.screen, Screen::Chat);
}

#[test]
fn restoring_the_saved_reasoning_effort_at_boot_does_not_spam_the_transcript() {
    let mut state = chatting();

    state.apply(&AppEvent::ReasoningEffortChanged {
        effort: Some("high".into()),
        announce: false,
    });
    assert!(state.transcript.entries.is_empty());

    state.apply(&AppEvent::ReasoningEffortChanged {
        effort: Some("low".into()),
        announce: true,
    });
    assert_eq!(state.transcript.entries.len(), 1);
}

#[test]
fn update_waits_for_the_active_run_then_requires_explicit_confirmation() {
    let mut state = state_with(|s| {
        s.screen = Screen::Chat;
        s.transcript.activity = Some(AgentActivityState::Thinking);
    });
    state.apply(&AppEvent::UpdateAvailable {
        current_version: "0.0.1".into(),
        version: "0.0.2".into(),
        notes: "A safer updater.".into(),
    });
    assert!(state.updates.pending_update.is_none());
    state.apply(&AppEvent::AgentCompleted {
        final_text: None,
        turns: 1,
        tool_calls: 0,
        failed_tool_calls: 0,
        last_input_tokens: None,
        partial: false,
    });
    assert_eq!(
        state
            .updates.pending_update
            .as_ref()
            .map(|prompt| prompt.version.as_str()),
        Some("0.0.2")
    );
    assert_eq!(
        handle_update_event(&mut state, &press(KeyCode::Char('n'))),
        UpdateEventOutcome::Rejected
    );
    assert!(state.updates.pending_update.is_none());
}

#[test]
fn active_run_shows_phase_current_action_and_validation_impact() {
    let mut state = chatting();
    state.begin_run("add a health endpoint".into());
    state.apply(&AppEvent::ToolActivity {
        id: "edit-1".into(),
        name: "apply_patch".into(),
        status: ToolActivityStatus::Succeeded,
        detail: "updated src/health.rs".into(),
    });
    state.apply(&AppEvent::FileChanged {
        path: "src/health.rs".into(),
        kind: "modified".into(),
    });
    state.apply(&AppEvent::ToolActivity {
        id: "test-1".into(),
        name: "run_command".into(),
        status: ToolActivityStatus::Started,
        detail: "cargo test".into(),
    });

    let size = (100, 24);
    let shown = painted(&state, size);
    let output = shown;

    assert!(output.contains("Validando"));
    assert!(output.contains("cargo test"));
    assert!(output.contains("1 arquivo alterado"));
    assert!(output.contains("validação pendente"));
    assert!(output.contains("0s"));
}

#[test]
fn non_validation_command_is_not_presented_as_validation() {
    let mut state = fresh();
    state.begin_run("inspect repository state".into());
    state.apply(&AppEvent::ToolActivity {
        id: "command-1".into(),
        name: "run_command".into(),
        status: ToolActivityStatus::Started,
        detail: "git status".into(),
    });

    assert_eq!(state.transcript.run_visibility.phase, RunPhase::Understanding);
    assert!(!state.transcript.run_visibility.validation_pending);
}

fn update_prompt_state() -> AppState {
    let mut state = chatting();
    state.apply(&AppEvent::UpdateAvailable {
        current_version: "0.1.0".into(),
        version: "0.2.0".into(),
        notes: "Release notes.".into(),
    });
    state
}

#[test]
fn accepting_the_update_moves_straight_to_the_downloading_stage() {
    let mut state = update_prompt_state();
    assert_eq!(
        handle_update_event(&mut state, &press(KeyCode::Char('y'))),
        UpdateEventOutcome::Accepted
    );
    assert!(matches!(
        state.updates.pending_update.as_ref().map(|prompt| &prompt.stage),
        Some(UpdateStage::Downloading { percent: None, .. })
    ));
}

#[test]
fn progress_and_ready_events_drive_the_popup_through_to_completion() {
    let mut state = update_prompt_state();
    handle_update_event(&mut state, &press(KeyCode::Char('y')));

    state.apply(&AppEvent::UpdateProgress {
        percent: Some(42),
        message: "Downloading update…".into(),
    });
    assert!(matches!(
        state.updates.pending_update.as_ref().map(|prompt| &prompt.stage),
        Some(UpdateStage::Downloading {
            percent: Some(42),
            ..
        })
    ));

    // While downloading, no key does anything but the popup keeps consuming input.
    assert_eq!(
        handle_update_event(&mut state, &press(KeyCode::Esc)),
        UpdateEventOutcome::Handled
    );

    state.apply(&AppEvent::UpdateReady {
        message: "Gocode will restart to finish the update.".into(),
    });
    assert!(matches!(
        state.updates.pending_update.as_ref().map(|prompt| &prompt.stage),
        Some(UpdateStage::Completed { .. })
    ));

    assert_eq!(
        handle_update_event(&mut state, &press(KeyCode::Enter)),
        UpdateEventOutcome::RestartRequested
    );
    // The popup stays up until the driver confirms the exit; Close doesn't dismiss it.
    assert!(state.updates.pending_update.is_some());
}

#[test]
fn a_failed_update_shows_the_failure_and_close_dismisses_it() {
    let mut state = update_prompt_state();
    handle_update_event(&mut state, &press(KeyCode::Char('y')));

    state.apply(&AppEvent::UpdateFailed(
        "The download could not be verified.".into(),
    ));
    assert!(matches!(
        state.updates.pending_update.as_ref().map(|prompt| &prompt.stage),
        Some(UpdateStage::Failed(message)) if message == "The download could not be verified."
    ));

    assert_eq!(
        handle_update_event(&mut state, &press(KeyCode::Enter)),
        UpdateEventOutcome::Handled
    );
    assert!(state.updates.pending_update.is_none());
}

#[test]
fn every_update_stage_renders_without_panicking() {
    let size = (80, 24);

    let mut prompt_state = update_prompt_state();
    let shown = painted(&prompt_state, size);
    assert!(shown.contains("New update"));

    handle_update_event(&mut prompt_state, &press(KeyCode::Char('y')));
    assert!(painted(&prompt_state, size).contains("Updating to 0.2.0"));

    prompt_state.apply(&AppEvent::UpdateProgress {
        percent: Some(55),
        message: "Downloading update…".into(),
    });
    let shown = painted(&prompt_state, size);
    assert!(shown.contains("55%"));

    prompt_state.apply(&AppEvent::UpdateReady {
        message: "Gocode will restart to finish the update.".into(),
    });
    let shown = painted(&prompt_state, size);
    assert!(shown.contains("Completed"));

    let mut failed_state = update_prompt_state();
    handle_update_event(&mut failed_state, &press(KeyCode::Char('y')));
    failed_state.apply(&AppEvent::UpdateFailed("Network unreachable.".into()));
    let shown = painted(&failed_state, size);
    assert!(shown.contains("Network unreachable."));
}

#[test]
fn chat_screen_renders_the_initial_prompt() {
    let size = (80, 20);
    let state = chatting();
    let shown = painted(&state, size);

    let content = shown;
    assert!(content.contains("What can I help you build?"));
}

#[test]
fn the_ascii_banner_scrolls_with_history_instead_of_staying_pinned() {
    let mut state = chatting();
    let empty_lines = compose_lines(&state);
    assert!(
        empty_lines
            .iter()
            .any(|line| line.contains("GOCODE") || line.contains('█'))
    );

    state.begin_run("hello".into());
    let busy_lines = compose_lines(&state);
    assert!(busy_lines.iter().any(|line| line.contains('█')));
    assert!(busy_lines.iter().any(|line| line.trim() == "hello"));
}

#[test]
fn user_messages_are_tagged_without_a_literal_you_prefix() {
    let mut state = chatting();
    state.begin_run("hello there".into());

    let tagged = compose_lines_tagged(&state);
    assert!(
        tagged
            .iter()
            .any(|(text, kind)| *kind == LineKind::User && text.trim() == "hello there")
    );
    assert!(tagged.iter().all(|(text, _)| !text.starts_with("You:")));
}

#[test]
fn wrapped_history_is_cached_until_content_or_width_changes() {
    let mut state = chatting();
    state.begin_run("hi".into());

    wrapped_history_lines(&mut state, 40);
    let hash_after_first_draw = state.history_wrap_cache.source_hash();

    // Redrawing at the same width without touching the conversation must hit the cache.
    wrapped_history_lines(&mut state, 40);
    assert_eq!(
        state.history_wrap_cache.source_hash(),
        hash_after_first_draw
    );

    // New content invalidates the cache.
    state.transcript.entries.push(ChatEntry::Info("new".into()));
    wrapped_history_lines(&mut state, 40);
    assert_ne!(
        state.history_wrap_cache.source_hash(),
        hash_after_first_draw
    );

    // A width change invalidates it too, even with unchanged content.
    let hash_after_second_draw = state.history_wrap_cache.source_hash();
    wrapped_history_lines(&mut state, 20);
    assert_eq!(
        state.history_wrap_cache.source_hash(),
        hash_after_second_draw
    );
    assert_eq!(state.history_wrap_cache.width(), 20);
}

#[test]
fn the_permission_mode_line_is_visible_even_with_a_status_line_shown() {
    let size = (80, 20);
    let mut state = chatting();
    state.apply(&AppEvent::ModelSelected("nvidia/model".into()));
    let shown = painted(&state, size);

    assert!(shown.contains("auto mode on"));
}

#[test]
fn esc_to_interrupt_hint_shows_only_while_the_agent_is_active() {
    let size = (80, 20);
    let mut state = chatting();
    let shown = painted(&state, size);
    assert!(!shown.contains("ESC to interrupt"));

    state.begin_run("hi".into());
    let shown = painted(&state, size);
    assert!(shown.contains("ESC to interrupt"));
}

#[test]
fn shift_tab_cycles_the_permission_mode_through_auto_plan_approve_manual() {

    let mut state = chatting();
    assert_eq!(state.permission_mode, PermissionMode::Auto);

    let back_tab = key(KeyCode::BackTab, none(), KeyEventKind::Press);

    assert_eq!(
        handle_permission_mode_event(&mut state, &back_tab),
        Some(PermissionMode::Plan)
    );
    assert_eq!(
        handle_permission_mode_event(&mut state, &back_tab),
        Some(PermissionMode::Approve)
    );
    assert_eq!(
        handle_permission_mode_event(&mut state, &back_tab),
        Some(PermissionMode::Manual)
    );
    assert_eq!(
        handle_permission_mode_event(&mut state, &back_tab),
        Some(PermissionMode::Auto)
    );
}

#[test]
fn credential_onboarding_masks_the_api_key() {
    let mut state = fresh();
    state.apply(&AppEvent::CredentialRequired);
    state.push_credential_character('a');
    state.push_credential_character('b');
    let size = (80, 20);
    let shown = painted(&state, size);

    let content = shown;
    assert!(content.contains("NVIDIA API key"));
    assert!(content.contains("••"));
    assert!(!content.contains("ab"));
}

#[test]
fn onboarding_submission_moves_the_key_out_of_tui_state() {
    let mut state = fresh();
    state.apply(&AppEvent::CredentialRequired);
    state.push_credential_character('a');

    assert_eq!(state.take_credential_submission(), Some("a".into()));
    assert_eq!(state.take_credential_submission(), None);
}

#[test]
fn onboarding_paste_appends_the_api_key_without_submitting_it() {
    let mut state = fresh();
    state.apply(&AppEvent::CredentialRequired);

    assert_eq!(
        handle_onboarding_event(&mut state, &Event::Paste("nvapi-secret".into())),
        None
    );
    assert_eq!(
        state.take_credential_submission(),
        Some("nvapi-secret".into())
    );
}

#[test]
fn model_picker_confirms_the_highlighted_model() {
    let mut state = fresh();
    state.apply(&AppEvent::ModelsAvailable(vec!["nvidia/model".into()]));
    let submit = press(KeyCode::Enter);

    assert_eq!(
        handle_model_picker_event(&mut state, &submit),
        Some("nvidia/model".into())
    );
}

#[test]
fn esc_cancels_the_model_picker_only_when_a_model_was_already_selected() {
    let mut state = fresh();
    state.apply(&AppEvent::ModelsAvailable(vec!["nvidia/model".into()]));

    assert_eq!(
        handle_model_picker_event(&mut state, &press(KeyCode::Esc)),
        None
    );
    assert_eq!(state.screen, Screen::ModelPicker);

    state.apply(&AppEvent::ModelSelected("nvidia/model".into()));
    state.screen = Screen::ModelPicker;

    assert_eq!(
        handle_model_picker_event(&mut state, &press(KeyCode::Esc)),
        None
    );
    assert_eq!(state.screen, Screen::Chat);
}

#[test]
fn esc_cancels_credential_onboarding_only_when_a_model_was_already_selected() {
    let mut state = fresh();
    state.apply(&AppEvent::CredentialRequired);
    state.push_credential_character('a');

    assert_eq!(
        handle_onboarding_event(&mut state, &press(KeyCode::Esc)),
        None
    );
    assert_eq!(state.screen, Screen::Onboarding);

    state.apply(&AppEvent::ModelSelected("nvidia/model".into()));
    state.screen = Screen::Onboarding;
    state.push_credential_character('a');

    assert_eq!(
        handle_onboarding_event(&mut state, &press(KeyCode::Esc)),
        None
    );
    assert_eq!(state.screen, Screen::Chat);
}

#[test]
fn resize_key_release_and_plain_q_do_not_exit_the_tui() {
    assert_eq!(
        classify_event(&Event::Resize(120, 40)),
        InputAction::Continue
    );
    assert_eq!(
        classify_event(&key(KeyCode::Char('q'), none(), KeyEventKind::Press)),
        InputAction::Continue
    );
    assert_eq!(
        classify_event(&key(KeyCode::Char('q'), none(), KeyEventKind::Release)),
        InputAction::Continue
    );
}

#[test]
fn ctrl_c_is_the_global_exit_action() {
    assert_eq!(
        classify_event(&key(KeyCode::Char('c'), control(), KeyEventKind::Press)),
        InputAction::Interrupt
    );
}

#[test]
fn streaming_deltas_append_to_one_assistant_entry_per_run() {
    let mut state = chatting();
    state.begin_run("hi".into());

    state.apply(&AppEvent::AssistantTextDelta("Hel".into()));
    state.apply(&AppEvent::AssistantTextDelta("lo".into()));

    assert_eq!(
        state.transcript.entries.last(),
        Some(&ChatEntry::Assistant("Hello".into()))
    );
}

#[test]
fn streaming_reasoning_deltas_append_to_one_entry_and_a_turn_with_only_reasoning_is_not_empty()
{
    let mut state = chatting();
    state.begin_run("hi".into());

    state.apply(&AppEvent::AssistantReasoningDelta("hmm".into()));
    state.apply(&AppEvent::AssistantReasoningDelta(", let me think".into()));

    assert_eq!(
        state.transcript.entries.last(),
        Some(&ChatEntry::Reasoning("hmm, let me think".into()))
    );

    state.apply(&AppEvent::AgentCompleted {
        final_text: None,
        turns: 1,
        tool_calls: 0,
        failed_tool_calls: 0,
        last_input_tokens: None,
        partial: false,
    });

    assert!(
        compose_lines(&state)
            .iter()
            .any(|line| line.contains("hmm, let me think"))
    );
}

#[test]
fn tool_activity_updates_the_same_entry_by_id() {
    let mut state = fresh();

    state.apply(&AppEvent::ToolActivity {
        id: "call-1".into(),
        name: "read_file".into(),
        status: ToolActivityStatus::Started,
        detail: "running".into(),
    });
    state.apply(&AppEvent::ToolActivity {
        id: "call-1".into(),
        name: String::new(),
        status: ToolActivityStatus::Succeeded,
        detail: "done".into(),
    });

    assert_eq!(state.transcript.entries.len(), 1);
    let ChatEntry::Tool { name, status, .. } = &state.transcript.entries[0] else {
        panic!("expected a tool entry");
    };
    assert_eq!(name, "read_file");
    assert_eq!(*status, ToolActivityStatus::Succeeded);
}

#[test]
fn tool_output_is_collapsed_until_toggled() {
    let mut state = fresh();
    state.apply(&AppEvent::ToolActivity {
        id: "call-1".into(),
        name: "run_command".into(),
        status: ToolActivityStatus::Started,
        detail: "running".into(),
    });
    for line in 0..10 {
        state.apply(&AppEvent::ToolOutputChunk {
            id: "call-1".into(),
            chunk: format!("line {line}\n"),
        });
    }

    let size = (80, 20);
    let mut chat_state = state.clone();
    chat_state.screen = Screen::Chat;
    let shown = painted(&chat_state, size);
    assert!(!shown.contains("line 9"));

    chat_state.toggle_last_tool_output();
    let shown = painted(&chat_state, size);
    assert!(shown.contains("line 9"));
}

#[test]
fn permission_prompt_blocks_chat_input_and_resolves_on_yes() {
    let mut state = chatting();
    state.apply(&AppEvent::PermissionRequested {
        summary: "run: npm install".into(),
        working_directory: ".".into(),
        scope_label: "comandos de risco médio".into(),
    });

    assert_eq!(
        handle_chat_event(&mut state, &press(KeyCode::Char('x'))),
        None
    );
    assert_eq!(
        handle_permission_event(&mut state, &press(KeyCode::Char('y'))),
        Some(PermissionChoice::AllowOnce)
    );
    assert!(state.prompts.pending_permission.is_none());
}

#[test]
fn permission_denial_via_n_clears_the_prompt() {
    let mut state = fresh();
    state.apply(&AppEvent::PermissionRequested {
        summary: "run: rm".into(),
        working_directory: ".".into(),
        scope_label: "comandos de alto risco".into(),
    });

    assert_eq!(
        handle_permission_event(&mut state, &press(KeyCode::Char('n'))),
        Some(PermissionChoice::Deny)
    );
    assert!(state.prompts.pending_permission.is_none());
}

#[test]
fn permission_prompt_can_allow_a_command_risk_for_the_session() {
    let mut state = fresh();
    state.apply(&AppEvent::PermissionRequested {
        summary: "run: npm install".into(),
        working_directory: ".".into(),
        scope_label: "comandos de risco médio".into(),
    });

    assert_eq!(
        handle_permission_event(&mut state, &press(KeyCode::Char('2'))),
        Some(PermissionChoice::AllowAlways)
    );
    assert!(state.prompts.pending_permission.is_none());
}

#[test]
fn cancellation_clears_a_stale_permission_prompt() {
    let mut state = fresh();
    state.apply(&AppEvent::PermissionRequested {
        summary: "run: rm".into(),
        working_directory: ".".into(),
        scope_label: "comandos de alto risco".into(),
    });

    state.apply(&AppEvent::AgentCancelled);

    assert!(state.prompts.pending_permission.is_none());
}

#[test]
fn agent_stopped_releases_the_running_tools_indicator_left_by_a_limit_warning() {
    // A run that hits a safety limit (max turns, a detected loop, ...) sends an AgentWarning
    // with the explanation, then AgentStopped as the terminal signal — mirroring what a
    // successful or cancelled run would otherwise do to release the busy indicator.
    let mut state = fresh();
    state.apply(&AppEvent::AgentStateChanged(
        AgentActivityState::RunningTools,
    ));
    assert!(state.transcript.activity.is_some());

    state.apply(&AppEvent::AgentWarning(
        "run stopped: the maximum number of turns was reached".into(),
    ));
    state.apply(&AppEvent::AgentStopped);

    assert!(state.transcript.activity.is_none());
    assert!(
        state
            .transcript.entries
            .iter()
            .any(|entry| matches!(entry, ChatEntry::Warning(message) if message.contains("maximum number of turns")))
    );
}

#[test]
fn blocking_error_suppresses_chat_input_until_dismissed() {
    let mut state = chatting();
    state.apply(&AppEvent::BlockingError("credential rejected".into()));

    assert_eq!(
        handle_chat_event(&mut state, &press(KeyCode::Char('x'))),
        None
    );
    assert!(state.composer.chat_input.is_empty());
}

#[test]
fn slash_command_is_recognized_and_cleared_from_the_composer() {
    let mut state = state_with(|s| {
        s.screen = Screen::Chat;
        s.composer.chat_input = "/clear".into();
    });

    assert_eq!(
        handle_chat_event(&mut state, &press(KeyCode::Enter)),
        Some(ChatSubmission::Command(SlashCommand::Clear))
    );
    assert!(state.composer.chat_input.is_empty());
}

#[test]
fn review_with_no_target_reviews_the_working_tree_diff() {
    let mut state = state_with(|s| {
        s.screen = Screen::Chat;
        s.composer.chat_input = "/review".into();
    });

    assert_eq!(
        handle_chat_event(&mut state, &press(KeyCode::Enter)),
        Some(ChatSubmission::Command(SlashCommand::Review(String::new())))
    );
    assert!(state.composer.chat_input.is_empty());
}

#[test]
fn review_with_a_target_carries_it_through_as_an_argument() {
    let mut state = state_with(|s| {
        s.screen = Screen::Chat;
        s.composer.chat_input = "/review main".into();
    });

    assert_eq!(
        handle_chat_event(&mut state, &press(KeyCode::Enter)),
        Some(ChatSubmission::Command(SlashCommand::Review("main".into())))
    );
    assert!(state.composer.chat_input.is_empty());
}

#[test]
fn worktree_with_no_argument_is_recognized_and_carries_empty_text() {
    let mut state = state_with(|s| {
        s.screen = Screen::Chat;
        s.composer.chat_input = "/worktree".into();
    });

    assert_eq!(
        handle_chat_event(&mut state, &press(KeyCode::Enter)),
        Some(ChatSubmission::Command(SlashCommand::Worktree(
            String::new()
        )))
    );
    assert!(state.composer.chat_input.is_empty());
}

#[test]
fn worktree_with_arguments_carries_them_through_as_raw_text() {
    let mut state = state_with(|s| {
        s.screen = Screen::Chat;
        s.composer.chat_input = "/worktree list".into();
    });

    assert_eq!(
        handle_chat_event(&mut state, &press(KeyCode::Enter)),
        Some(ChatSubmission::Command(SlashCommand::Worktree(
            "list".into()
        )))
    );
}

#[test]
fn agent_spawn_parses_task_and_flags_in_any_order() {
    assert_eq!(
        parse_agent_command("spawn investigate flaky login test --mode research", &modes()),
        AgentInvocation::Spawn {
            task: "investigate flaky login test".into(),
            mode: SubagentMode::Research,
            model: None,
            worktree: false,
        }
    );
    assert_eq!(
        parse_agent_command("spawn --mode implement --worktree add a doc comment", &modes()),
        AgentInvocation::Spawn {
            task: "add a doc comment".into(),
            mode: SubagentMode::Implement,
            model: None,
            worktree: true,
        }
    );
}

#[test]
fn agent_worktree_flag_is_rejected_outside_implement_mode() {
    assert_eq!(
        parse_agent_command("spawn --worktree --mode research look around", &modes()),
        AgentInvocation::Invalid("--worktree is only valid with --mode implement.".into())
    );
}

#[test]
fn agent_apply_without_confirm_requests_the_diff_and_with_confirm_merges() {
    assert_eq!(
        parse_agent_command("apply a1b2c3d4", &modes()),
        AgentInvocation::Apply {
            id: "a1b2c3d4".into(),
            confirm: false,
        }
    );
    assert_eq!(
        parse_agent_command("apply a1b2c3d4 confirm", &modes()),
        AgentInvocation::Apply {
            id: "a1b2c3d4".into(),
            confirm: true,
        }
    );
}

#[test]
fn agent_message_joins_the_remaining_words_into_the_text() {
    assert_eq!(
        parse_agent_command("message a1b2c3d4 focus on the retry path", &modes()),
        AgentInvocation::Message {
            id: "a1b2c3d4".into(),
            text: "focus on the retry path".into(),
        }
    );
}

#[test]
fn agent_slash_command_dispatches_to_the_matching_app_command() {
    let mut state = state_with(|s| {
        s.screen = Screen::Chat;
        s.composer.chat_input = "/agent stop a1b2c3d4".into();
    });

    assert_eq!(
        handle_chat_event(&mut state, &press(KeyCode::Enter)),
        Some(ChatSubmission::Command(SlashCommand::Agent(
            "stop a1b2c3d4".into()
        )))
    );
}

#[test]
fn bare_agents_command_is_recognized() {
    let mut state = state_with(|s| {
        s.screen = Screen::Chat;
        s.composer.chat_input = "/agents".into();
    });

    assert_eq!(
        handle_chat_event(&mut state, &press(KeyCode::Enter)),
        Some(ChatSubmission::Command(SlashCommand::Agents))
    );
}

#[test]
fn agent_list_available_event_populates_the_popup_and_clamps_selection() {
    let mut state = state_with(|s| {
        s.agent_panel.selected = 5;
    });
    state.apply(&AppEvent::AgentListAvailable(sample_agent_records()));
    assert_eq!(state.agent_panel.agents.len(), 2);
    assert_eq!(state.agent_panel.selected, 1);
}

#[test]
fn agent_detail_available_opens_the_popup_directly_to_detail() {
    let mut state = fresh();
    let record = sample_agent_records().remove(0);
    state.apply(&AppEvent::AgentDetailAvailable {
        id: record.id.clone(),
        record: Some(record.clone()),
    });
    assert!(state.agent_panel.visible);
    assert_eq!(state.agent_panel.view, AgentsView::Detail);
    assert_eq!(state.agent_panel.detail, Some(record));
}

#[test]
fn agent_detail_available_with_no_match_warns_and_does_not_open_the_popup() {
    let mut state = fresh();
    state.apply(&AppEvent::AgentDetailAvailable {
        id: "deadbeef".into(),
        record: None,
    });
    assert!(!state.agent_panel.visible);
    assert!(state.agent_panel.detail.is_none());
    assert!(
        matches!(state.transcript.entries.last(), Some(ChatEntry::Warning(message)) if message.contains("deadbeef"))
    );
}

#[test]
fn agent_list_refresh_keeps_the_open_detail_in_sync_by_id() {
    let mut records = sample_agent_records();
    let target = records[0].clone();
    let mut state = state_with(|s| {
        s.agent_panel.detail = Some(target.clone());
    });

    records[0].status = "completed".to_owned();
    state.apply(&AppEvent::AgentListAvailable(records.clone()));

    assert_eq!(
        state.agent_panel.detail.as_ref().map(|record| record.status.clone()),
        Some("completed".to_owned())
    );
}

#[test]
fn entering_detail_from_the_list_snapshots_the_selected_record() {
    let mut state = state_with(|s| {
        s.agent_panel.visible = true;
        s.agent_panel.view = AgentsView::List;
        s.agent_panel.agents = sample_agent_records();
        s.agent_panel.selected = 1;
    });

    assert_eq!(
        handle_agents_event(&mut state, &press(KeyCode::Enter)),
        AgentsEventOutcome::Handled
    );
    assert_eq!(
        state
            .agent_panel.detail
            .as_ref()
            .map(|record| record.task_summary.clone()),
        Some("add a doc comment".to_string())
    );
}

#[test]
fn pressing_n_prefills_agent_spawn_with_the_first_next_step_and_closes_the_popup() {
    let mut state = state_with(|s| {
        s.agent_panel.visible = true;
        s.agent_panel.view = AgentsView::Detail;
        s.agent_panel.detail = Some(agent_with_next_steps(&["investigate the signup flow too"]));
    });

    assert_eq!(
        handle_agents_event(&mut state, &press(KeyCode::Char('n'))),
        AgentsEventOutcome::Handled
    );

    assert_eq!(
        state.composer.chat_input,
        "/agent spawn \"investigate the signup flow too\""
    );
    assert!(!state.agent_panel.visible);
}

#[test]
fn pressing_n_repeatedly_cycles_through_every_next_step() {
    let mut state = state_with(|s| {
        s.agent_panel.visible = true;
        s.agent_panel.view = AgentsView::Detail;
        s.agent_panel.detail = Some(agent_with_next_steps(&["step one", "step two"]));
    });

    let _ = handle_agents_event(&mut state, &press(KeyCode::Char('n')));
    assert_eq!(state.composer.chat_input, "/agent spawn \"step one\"");

    // Re-open the popup (as if the user reconsidered) and press n again.
    state.agent_panel.visible = true;
    let _ = handle_agents_event(&mut state, &press(KeyCode::Char('n')));
    assert_eq!(state.composer.chat_input, "/agent spawn \"step two\"");

    state.agent_panel.visible = true;
    let _ = handle_agents_event(&mut state, &press(KeyCode::Char('n')));
    assert_eq!(state.composer.chat_input, "/agent spawn \"step one\"");
}

#[test]
fn pressing_n_with_no_next_steps_is_a_no_op() {
    let mut state = state_with(|s| {
        s.agent_panel.visible = true;
        s.agent_panel.view = AgentsView::Detail;
        s.agent_panel.detail = Some(agent_with_next_steps(&[]));
    });

    assert_eq!(
        handle_agents_event(&mut state, &press(KeyCode::Char('n'))),
        AgentsEventOutcome::Handled
    );
    assert!(state.composer.chat_input.is_empty());
    assert!(state.agent_panel.visible);
}

#[test]
fn agent_detail_available_resets_the_next_step_cursor() {
    let mut state = state_with(|s| {
        s.agent_panel.next_step_cursor = 7;
    });
    let record = agent_with_next_steps(&["a", "b"]);
    state.apply(&AppEvent::AgentDetailAvailable {
        id: record.id.clone(),
        record: Some(record),
    });
    assert_eq!(state.agent_panel.next_step_cursor, 0);
}

#[test]
fn agents_list_navigation_stays_within_bounds() {
    let mut state = state_with(|s| {
        s.agent_panel.visible = true;
        s.agent_panel.view = AgentsView::List;
        s.agent_panel.agents = sample_agent_records();
        s.agent_panel.selected = 0;
    });

    assert_eq!(
        handle_agents_event(&mut state, &press(KeyCode::Up)),
        AgentsEventOutcome::Handled
    );
    assert_eq!(state.agent_panel.selected, 0);

    let _ = handle_agents_event(&mut state, &press(KeyCode::Down));
    let _ = handle_agents_event(&mut state, &press(KeyCode::Down));
    assert_eq!(state.agent_panel.selected, 1);
}

#[test]
fn enter_opens_agent_detail_then_esc_returns_to_the_list() {
    let mut state = state_with(|s| {
        s.agent_panel.visible = true;
        s.agent_panel.view = AgentsView::List;
        s.agent_panel.agents = sample_agent_records();
        s.agent_panel.selected = 0;
    });

    assert_eq!(
        handle_agents_event(&mut state, &press(KeyCode::Enter)),
        AgentsEventOutcome::Handled
    );
    assert_eq!(state.agent_panel.view, AgentsView::Detail);

    assert_eq!(
        handle_agents_event(&mut state, &press(KeyCode::Esc)),
        AgentsEventOutcome::Handled
    );
    assert_eq!(state.agent_panel.view, AgentsView::List);
}

#[test]
fn esc_on_the_agents_list_closes_the_whole_popup() {
    let mut state = state_with(|s| {
        s.agent_panel.visible = true;
        s.agent_panel.view = AgentsView::List;
        s.agent_panel.agents = sample_agent_records();
    });

    assert_eq!(
        handle_agents_event(&mut state, &press(KeyCode::Esc)),
        AgentsEventOutcome::Handled
    );
    assert!(!state.agent_panel.visible);
}

#[test]
fn pressing_r_requests_a_refresh_from_either_view() {
    let mut state = state_with(|s| {
        s.agent_panel.visible = true;
        s.agent_panel.view = AgentsView::List;
        s.agent_panel.agents = sample_agent_records();
    });
    assert_eq!(
        handle_agents_event(&mut state, &press(KeyCode::Char('r'))),
        AgentsEventOutcome::Refresh
    );

    state.agent_panel.view = AgentsView::Detail;
    assert_eq!(
        handle_agents_event(&mut state, &press(KeyCode::Char('r'))),
        AgentsEventOutcome::Refresh
    );
}

#[test]
fn agents_popup_is_not_handled_when_closed() {
    let mut state = fresh();
    assert_eq!(
        handle_agents_event(&mut state, &press(KeyCode::Down)),
        AgentsEventOutcome::NotHandled
    );
}

#[test]
fn worktree_with_no_argument_suggests_a_name_from_the_session() {
    let state = chatting();
    // A fresh session has no name yet, so the suggestion falls back to a timestamp.
    match parse_worktree_command("", &state) {
        WorktreeInvocation::SuggestName(name) => assert!(name.starts_with("task-")),
        other => panic!("expected a name suggestion, got {other:?}"),
    }
}

#[test]
fn worktree_suggests_a_name_derived_from_a_named_session() {
    let mut state = chatting();
    state.apply(&AppEvent::SessionSwitched {
        id: "abc".into(),
        name: "Fix the flaky login test!".into(),
        transition: SessionTransition::New,
        history: Vec::new(),
    });

    match parse_worktree_command("", &state) {
        WorktreeInvocation::SuggestName(name) => {
            assert_eq!(name, "fix-the-flaky-login-test");
        }
        other => panic!("expected a name suggestion, got {other:?}"),
    }
}

#[test]
fn worktree_list_is_parsed_as_the_list_subcommand() {
    let state = fresh();
    assert_eq!(
        parse_worktree_command("list", &state),
        WorktreeInvocation::List
    );
}

#[test]
fn worktree_switch_carries_the_target_through() {
    let state = fresh();
    assert_eq!(
        parse_worktree_command("switch my-task", &state),
        WorktreeInvocation::Switch("my-task".into())
    );
    assert!(matches!(
        parse_worktree_command("switch", &state),
        WorktreeInvocation::Invalid(_)
    ));
}

#[test]
fn worktree_remove_requires_confirmation_before_it_is_sent() {
    let state = fresh();
    assert_eq!(
        parse_worktree_command("remove my-task", &state),
        WorktreeInvocation::ConfirmRemove("my-task".into())
    );
    assert!(matches!(
        parse_worktree_command("remove", &state),
        WorktreeInvocation::Invalid(_)
    ));
}

#[test]
fn worktree_create_defaults_to_a_new_branch_from_the_current_one() {
    let state = fresh();
    assert_eq!(
        parse_worktree_command("my-task", &state),
        WorktreeInvocation::Create {
            name: "my-task".into(),
            branch: WorktreeBranchSource::New,
        }
    );
}

#[test]
fn worktree_create_uses_an_existing_branch_when_given_one() {
    let state = fresh();
    assert_eq!(
        parse_worktree_command("my-task some-existing-branch", &state),
        WorktreeInvocation::Create {
            name: "my-task".into(),
            branch: WorktreeBranchSource::Existing("some-existing-branch".into()),
        }
    );
}

#[test]
fn worktree_removal_confirmation_resolves_on_yes_and_cancels_on_no() {
    let mut state = state_with(|s| {
        s.prompts.pending_worktree_removal = Some("my-task".into());
    });

    assert_eq!(
        handle_worktree_removal_event(&mut state, &press(KeyCode::Char('n'))),
        Some(("my-task".into(), false))
    );
    assert!(state.prompts.pending_worktree_removal.is_none());

    state.prompts.pending_worktree_removal = Some("my-task".into());
    assert_eq!(
        handle_worktree_removal_event(&mut state, &press(KeyCode::Char('y'))),
        Some(("my-task".into(), true))
    );
    assert!(state.prompts.pending_worktree_removal.is_none());
}

#[test]
fn worktree_removal_confirmation_blocks_chat_input_while_pending() {
    let mut state = state_with(|s| {
        s.screen = Screen::Chat;
        s.prompts.pending_worktree_removal = Some("my-task".into());
    });

    assert_eq!(
        handle_chat_event(&mut state, &press(KeyCode::Char('x'))),
        None
    );
}

#[test]
fn agent_diff_ready_opens_a_confirm_prompt_instead_of_logging_immediately() {
    let mut state = fresh();
    state.apply(&AppEvent::AgentDiffReady {
        id: "a1b2c3d4".into(),
        diff: "+added line".into(),
    });
    assert_eq!(
        state.prompts.pending_agent_confirm,
        Some(PendingAgentConfirm::Apply {
            id: "a1b2c3d4".into(),
            diff: "+added line".into(),
        })
    );
}

#[test]
fn agent_cleanup_warning_opens_a_confirm_prompt() {
    let mut state = fresh();
    state.apply(&AppEvent::AgentCleanupWarning {
        id: "a1b2c3d4".into(),
        message: "This removes the worktree...".into(),
    });
    assert_eq!(
        state.prompts.pending_agent_confirm,
        Some(PendingAgentConfirm::Cleanup {
            id: "a1b2c3d4".into(),
            message: "This removes the worktree...".into(),
        })
    );
}

#[test]
fn agent_apply_confirmation_resolves_on_yes_and_cancels_on_no() {
    let mut state = state_with(|s| {
        s.prompts.pending_agent_confirm = Some(PendingAgentConfirm::Apply {
            id: "a1b2c3d4".into(),
            diff: "+added line".into(),
        });
    });

    assert_eq!(
        handle_agent_confirm_event(&mut state, &press(KeyCode::Char('n'))),
        Some((AgentConfirmAction::Apply("a1b2c3d4".into()), false))
    );
    assert!(state.prompts.pending_agent_confirm.is_none());

    state.prompts.pending_agent_confirm = Some(PendingAgentConfirm::Apply {
        id: "a1b2c3d4".into(),
        diff: "+added line".into(),
    });
    assert_eq!(
        handle_agent_confirm_event(&mut state, &press(KeyCode::Char('y'))),
        Some((AgentConfirmAction::Apply("a1b2c3d4".into()), true))
    );
    assert!(state.prompts.pending_agent_confirm.is_none());
}

#[test]
fn agent_cleanup_confirmation_blocks_chat_input_while_pending() {
    let mut state = state_with(|s| {
        s.screen = Screen::Chat;
        s.prompts.pending_agent_confirm = Some(PendingAgentConfirm::Cleanup {
            id: "a1b2c3d4".into(),
            message: "This removes the worktree...".into(),
        });
    });

    assert_eq!(
        handle_chat_event(&mut state, &press(KeyCode::Char('x'))),
        None
    );
}

fn sample_conflict() -> PendingAgentConflict {
    PendingAgentConflict {
        id: "a1b2c3d4".into(),
        files: vec![
            ConflictFileState {
                path: "src/foo.rs".into(),
                resolution: None,
            },
            ConflictFileState {
                path: "src/bar.rs".into(),
                resolution: None,
            },
        ],
        selected: 0,
    }
}

#[test]
fn agent_merge_conflict_event_opens_the_guided_resolver() {
    let mut state = fresh();
    state.apply(&AppEvent::AgentMergeConflict {
        id: "a1b2c3d4".into(),
        files: vec!["src/foo.rs".into(), "src/bar.rs".into()],
    });
    let conflict = state
        .prompts.pending_agent_conflict
        .expect("conflict resolver should be open");
    assert_eq!(conflict.id, "a1b2c3d4");
    assert_eq!(conflict.files.len(), 2);
    assert!(conflict.files.iter().all(|file| file.resolution.is_none()));
}

#[test]
fn conflict_file_resolved_event_records_the_chosen_side() {
    let mut state = state_with(|s| {
        s.prompts.pending_agent_conflict = Some(sample_conflict());
    });
    state.apply(&AppEvent::AgentConflictFileResolved {
        id: "a1b2c3d4".into(),
        file: "src/bar.rs".into(),
        ours: false,
    });
    let conflict = state.prompts.pending_agent_conflict.expect("still open");
    assert_eq!(conflict.files[0].resolution, None);
    assert_eq!(
        conflict.files[1].resolution,
        Some(ConflictResolution::Theirs)
    );
}

#[test]
fn merge_finished_event_closes_the_resolver_and_logs_the_outcome() {
    let mut state = state_with(|s| {
        s.prompts.pending_agent_conflict = Some(sample_conflict());
    });
    state.apply(&AppEvent::AgentMergeFinished {
        id: "a1b2c3d4".into(),
        applied: true,
        message: "Applied subagent a1b2c3d4's changes.".into(),
    });
    assert!(state.prompts.pending_agent_conflict.is_none());
    assert!(matches!(state.transcript.entries.last(), Some(ChatEntry::Info(_))));
}

#[test]
fn conflict_navigation_stays_within_bounds() {
    let mut state = state_with(|s| {
        s.prompts.pending_agent_conflict = Some(sample_conflict());
    });

    assert_eq!(
        handle_agent_conflict_event(&mut state, &press(KeyCode::Up)),
        AgentConflictEventOutcome::Handled
    );
    assert_eq!(state.prompts.pending_agent_conflict.as_ref().unwrap().selected, 0);

    assert_eq!(
        handle_agent_conflict_event(&mut state, &press(KeyCode::Down)),
        AgentConflictEventOutcome::Handled
    );
    assert_eq!(state.prompts.pending_agent_conflict.as_ref().unwrap().selected, 1);

    assert_eq!(
        handle_agent_conflict_event(&mut state, &press(KeyCode::Down)),
        AgentConflictEventOutcome::Handled
    );
    assert_eq!(state.prompts.pending_agent_conflict.as_ref().unwrap().selected, 1);
}

#[test]
fn pressing_o_and_t_request_resolving_the_selected_file() {
    let mut state = state_with(|s| {
        s.prompts.pending_agent_conflict = Some(sample_conflict());
    });

    assert_eq!(
        handle_agent_conflict_event(&mut state, &press(KeyCode::Char('o'))),
        AgentConflictEventOutcome::Resolve {
            id: "a1b2c3d4".into(),
            file: "src/foo.rs".into(),
            ours: true,
        }
    );

    let _ = handle_agent_conflict_event(&mut state, &press(KeyCode::Down));
    assert_eq!(
        handle_agent_conflict_event(&mut state, &press(KeyCode::Char('t'))),
        AgentConflictEventOutcome::Resolve {
            id: "a1b2c3d4".into(),
            file: "src/bar.rs".into(),
            ours: false,
        }
    );
}

#[test]
fn enter_is_a_no_op_until_every_file_is_resolved_then_finishes() {
    let mut conflict = sample_conflict();
    let mut state = state_with(|s| {
        s.prompts.pending_agent_conflict = Some(conflict.clone());
    });

    assert_eq!(
        handle_agent_conflict_event(&mut state, &press(KeyCode::Enter)),
        AgentConflictEventOutcome::Handled
    );

    conflict.files[0].resolution = Some(ConflictResolution::Ours);
    conflict.files[1].resolution = Some(ConflictResolution::Theirs);
    state.prompts.pending_agent_conflict = Some(conflict);

    assert_eq!(
        handle_agent_conflict_event(&mut state, &press(KeyCode::Enter)),
        AgentConflictEventOutcome::Finish("a1b2c3d4".into())
    );
}

#[test]
fn esc_aborts_the_merge_even_with_unresolved_files() {
    let mut state = state_with(|s| {
        s.prompts.pending_agent_conflict = Some(sample_conflict());
    });

    assert_eq!(
        handle_agent_conflict_event(&mut state, &press(KeyCode::Esc)),
        AgentConflictEventOutcome::Abort("a1b2c3d4".into())
    );
}

#[test]
fn conflict_resolver_blocks_chat_input_while_pending() {
    let mut state = state_with(|s| {
        s.screen = Screen::Chat;
        s.prompts.pending_agent_conflict = Some(sample_conflict());
    });

    assert_eq!(
        handle_chat_event(&mut state, &press(KeyCode::Char('x'))),
        None
    );
}

#[test]
fn worktree_list_is_rendered_as_an_info_entry() {
    let mut state = fresh();
    state.apply(&AppEvent::WorktreeListAvailable(vec![
        WorktreeSummary {
            path: "/code/myapp".into(),
            branch: Some("main".into()),
            is_main: true,
        },
        WorktreeSummary {
            path: "/code/myapp-worktrees/my-task".into(),
            branch: Some("my-task".into()),
            is_main: false,
        },
    ]));

    let ChatEntry::Info(text) = state.transcript.entries.last().expect("an entry should be pushed") else {
        panic!("expected an Info entry");
    };
    assert!(text.contains("/code/myapp"));
    assert!(text.contains("(main)"));
    assert!(text.contains("my-task"));
}

#[test]
fn resuming_a_session_replays_its_history_and_starting_new_clears_the_transcript() {
    let mut state = chatting();
    state.begin_run("leftover prompt".into());

    state.apply(&AppEvent::SessionSwitched {
        id: "session-1".into(),
        name: "fix the login bug".into(),
        transition: SessionTransition::Resumed,
        history: vec![
            ChatMessage::User("what broke login?".into()),
            ChatMessage::Assistant { text: Some("A race condition in the token refresh.".into()) },
        ],
    });

    assert_eq!(state.screen, Screen::Chat);
    assert_eq!(state.transcript.entries.len(), 3);
    assert_eq!(
        state.transcript.entries[0],
        ChatEntry::User("what broke login?".into())
    );
    assert_eq!(
        state.transcript.entries[1],
        ChatEntry::Assistant("A race condition in the token refresh.".into())
    );

    state.apply(&AppEvent::SessionSwitched {
        id: "session-2".into(),
        name: "New session".into(),
        transition: SessionTransition::New,
        history: Vec::new(),
    });
    assert_eq!(state.transcript.entries.len(), 1);
    assert_eq!(
        state.transcript.entries[0],
        ChatEntry::Info("Started session: New session".into())
    );
}

#[test]
fn forking_a_session_replays_its_history_and_announces_the_fork() {
    let mut state = chatting();

    state.apply(&AppEvent::SessionSwitched {
        id: "session-1-fork".into(),
        name: "implement JWT auth (fork)".into(),
        transition: SessionTransition::Forked,
        history: vec![ChatMessage::User("implement JWT auth".into())],
    });

    assert_eq!(state.transcript.entries.len(), 2);
    assert_eq!(
        state.transcript.entries[1],
        ChatEntry::Info("Forked session: implement JWT auth (fork)".into())
    );
}

#[test]
fn the_session_list_populates_the_picker_and_enter_returns_the_selected_id() {
    let mut state = state_with(|s| {
        s.screen = Screen::SessionPicker;
        s.pickers.current_model = Some("nvidia/model".into());
    });
    state.apply(&AppEvent::SessionListAvailable(vec![
        SessionSummary {
            id: "one".into(),
            name: "first".into(),
            summary: "did stuff".into(),
            last_used_at_unix: 100,
        },
        SessionSummary {
            id: "two".into(),
            name: "second".into(),
            summary: "did other stuff".into(),
            last_used_at_unix: 200,
        },
    ]));
    assert_eq!(state.pickers.sessions.len(), 2);

    let _ = handle_session_picker_event(&mut state, &press(KeyCode::Down));
    assert_eq!(
        handle_session_picker_event(&mut state, &press(KeyCode::Enter)),
        Some("two".into())
    );

    assert_eq!(
        handle_session_picker_event(&mut state, &press(KeyCode::Esc)),
        None
    );
    assert_eq!(state.screen, Screen::Chat);
}

#[test]
fn autocompact_toggles_and_reports_the_command_it_sent() {
    let mut state = state_with(|s| {
        s.screen = Screen::Chat;
        s.composer.chat_input = "/autocompact".into();
    });
    assert!(!state.auto_compact_disabled);

    assert_eq!(
        handle_chat_event(&mut state, &press(KeyCode::Enter)),
        Some(ChatSubmission::Command(SlashCommand::AutoCompact))
    );
}

#[test]
fn compact_is_blocked_while_the_agent_is_busy_but_allowed_when_idle() {
    let mut idle = state_with(|s| {
        s.screen = Screen::Chat;
        s.composer.chat_input = "/compact".into();
    });
    assert_eq!(
        handle_chat_event(&mut idle, &press(KeyCode::Enter)),
        Some(ChatSubmission::Command(SlashCommand::Compact))
    );
}

#[test]
fn context_compacted_and_failed_events_surface_as_transcript_entries() {
    let mut state = chatting();
    state.apply(&AppEvent::ContextCompacted { automatic: true });
    assert!(matches!(state.transcript.entries.last(), Some(ChatEntry::Info(_))));

    state.apply(&AppEvent::ContextCompactionFailed("network error".into()));
    assert!(matches!(state.transcript.entries.last(), Some(ChatEntry::Warning(_))));
}

#[test]
fn unrecognized_slash_text_is_still_sent_as_a_prompt() {
    let mut state = state_with(|s| {
        s.screen = Screen::Chat;
        s.composer.chat_input = "/not-a-command please help".into();
    });

    assert_eq!(
        handle_chat_event(&mut state, &press(KeyCode::Enter)),
        Some(ChatSubmission::Prompt("/not-a-command please help".into()))
    );
}

#[test]
fn tab_completes_the_first_matching_slash_suggestion() {
    let mut state = state_with(|s| {
        s.screen = Screen::Chat;
        s.composer.chat_input = "/mo".into();
    });

    let _ = handle_chat_event(&mut state, &press(KeyCode::Tab));

    assert_eq!(state.composer.chat_input, "/model");
}

#[test]
fn arrow_keys_move_the_highlighted_suggestion_and_tab_completes_it() {
    let mut state = state_with(|s| {
        s.screen = Screen::Chat;
        s.composer.chat_input = "/s".into();
    });
    assert_eq!(
        slash_suggestions(state.composer.chat_input.as_str(), &state.custom_commands).len(),
        3
    );

    let _ = handle_chat_event(&mut state, &press(KeyCode::Down));
    assert_eq!(state.composer.suggestion_selected, 1);

    let _ = handle_chat_event(&mut state, &press(KeyCode::Tab));
    assert_eq!(state.composer.chat_input, slash_suggestions("/s", &Vec::new())[1].0);
}

#[test]
fn enter_runs_the_highlighted_suggestion_even_when_the_command_is_incomplete() {
    let mut state = state_with(|s| {
        s.screen = Screen::Chat;
        s.composer.chat_input = "/set".into();
    });

    assert_eq!(
        handle_chat_event(&mut state, &press(KeyCode::Enter)),
        Some(ChatSubmission::Command(SlashCommand::Settings))
    );
    assert!(state.composer.chat_input.is_empty());
}

#[test]
fn typing_resets_the_highlighted_suggestion_back_to_the_first_match() {
    let mut state = state_with(|s| {
        s.screen = Screen::Chat;
        s.composer.chat_input = "/s".into();
    });
    let _ = handle_chat_event(&mut state, &press(KeyCode::Down));
    assert_eq!(state.composer.suggestion_selected, 1);

    let _ = handle_chat_event(&mut state, &press(KeyCode::Char('o')));
    assert_eq!(state.composer.suggestion_selected, 0);
}

#[test]
fn slash_suggestions_filter_by_prefix() {
    assert_eq!(slash_suggestions("/s", &Vec::new()).len(), 3);
    assert!(slash_suggestions("hello", &Vec::new()).is_empty());
}

#[test]
fn slash_suggestions_include_custom_commands_and_are_matched_before_a_builtin_lookup() {
    let custom = vec![CustomCommand {
        name: "deploy".into(),
        description: "Ship the app".into(),
        body: "Deploy to $ARGUMENTS.".into(),
    }];

    let suggestions = slash_suggestions("/dep", &custom);
    assert_eq!(
        suggestions,
        vec![("/deploy".to_string(), "Ship the app".to_string())]
    );
}

#[test]
fn enter_expands_a_custom_command_with_its_arguments() {
    let mut state = state_with(|s| {
        s.screen = Screen::Chat;
        s.composer.chat_input = "/deploy staging".into();
        s.custom_commands = vec![CustomCommand {
            name: "deploy".into(),
            description: "Ship the app".into(),
            body: "Deploy to $ARGUMENTS now.".into(),
        }];
    });

    assert_eq!(
        handle_chat_event(&mut state, &press(KeyCode::Enter)),
        Some(ChatSubmission::Prompt("Deploy to staging now.".into()))
    );
    assert!(state.composer.chat_input.is_empty());
}

#[test]
fn enter_expands_a_custom_command_with_no_arguments() {
    let mut state = state_with(|s| {
        s.screen = Screen::Chat;
        s.composer.chat_input = "/deploy".into();
        s.custom_commands = vec![CustomCommand {
            name: "deploy".into(),
            description: "Ship the app".into(),
            body: "Deploy to $ARGUMENTS now.".into(),
        }];
    });

    assert_eq!(
        handle_chat_event(&mut state, &press(KeyCode::Enter)),
        Some(ChatSubmission::Prompt("Deploy to  now.".into()))
    );
}

#[test]
fn help_popup_toggles_visible_and_dismisses_on_escape() {
    let mut state = state_with(|s| {
        s.screen = Screen::Chat;
        s.composer.chat_input = "/help".into();
    });
    assert_eq!(
        handle_chat_event(&mut state, &press(KeyCode::Enter)),
        Some(ChatSubmission::Command(SlashCommand::Help))
    );

    state.help.visible = true;
    assert!(handle_help_event(&mut state, &press(KeyCode::Esc)));
    assert!(!state.help.visible);
}

#[test]
fn help_popup_cycles_tabs_with_tab_and_shift_tab() {
    let mut state = state_with(|s| {
        s.screen = Screen::Chat;
        s.help.visible = true;
    });
    assert_eq!(state.help.tab, HelpTab::General);

    assert!(handle_help_event(&mut state, &press(KeyCode::Tab)));
    assert_eq!(state.help.tab, HelpTab::Commands);

    assert!(handle_help_event(&mut state, &press(KeyCode::Tab)));
    assert_eq!(state.help.tab, HelpTab::Custom);

    assert!(handle_help_event(&mut state, &press(KeyCode::Tab)));
    assert_eq!(state.help.tab, HelpTab::General);

    assert!(handle_help_event(&mut state, &press(KeyCode::BackTab)));
    assert_eq!(state.help.tab, HelpTab::Custom);
}

#[test]
fn help_popup_scrolls_with_up_down_and_resets_on_tab_switch() {
    let mut state = state_with(|s| {
        s.screen = Screen::Chat;
        s.help.visible = true;
    });

    assert!(handle_help_event(&mut state, &press(KeyCode::Down)));
    assert_eq!(state.help.scroll, 1);
    assert!(handle_help_event(&mut state, &press(KeyCode::PageDown)));
    assert_eq!(state.help.scroll, 6);
    assert!(handle_help_event(&mut state, &press(KeyCode::Up)));
    assert_eq!(state.help.scroll, 5);

    assert!(handle_help_event(&mut state, &press(KeyCode::Tab)));
    assert_eq!(state.help.scroll, 0);
}

#[test]
fn skills_list_scrolls_with_up_down_and_resets_when_leaving_the_view() {
    let mut state = state_with(|s| {
        s.skill_panel.visible = true;
        s.skill_panel.skills = sample_skills();
        s.skill_panel.view = SkillsView::List;
    });

    assert!(matches!(
        handle_skills_event(&mut state, &press(KeyCode::Down)),
        SkillsEventOutcome::Handled
    ));
    assert_eq!(state.skill_panel.list_scroll, 1);

    assert!(matches!(
        handle_skills_event(&mut state, &press(KeyCode::Esc)),
        SkillsEventOutcome::Handled
    ));
    assert_eq!(state.skill_panel.view, SkillsView::Menu);
    assert_eq!(state.skill_panel.list_scroll, 0);
}

#[test]
fn model_flow_chains_into_the_effort_picker_before_returning_to_chat() {
    let mut state = state_with(|s| {
        s.screen = Screen::ModelPicker;
        s.pickers.models = vec!["nvidia/model-a".into()];
        s.pickers.selected_model = 0;
        s.pickers.model_flow_pending_effort = true;
    });

    assert_eq!(
        handle_model_picker_event(&mut state, &press(KeyCode::Enter)),
        None
    );
    assert_eq!(state.screen, Screen::EffortPicker);
    assert_eq!(state.pickers.pending_model.as_deref(), Some("nvidia/model-a"));

    assert_eq!(
        handle_effort_picker_event(&mut state, &press(KeyCode::Enter)),
        Some(None)
    );
}

#[test]
fn a_prompt_submitted_while_busy_is_queued_not_sent() {
    let mut state = state_with(|s| {
        s.screen = Screen::Chat;
        s.composer.chat_input = "second question".into();
    });
    state.begin_run("first question".into());

    assert_eq!(handle_chat_event(&mut state, &press(KeyCode::Enter)), None);
    assert_eq!(state.transcript.queued.as_deref(), Some("second question"));
}

#[test]
fn completion_dispatches_the_queued_prompt() {
    let mut state = fresh();
    state.begin_run("first".into());
    state.transcript.queued = Some("second".into());

    let dispatched = state.apply(&AppEvent::AgentCompleted {
        final_text: None,
        turns: 1,
        tool_calls: 0,
        failed_tool_calls: 0,
        last_input_tokens: None,
        partial: false,
    });

    assert_eq!(dispatched, Some("second".into()));
    assert!(state.transcript.queued.is_none());
}

#[test]
fn a_failed_provider_call_remembers_the_prompt_for_retry() {
    let mut state = chatting();
    state.begin_run("flaky prompt".into());

    state.apply(&AppEvent::ProviderFailed("network error".into()));

    assert_eq!(state.transcript.last_failed_prompt.as_deref(), Some("flaky prompt"));
    let _ = handle_chat_event(
        &mut state,
        &key(KeyCode::Char('r'), control(), KeyEventKind::Press),
    );
    assert_eq!(state.composer.chat_input, "flaky prompt");
}

#[test]
fn scroll_locks_to_the_bottom_until_the_user_scrolls_up() {
    let mut state = chatting();
    assert!(state.is_scroll_locked());

    state.scroll_up();
    assert!(!state.is_scroll_locked());

    state.scroll_down();
    assert!(state.is_scroll_locked());
}

#[test]
fn a_narrow_terminal_shows_a_resize_notice_instead_of_the_screen() {
    let size = (20, 5);
    let state = chatting();
    let shown = painted(&state, size);

    assert!(shown.contains("too small"));
}

#[test]
fn agent_thinking_state_renders_as_a_status_line() {
    let mut state = chatting();
    state.begin_run("hi".into());
    state.apply(&AppEvent::AgentStateChanged(AgentActivityState::Thinking));

    let size = (80, 20);
    let shown = painted(&state, size);

    assert!(shown.contains("thinking"));
}

#[test]
fn settings_menu_navigates_to_the_effort_picker_and_confirms_a_selection() {

    let mut state = state_with(|s| {
        s.screen = Screen::Settings;
    });

    assert!(handle_settings_event(&mut state, &press(KeyCode::Down)));
    assert_eq!(state.pickers.settings_selected, 1);
    assert!(handle_settings_event(&mut state, &press(KeyCode::Down)));
    assert_eq!(state.pickers.settings_selected, 2);
    assert!(handle_settings_event(&mut state, &press(KeyCode::Enter)));
    assert_eq!(state.screen, Screen::EffortPicker);

    assert_eq!(
        handle_effort_picker_event(&mut state, &press(KeyCode::Down)),
        None
    );
    assert_eq!(state.pickers.selected_effort, 1);
    assert_eq!(
        handle_effort_picker_event(&mut state, &press(KeyCode::Enter)),
        Some(Some("low".into()))
    );
}

#[test]
fn pasted_text_is_inserted_into_the_composer_without_submitting() {
    let mut state = chatting();

    assert_eq!(
        handle_chat_event(&mut state, &Event::Paste("multi\nline".into())),
        None
    );
    assert_eq!(state.composer.chat_input, "multi\nline");
}

#[test]
fn shift_enter_and_ctrl_j_insert_a_newline_without_submitting() {
    let mut state = chatting();

    let shift_enter = key(KeyCode::Enter, shift(), KeyEventKind::Press);
    assert_eq!(handle_chat_event(&mut state, &shift_enter), None);
    assert_eq!(state.composer.chat_input, "\n");

    let ctrl_j = key(KeyCode::Char('j'), control(), KeyEventKind::Press);
    assert_eq!(handle_chat_event(&mut state, &ctrl_j), None);
    assert_eq!(state.composer.chat_input, "\n\n");
}

#[test]
fn left_and_right_arrows_move_the_cursor_and_typing_inserts_at_it() {
    let mut state = chatting();

    for character in "helo".chars() {
        let _ = handle_chat_event(&mut state, &press(KeyCode::Char(character)));
    }
    assert_eq!(state.composer.chat_input, "helo");
    assert_eq!(state.composer.cursor, 4);

    // Move left twice to land between 'l' and 'o', then insert 'l' to fix "helo" -> "hello".
    let _ = handle_chat_event(&mut state, &press(KeyCode::Left));
    let _ = handle_chat_event(&mut state, &press(KeyCode::Left));
    assert_eq!(state.composer.cursor, 2);
    let _ = handle_chat_event(&mut state, &press(KeyCode::Char('l')));
    assert_eq!(state.composer.chat_input, "hello");
    assert_eq!(state.composer.cursor, 3);

    let _ = handle_chat_event(&mut state, &press(KeyCode::Right));
    assert_eq!(state.composer.cursor, 4);
}

#[test]
fn backspace_removes_the_character_before_the_cursor_not_the_last_one() {
    let mut state = state_with(|s| {
        s.screen = Screen::Chat;
        s.composer.chat_input = "abc".into();
        s.composer.cursor = 3;
    });

    let _ = handle_chat_event(&mut state, &press(KeyCode::Left));
    assert_eq!(state.composer.cursor, 2);
    let _ = handle_chat_event(&mut state, &press(KeyCode::Backspace));
    assert_eq!(state.composer.chat_input, "ac");
    assert_eq!(state.composer.cursor, 1);
}

#[test]
fn editing_at_the_cursor_is_utf8_safe_with_accented_characters() {
    let mut state = chatting();

    for character in "café".chars() {
        let _ = handle_chat_event(&mut state, &press(KeyCode::Char(character)));
    }
    assert_eq!(state.composer.chat_input, "café");
    assert_eq!(state.composer.cursor, 4);

    // Cursor sits between 'f' and 'é'; backspace removes 'f', proving byte offsets never
    // land inside 'é's multi-byte UTF-8 encoding.
    let _ = handle_chat_event(&mut state, &press(KeyCode::Left));
    let _ = handle_chat_event(&mut state, &press(KeyCode::Backspace));
    assert_eq!(state.composer.chat_input, "caé");
}

#[test]
fn up_and_down_arrows_move_the_cursor_between_lines_when_no_suggestions_are_open() {
    let mut state = state_with(|s| {
        s.screen = Screen::Chat;
        s.composer.chat_input = "first\nsecond".into();
        s.composer.cursor = 3;
    });

    let _ = handle_chat_event(&mut state, &press(KeyCode::Down));
    assert_eq!(
        state.composer.cursor,
        char_index_from_line_col(&two_lines(), 1, 3)
    );

    let _ = handle_chat_event(&mut state, &press(KeyCode::Up));
    assert_eq!(state.composer.cursor, 3);
}

#[test]
fn up_arrow_recalls_prompt_history_and_down_arrow_walks_back_to_the_draft() {
    let mut state = chatting();
    state.composer.remember_prompt("first prompt");
    state.composer.remember_prompt("second prompt");
    state.composer.chat_input = "unsent draft".into();
    state.composer.cursor = state.composer.chat_input.chars().count();

    let _ = handle_chat_event(&mut state, &press(KeyCode::Up));
    assert_eq!(state.composer.chat_input, "second prompt");

    let _ = handle_chat_event(&mut state, &press(KeyCode::Up));
    assert_eq!(state.composer.chat_input, "first prompt");

    // Already at the oldest entry: another Up is a no-op.
    let _ = handle_chat_event(&mut state, &press(KeyCode::Up));
    assert_eq!(state.composer.chat_input, "first prompt");

    let _ = handle_chat_event(&mut state, &press(KeyCode::Down));
    assert_eq!(state.composer.chat_input, "second prompt");

    // Past the newest entry, the original in-progress draft comes back.
    let _ = handle_chat_event(&mut state, &press(KeyCode::Down));
    assert_eq!(state.composer.chat_input, "unsent draft");
}

#[test]
fn submitting_a_prompt_makes_it_recallable_and_typing_exits_history_browsing() {
    let mut state = state_with(|s| {
        s.screen = Screen::Chat;
        s.composer.chat_input = "hello agent".into();
        s.composer.cursor = "hello agent".chars().count();
    });

    assert_eq!(
        handle_chat_event(&mut state, &press(KeyCode::Enter)),
        Some(ChatSubmission::Prompt("hello agent".into()))
    );
    assert!(state.composer.chat_input.is_empty());

    let _ = handle_chat_event(&mut state, &press(KeyCode::Up));
    assert_eq!(state.composer.chat_input, "hello agent");

    // Typing while browsing history detaches from it instead of mutating the saved entry.
    let _ = handle_chat_event(&mut state, &press(KeyCode::Char('!')));
    assert_eq!(state.composer.chat_input, "hello agent!");
    let _ = handle_chat_event(&mut state, &press(KeyCode::Up));
    assert_eq!(state.composer.chat_input, "hello agent");
}

#[test]
fn multiline_up_only_recalls_history_from_the_first_line() {
    let mut state = state_with(|s| {
        s.screen = Screen::Chat;
        s.composer.chat_input = "first\nsecond".into();
        s.composer.cursor = char_index_from_line_col(&two_lines(), 1, 2);
    });
    state.composer.remember_prompt("older prompt");

    // On the last line: Up moves the cursor up a line, not history.
    let _ = handle_chat_event(&mut state, &press(KeyCode::Up));
    assert_eq!(state.composer.chat_input, "first\nsecond");
    assert_eq!(
        state.composer.cursor,
        char_index_from_line_col(&two_lines(), 0, 2)
    );

    // Now on the first line: Up recalls history instead of moving further up.
    let _ = handle_chat_event(&mut state, &press(KeyCode::Up));
    assert_eq!(state.composer.chat_input, "older prompt");
}

#[test]
fn the_suggestion_list_scrolls_instead_of_growing_without_bound() {
    let mut state = state_with(|s| {
        s.screen = Screen::Chat;
        s.composer.chat_input = "/".into();
        s.composer.cursor = 1;
    });
    let total = slash_suggestions("/", &Vec::new()).len();
    assert!(
        total >= 6,
        "test assumes at least 6 commands share the '/' prefix"
    );

    let (start, end, truncated) = visible_suggestion_window(total, 0);
    assert!(truncated);
    assert_eq!(end - start, MAX_VISIBLE_SUGGESTIONS - 1);

    state.composer.suggestion_selected = total - 1;
    let (start, end, truncated) = visible_suggestion_window(total, total - 1);
    assert!(truncated);
    assert_eq!(end, total);
    assert!(end - start < MAX_VISIBLE_SUGGESTIONS);
}

#[test]
fn clicking_the_composer_input_moves_the_cursor_there() {
    let mut state = state_with(|s| {
        s.screen = Screen::Chat;
        s.composer.chat_input = "hello world".into();
        s.composer.cursor = 0;
    });
    let terminal_area = Rect {
        x: 0,
        y: 0,
        width: 80,
        height: 20,
    };
    let (_, composer_area) = chat_layout(terminal_area, &state);

    let click = MouseEvent {
        kind: MouseEventKind::Down(MouseButton::Left),
        column: composer_area.x + 1 + 2 + 6, // border + "> " prefix + 6 chars into "hello world"
        row: composer_area.y + 1,
    };
    assert!(handle_mouse_event(&mut state, &click, terminal_area));
    assert_eq!(state.composer.cursor, 6);
    assert!(state.transcript.selection.is_none());
}

#[test]
fn wrap_lines_breaks_long_lines_at_a_word_boundary() {
    let lines = vec!["the quick brown fox jumps".to_string()];
    let wrapped = wrap_lines(&lines, 10);

    assert_eq!(wrapped, vec!["the quick", "brown fox", "jumps"]);
}

#[test]
fn wrap_lines_preserves_blank_lines() {
    let lines = vec![String::new(), "hi".to_string()];
    assert_eq!(wrap_lines(&lines, 10), vec!["", "hi"]);
}

#[test]
fn selected_char_range_spans_a_partial_first_line_full_middle_and_partial_last_line() {
    let selection = Selection {
        anchor: SelectionPoint { line: 0, col: 5 },
        cursor: SelectionPoint { line: 2, col: 3 },
    };

    assert_eq!(selected_char_range(&selection, 0, 10), Some((5, 10)));
    assert_eq!(selected_char_range(&selection, 1, 10), Some((0, 10)));
    assert_eq!(selected_char_range(&selection, 2, 10), Some((0, 3)));
    assert_eq!(selected_char_range(&selection, 3, 10), None);
}

#[test]
fn dragging_the_mouse_extends_the_selection_and_extracts_the_selected_text() {
    let mut state = state_with(|s| {
        s.screen = Screen::Chat;
        s.transcript.entries = vec![ChatEntry::Info("hello world".into())];
    });
    let terminal_area = Rect {
        x: 0,
        y: 0,
        width: 80,
        height: 20,
    };

    let (history_area, _) = chat_layout(terminal_area, &state);
    let content_width = usize::from(history_area.width.saturating_sub(2));
    let wrapped = wrap_lines(&compose_lines(&state), content_width);
    let line_index = wrapped
        .iter()
        .position(|line| line.contains("hello world"))
        .expect("the info entry should appear in the wrapped transcript");
    let line_chars: Vec<char> = wrapped[line_index].chars().collect();
    let needle: Vec<char> = "hello".chars().collect();
    let hello_col = line_chars
        .windows(needle.len())
        .position(|window| window == needle.as_slice())
        .expect("hello is on the line");
    let visible_rows = usize::from(history_area.height.saturating_sub(2)).max(1);
    let (start, _end) =
        compute_visible_window(wrapped.len(), visible_rows, state.transcript.scroll);
    let row = history_area.y + 1 + u16::try_from(line_index - start).unwrap();

    let down = MouseEvent {
        kind: MouseEventKind::Down(MouseButton::Left),
        column: history_area.x + 1 + u16::try_from(hello_col).unwrap(),
        row,
    };
    assert!(handle_mouse_event(&mut state, &down, terminal_area));
    assert!(state.transcript.selection.is_some());

    let drag = MouseEvent {
        kind: MouseEventKind::Drag(MouseButton::Left),
        column: down.column + 5,
        row: down.row,
    };
    assert!(handle_mouse_event(&mut state, &drag, terminal_area));

    let selected = extract_selected_text(&state, terminal_area);
    assert_eq!(selected.as_deref(), Some("hello"));
}

#[test]
fn clicking_outside_the_history_area_clears_the_selection() {
    let mut state = state_with(|s| {
        s.screen = Screen::Chat;
        s.transcript.selection = Some(Selection {
            anchor: SelectionPoint { line: 0, col: 0 },
            cursor: SelectionPoint { line: 0, col: 3 },
        });
    });
    let terminal_area = Rect {
        x: 0,
        y: 0,
        width: 80,
        height: 20,
    };

    let click_below_history = MouseEvent {
        kind: MouseEventKind::Down(MouseButton::Left),
        column: 5,
        row: terminal_area.height - 1,
    };
    assert!(handle_mouse_event(
        &mut state,
        &click_below_history,
        terminal_area
    ));
    assert!(state.transcript.selection.is_none());
}

fn sample_skills() -> Vec<SkillSummary> {
    vec![
        SkillSummary {
            name: "brainstorming".into(),
            description: "Use before creative work".into(),
            source: SkillSource::Global,
            path: "brainstorming/SKILL.md".into(),
            enabled: true,
        },
        SkillSummary {
            name: "brandkit".into(),
            description: "Premium brand-kit skill".into(),
            source: SkillSource::Project,
            path: "brandkit/SKILL.md".into(),
            enabled: true,
        },
    ]
}

#[test]
fn skills_popup_opens_on_the_choose_an_action_menu() {
    let mut state = state_with(|s| {
        s.skill_panel.visible = true;
        s.skill_panel.skills = sample_skills();
    });
    assert_eq!(state.skill_panel.view, SkillsView::Menu);
    assert_eq!(state.skill_panel.selected, 0);

    assert!(matches!(
        handle_skills_event(&mut state, &press(KeyCode::Down)),
        SkillsEventOutcome::Handled
    ));
    assert_eq!(state.skill_panel.selected, 1);
}

#[test]
fn selecting_list_skills_shows_every_skill_then_esc_returns_to_the_menu() {
    let mut state = state_with(|s| {
        s.skill_panel.visible = true;
        s.skill_panel.skills = sample_skills();
    });

    assert!(matches!(
        handle_skills_event(&mut state, &press(KeyCode::Enter)),
        SkillsEventOutcome::Handled
    ));
    assert_eq!(state.skill_panel.view, SkillsView::List);

    assert!(matches!(
        handle_skills_event(&mut state, &press(KeyCode::Esc)),
        SkillsEventOutcome::Handled
    ));
    assert_eq!(state.skill_panel.view, SkillsView::Menu);
    assert!(state.skill_panel.visible);
}

#[test]
fn esc_on_the_menu_closes_the_whole_popup() {
    let mut state = state_with(|s| {
        s.skill_panel.visible = true;
        s.skill_panel.skills = sample_skills();
    });

    assert!(matches!(
        handle_skills_event(&mut state, &press(KeyCode::Esc)),
        SkillsEventOutcome::Handled
    ));
    assert!(!state.skill_panel.visible);
}

#[test]
fn enable_disable_screen_toggles_a_skill_and_reports_it_for_persistence() {
    let mut state = state_with(|s| {
        s.skill_panel.visible = true;
        s.skill_panel.skills = sample_skills();
        s.skill_panel.view = SkillsView::EnableDisable;
        s.skill_panel.selected = 0;
    });
    assert!(state.skill_panel.skills[0].enabled);

    match handle_skills_event(&mut state, &press(KeyCode::Enter)) {
        SkillsEventOutcome::ToggleSkill { name, enabled } => {
            assert_eq!(name, "brainstorming");
            assert!(!enabled);
        }
        other => panic!("expected a toggle outcome, got a different result: {other:?}"),
    }
    assert!(!state.skill_panel.skills[0].enabled);

    match handle_skills_event(&mut state, &press(KeyCode::Char(' '))) {
        SkillsEventOutcome::ToggleSkill { name, enabled } => {
            assert_eq!(name, "brainstorming");
            assert!(enabled);
        }
        other => panic!("expected a toggle outcome, got a different result: {other:?}"),
    }
    assert!(state.skill_panel.skills[0].enabled);
}

fn sample_mcp_servers() -> Vec<McpServerStatus> {
    vec![
        McpServerStatus {
            name: "filesystem".into(),
            transport: "stdio".into(),
            connected: true,
            tool_count: 2,
            tool_names: vec![
                "mcp__filesystem__read".into(),
                "mcp__filesystem__write".into(),
            ],
            error: None,
            needs_authorization: false,
        },
        McpServerStatus {
            name: "broken".into(),
            transport: "http".into(),
            connected: false,
            tool_count: 0,
            tool_names: Vec::new(),
            error: Some("connection refused".into()),
            needs_authorization: false,
        },
    ]
}

#[test]
fn mcp_servers_available_event_updates_the_server_list() {
    let mut state = fresh();
    state.apply(&AppEvent::McpServersAvailable(sample_mcp_servers()));
    assert_eq!(state.mcp.servers.len(), 2);
    assert_eq!(state.mcp.servers[0].name, "filesystem");
}

#[test]
fn mcp_popup_opens_on_the_choose_an_action_menu_then_enter_shows_the_server_list() {
    let mut state = state_with(|s| {
        s.mcp.visible = true;
        s.mcp.servers = sample_mcp_servers();
    });
    assert_eq!(state.mcp.view, McpView::Menu);

    assert!(matches!(
        handle_mcp_event(&mut state, &press(KeyCode::Enter)),
        McpEventOutcome::Handled
    ));
    assert_eq!(state.mcp.view, McpView::ServerList);
}

#[test]
fn esc_on_the_mcp_menu_closes_the_whole_popup() {
    let mut state = state_with(|s| {
        s.mcp.visible = true;
    });
    assert!(matches!(
        handle_mcp_event(&mut state, &press(KeyCode::Esc)),
        McpEventOutcome::Handled
    ));
    assert!(!state.mcp.visible);
}

#[test]
fn server_list_enter_connects_a_disconnected_server_and_disconnects_a_connected_one() {
    let mut state = state_with(|s| {
        s.mcp.visible = true;
        s.mcp.view = McpView::ServerList;
        s.mcp.servers = sample_mcp_servers();
        s.mcp.selected = 0;
    });

    match handle_mcp_event(&mut state, &press(KeyCode::Enter)) {
        McpEventOutcome::Disconnect(name) => assert_eq!(name, "filesystem"),
        other => panic!("expected a disconnect outcome, got {other:?}"),
    }

    state.mcp.selected = 1;
    match handle_mcp_event(&mut state, &press(KeyCode::Enter)) {
        McpEventOutcome::Connect(name) => assert_eq!(name, "broken"),
        other => panic!("expected a connect outcome, got {other:?}"),
    }
}

#[test]
fn server_list_navigation_stays_within_bounds() {
    let mut state = state_with(|s| {
        s.mcp.visible = true;
        s.mcp.view = McpView::ServerList;
        s.mcp.servers = sample_mcp_servers();
        s.mcp.selected = 0;
    });

    assert!(matches!(
        handle_mcp_event(&mut state, &press(KeyCode::Up)),
        McpEventOutcome::Handled
    ));
    assert_eq!(state.mcp.selected, 0);

    handle_mcp_event(&mut state, &press(KeyCode::Down));
    handle_mcp_event(&mut state, &press(KeyCode::Down));
    assert_eq!(state.mcp.selected, 1);
}

#[test]
fn right_arrow_opens_server_detail_then_esc_returns_to_the_list() {
    let mut state = state_with(|s| {
        s.mcp.visible = true;
        s.mcp.view = McpView::ServerList;
        s.mcp.servers = sample_mcp_servers();
        s.mcp.selected = 0;
    });

    assert!(matches!(
        handle_mcp_event(&mut state, &press(KeyCode::Right)),
        McpEventOutcome::Handled
    ));
    assert_eq!(state.mcp.view, McpView::ServerDetail);

    assert!(matches!(
        handle_mcp_event(&mut state, &press(KeyCode::Esc)),
        McpEventOutcome::Handled
    ));
    assert_eq!(state.mcp.view, McpView::ServerList);
}

fn type_str(state: &mut AppState, text: &str) {
    for character in text.chars() {
        handle_mcp_event(state, &press(KeyCode::Char(character)));
    }
}

#[test]
fn menu_down_selects_add_server_and_enter_opens_the_wizard_on_the_name_step() {
    let mut state = state_with(|s| {
        s.mcp.visible = true;
    });
    handle_mcp_event(&mut state, &press(KeyCode::Down));
    assert_eq!(state.mcp.selected, 1);

    assert!(matches!(
        handle_mcp_event(&mut state, &press(KeyCode::Enter)),
        McpEventOutcome::Handled
    ));
    assert_eq!(state.mcp.view, McpView::AddServer);
    assert_eq!(state.mcp.add_step, McpAddStep::Name);
}

#[test]
fn add_server_wizard_builds_a_stdio_entry_with_no_auth() {
    let mut state = state_with(|s| {
        s.mcp.visible = true;
        s.mcp.view = McpView::AddServer;
    });

    type_str(&mut state, "filesystem");
    handle_mcp_event(&mut state, &press(KeyCode::Enter));
    assert_eq!(state.mcp.add_step, McpAddStep::TransportChoice);

    // Default transport is stdio; Enter accepts it without toggling.
    handle_mcp_event(&mut state, &press(KeyCode::Enter));
    assert_eq!(state.mcp.add_step, McpAddStep::CommandLine);

    type_str(&mut state, "npx -y server-filesystem /tmp");
    handle_mcp_event(&mut state, &press(KeyCode::Enter));
    assert_eq!(state.mcp.add_step, McpAddStep::AuthChoice);

    // Default auth is none; Enter submits immediately.
    match handle_mcp_event(&mut state, &press(KeyCode::Enter)) {
        McpEventOutcome::AddServer { entry, api_key } => {
            assert_eq!(entry.name, "filesystem");
            assert_eq!(
                entry.transport,
                McpTransportConfig::Stdio {
                    command: "npx".into(),
                    args: vec!["-y".into(), "server-filesystem".into(), "/tmp".into()],
                    env: Vec::new(),
                }
            );
            assert_eq!(entry.auth, McpAuthConfig::NoAuth);
            assert!(api_key.is_none());
        }
        other => panic!("expected an AddServer outcome, got {other:?}"),
    }
    assert_eq!(state.mcp.view, McpView::Menu);
}

#[test]
fn add_server_wizard_builds_an_http_entry_with_an_api_key() {
    let mut state = state_with(|s| {
        s.mcp.visible = true;
        s.mcp.view = McpView::AddServer;
    });

    type_str(&mut state, "remote");
    handle_mcp_event(&mut state, &press(KeyCode::Enter));

    handle_mcp_event(&mut state, &press(KeyCode::Right)); // toggle to http
    handle_mcp_event(&mut state, &press(KeyCode::Enter));
    assert_eq!(state.mcp.add_step, McpAddStep::Url);

    type_str(&mut state, "https://mcp.example.com/mcp");
    handle_mcp_event(&mut state, &press(KeyCode::Enter));
    assert_eq!(state.mcp.add_step, McpAddStep::AuthChoice);

    handle_mcp_event(&mut state, &press(KeyCode::Down)); // toggle to API key
    handle_mcp_event(&mut state, &press(KeyCode::Enter));
    assert_eq!(state.mcp.add_step, McpAddStep::ApiKey);

    type_str(&mut state, "secret-token");
    match handle_mcp_event(&mut state, &press(KeyCode::Enter)) {
        McpEventOutcome::AddServer { entry, api_key } => {
            assert_eq!(entry.name, "remote");
            assert_eq!(
                entry.transport,
                McpTransportConfig::Http {
                    url: "https://mcp.example.com/mcp".into(),
                    headers: Vec::new(),
                }
            );
            assert_eq!(entry.auth, McpAuthConfig::ApiKey);
            assert_eq!(api_key.as_deref(), Some("secret-token"));
        }
        other => panic!("expected an AddServer outcome, got {other:?}"),
    }
    assert_eq!(state.mcp.view, McpView::Menu);
}

#[test]
fn add_server_wizard_rejects_an_empty_name() {
    let mut state = state_with(|s| {
        s.mcp.visible = true;
        s.mcp.view = McpView::AddServer;
    });

    assert!(matches!(
        handle_mcp_event(&mut state, &press(KeyCode::Enter)),
        McpEventOutcome::Handled
    ));
    assert_eq!(state.mcp.add_step, McpAddStep::Name);
}

#[test]
fn esc_on_the_name_step_returns_to_the_menu_without_side_effects() {
    let mut state = state_with(|s| {
        s.mcp.visible = true;
        s.mcp.view = McpView::AddServer;
    });
    type_str(&mut state, "abandoned");

    assert!(matches!(
        handle_mcp_event(&mut state, &press(KeyCode::Esc)),
        McpEventOutcome::Handled
    ));
    assert_eq!(state.mcp.view, McpView::Menu);
}

#[test]
fn pressing_o_authorizes_a_server_that_needs_it_and_is_a_no_op_otherwise() {
    let mut servers = sample_mcp_servers();
    servers[1].needs_authorization = true; // "broken", currently disconnected
    let mut state = state_with(|s| {
        s.mcp.visible = true;
        s.mcp.view = McpView::ServerList;
        s.mcp.servers = servers;
        s.mcp.selected = 0;
    });

    // "filesystem" (index 0) doesn't need authorization.
    assert!(matches!(
        handle_mcp_event(&mut state, &press(KeyCode::Char('o'))),
        McpEventOutcome::Handled
    ));

    state.mcp.selected = 1;
    match handle_mcp_event(&mut state, &press(KeyCode::Char('o'))) {
        McpEventOutcome::Authorize(name) => assert_eq!(name, "broken"),
        other => panic!("expected an authorize outcome, got {other:?}"),
    }
}

#[test]
fn authorization_url_ready_event_shows_the_url_in_the_transcript() {
    let mut state = fresh();
    state.apply(&AppEvent::McpAuthorizationUrlReady {
        server: "remote".into(),
        url: "https://example.com/authorize?state=abc".into(),
    });
    assert!(
        matches!(state.transcript.entries.last(), Some(ChatEntry::Info(text)) if text.contains("https://example.com/authorize"))
    );
}
