//! Properties of the interface on concrete values.

use gocode::protocol::{
    is_bound_once,
    AgentActivityState, AppCommand, AppEvent, DebugInvestigation, KeyAction, KeyBinding,
    McpServerStatus, PermissionChoice, PermissionMode, PersonalityName, SkillSource, SkillSummary,
    SubagentMode, ThemeName, ToolActivityStatus, UndoTransactionResult,
};
use gocode::tui::chat::handle_chat_event;
use gocode::tui::commands::{expand_custom_command, ChatSubmission, SlashCommand};
use gocode::tui::composer::{char_index_from_line_col, cursor_line_col};
use gocode::tui::entry::ChatEntry;
use gocode::tui::input::{
    Event, KeyCode, KeyEvent, KeyEventKind, KeyModifiers, MouseButton, MouseEvent, MouseEventKind,
};
use gocode::tui::keys::shortcut_matches;
use gocode::tui::layout::{
    centered, chat_layout, composer_cursor, heading_text_and_footer, is_within,
    tabs_text_and_footer, text_and_footer, text_and_gauge, Rect,
};
use gocode::tui::mcp::{handle_mcp_event, McpEventOutcome};
use gocode::tui::mouse::{
    expire_copy_notification, note_copied, paste_clipboard, wants_clipboard_paste,
};
use gocode::tui::notes::{format_undo_summary, format_worktree_removed};
use gocode::tui::panels::handle_skills_event;
use gocode::tui::preferences::{
    requested_name, requested_shortcut, ActionEntry, Catalog, PersonalityEntry, Reading,
    ThemeEntry,
};
use gocode::tui::prompts::{handle_undo_conflict_event, UndoConflictOutcome};
use gocode::tui::requests::{parse_undo_redo_count, slugify, suggest_worktree_name, ModeEntry};
use gocode::tui::run::{human_tool_name, is_validation_command};
use gocode::tui::state::{
    effort_choice, effort_index, AppState, HelpTab, McpAddStep, McpView, Screen, Selection,
    SelectionPoint, SkillsView,
};
use gocode::tui::submission::{format_review_prompt, handle_submission, shorten_id, LoopStep};
use gocode::tui::terminal::{handle_app_event, handle_terminal_event, Reaction};
use gocode::tui::transcript::{banner_lines, wrapped_history_lines};
use gocode::tui::view::chat::history_view;
use gocode::tui::view::modals::guided_question_height;
use gocode::tui::view::popups::{abbreviate, mcp_add_server_text};
use gocode::tui::view::scene::{find_overlay, Overlay};
use gocode::tui::view::screens::{
    describe_age, format_relative_time, masked, onboarding_text, visible_rows,
};
use gocode::tui::view::theme::{active_theme, theme_tokens, Color, TerminalHints};
use gocode::tui::wrap::{
    compute_visible_window, pick_text, selected_char_range, wrap_lines, LineKind,
};

fn key(code: KeyCode, control: bool) -> Event {
    Event::Key(KeyEvent {
        code,
        modifiers: KeyModifiers { control, ..KeyModifiers::none() },
        kind: KeyEventKind::Press,
    })
}

fn press(code: KeyCode) -> Event {
    key(code, false)
}

fn chatting() -> AppState {
    let mut state = fresh();
    state.screen = Screen::Chat;
    state
}

fn screen() -> Rect {
    Rect { x: 0, y: 0, width: 80, height: 20 }
}

fn catalog() -> Catalog {
    let action = |action: KeyAction, label: &str, shortcut: &str| ActionEntry {
        action,
        label: label.to_owned(),
        shortcut: shortcut.to_owned(),
    };
    let theme = |theme: ThemeName, label: &str| ThemeEntry { theme, label: label.to_owned() };
    let personality = |id: u8, label: &str| PersonalityEntry {
        personality: PersonalityName { id },
        label: label.to_owned(),
    };
    Catalog {
        version: "0.1.0".to_owned(),
        actions: vec![
            action(KeyAction::Approve, "Approve", "y"),
            action(KeyAction::Reject, "Reject", "n"),
            action(KeyAction::InterruptExecution, "Interrupt", "esc"),
        ],
        themes: vec![
            theme(ThemeName::System, "system"),
            theme(ThemeName::Light, "light"),
            theme(ThemeName::Dark, "dark"),
            theme(ThemeName::HighContrast, "high-contrast"),
        ],
        personalities: vec![personality(0, "default"), personality(1, "concise")],
        compact_threshold: 100_000,
    }
}

/// What a product reads in the arguments of a command that names a choice.
fn reading(arguments: &str) -> Reading {
    let name = requested_name(arguments).unwrap_or_default().to_lowercase();
    Reading {
        action: match name.as_str() {
            "approve" => Some(KeyAction::Approve),
            "reject" => Some(KeyAction::Reject),
            "interrupt" => Some(KeyAction::InterruptExecution),
            _ => None,
        },
        theme: match name.as_str() {
            "dark" => Some(ThemeName::Dark),
            "light" => Some(ThemeName::Light),
            _ => None,
        },
        personality: match name.as_str() {
            "concise" => Some(PersonalityName { id: 1 }),
            _ => None,
        },
        shortcut_valid: requested_shortcut(arguments).is_none_or(|s| s.is_ascii()),
        modes: vec![
            ModeEntry { mode: SubagentMode::Research, name: "research".to_owned() },
            ModeEntry { mode: SubagentMode::Review, name: "review".to_owned() },
        ],
    }
}

fn fresh() -> AppState {
    AppState::new(&catalog())
}

fn submitted(state: &mut AppState, text: &str) -> (Vec<AppCommand>, LoopStep) {
    state.composer.set_chat_input(text.to_owned());
    let submission = handle_chat_event(state, &press(KeyCode::Enter)).expect("a submission");
    let arguments = text.split_once(' ').map_or("", |(_, arguments)| arguments);
    let turn = handle_submission(state, submission, &catalog(), &reading(arguments));
    (turn.commands, turn.step)
}

fn last_note(state: &AppState) -> String {
    match state.transcript.entries.last() {
        Some(ChatEntry::Info(t)) => t.clone(),
        Some(ChatEntry::Warning(t)) => format!("warning: {t}"),
        Some(ChatEntry::Error(t)) => format!("error: {t}"),
        other => panic!("expected a note, got {other:?}"),
    }
}

#[test]
fn the_chat_screen_is_split_in_two_whatever_its_size() {
    let mut state = chatting();
    // One line of text, the mode line and two borders.
    let (history, composer) = chat_layout(screen(), &state);
    assert_eq!(history, Rect { x: 0, y: 0, width: 80, height: 16 });
    assert_eq!(composer, Rect { x: 0, y: 16, width: 80, height: 4 });

    // The transcript keeps three rows, and so does the composer.
    for (height, rows) in [(6u16, 3u16), (7, 4), (8, 4), (40, 4)] {
        let (history, composer) = chat_layout(Rect { height, ..screen() }, &state);
        assert_eq!((history.height, composer.height), (height - rows, rows));
    }

    state.status = Some("Model: x".into());
    state.composer.set_chat_input("a\nb\nc".into());
    let (history, composer) = chat_layout(Rect { x: 2, y: 5, width: 30, height: 24 }, &state);
    assert_eq!(history, Rect { x: 2, y: 5, width: 30, height: 17 });
    assert_eq!(composer, Rect { x: 2, y: 22, width: 30, height: 7 });

    // Six suggestions at most are shown.
    let mut state = chatting();
    state.composer.set_chat_input("/".into());
    assert_eq!(chat_layout(screen(), &state).1.height, 10);

    // An area that is too low for both gives the upper part what there is, up to its three rows.
    let (history, composer) = chat_layout(Rect { height: 4, ..screen() }, &chatting());
    assert_eq!((history.height, composer.height), (3, 1));
    let (history, composer) = chat_layout(Rect { height: 2, ..screen() }, &chatting());
    assert_eq!((history.height, composer.height), (2, 0));
}

#[test]
fn every_cell_of_the_chat_screen_lies_in_one_of_its_areas() {
    let state = chatting();
    let (history, composer) = chat_layout(screen(), &state);
    for row in 0..20u16 {
        assert!(is_within(history, 3, row) != is_within(composer, 3, row));
    }
    assert!(!is_within(history, 80, 0));
}

#[test]
fn the_cursor_stands_after_the_prompt_mark() {
    let mut state = chatting();
    state.composer.set_chat_input("ab\ncd".into());
    let composer = chat_layout(screen(), &state).1;
    assert_eq!(composer_cursor(&state, composer), Some((5, composer.y + 2)));
    state.prompts.blocking_error = Some("no".into());
    assert_eq!(composer_cursor(&state, composer), None);
}

#[test]
fn a_centered_box_never_exceeds_its_area() {
    assert_eq!(centered(screen(), 60, 7), Rect { x: 10, y: 6, width: 60, height: 7 });
    assert_eq!(centered(screen(), 200, 90), screen());
}

#[test]
fn a_second_ctrl_c_exits_only_while_the_first_is_recent() {
    let mut state = chatting();
    let mut last = None;
    state.tick(1_000, 0);
    let first = handle_terminal_event(&mut state, &key(KeyCode::Char('c'), true), screen(), &mut last);
    assert!(matches!(first, Reaction::Done(turn) if turn.commands.is_empty()));
    assert_eq!(state.status.as_deref(), Some("Press Ctrl+C again to exit."));
    assert_eq!(last, Some(1_000));

    state.tick(1_600, 0);
    let late = handle_terminal_event(&mut state, &key(KeyCode::Char('c'), true), screen(), &mut last);
    assert!(matches!(late, Reaction::Done(turn) if turn.step == LoopStep::Next));

    state.tick(2_199, 0);
    let again = handle_terminal_event(&mut state, &key(KeyCode::Char('c'), true), screen(), &mut last);
    assert!(matches!(
        again,
        Reaction::Done(turn) if turn.step == LoopStep::Exit && turn.commands == vec![AppCommand::Exit]
    ));
}

#[test]
fn ctrl_c_copies_where_something_is_selected() {
    let mut state = chatting();
    let point = SelectionPoint { line: 0, col: 0 };
    state.transcript.selection = Some(Selection { anchor: point, cursor: point });
    let mut last = None;
    let reaction =
        handle_terminal_event(&mut state, &key(KeyCode::Char('c'), true), screen(), &mut last);
    assert!(matches!(reaction, Reaction::Done(turn) if turn.step == LoopStep::CopySelection));
    assert_eq!(last, None);
}

#[test]
fn escape_cancels_the_active_request() {
    let mut state = chatting();
    state.begin_run("hi".into());
    let reaction = handle_terminal_event(&mut state, &press(KeyCode::Esc), screen(), &mut None);
    assert!(matches!(
        reaction,
        Reaction::Done(turn) if turn.commands == vec![AppCommand::CancelProviderRequest]
    ));
}

#[test]
fn a_permission_prompt_takes_the_keys_before_anything_else() {
    let mut state = chatting();
    state.help.visible = true;
    state.apply(&AppEvent::PermissionRequested {
        summary: "run: ls".into(),
        working_directory: ".".into(),
        scope_label: "commands".into(),
    });
    assert_eq!(find_overlay(&state), Overlay::Permission);
    let reaction = handle_terminal_event(&mut state, &press(KeyCode::Char('1')), screen(), &mut None);
    assert!(matches!(
        reaction,
        Reaction::Done(turn)
            if turn.commands == vec![AppCommand::PermissionResponse(PermissionChoice::AllowOnce)]
    ));
    assert_eq!(find_overlay(&state), Overlay::Help);
}

#[test]
fn a_resize_is_handed_on() {
    let mut state = chatting();
    let reaction = handle_terminal_event(&mut state, &Event::Resize(100, 30), screen(), &mut None);
    assert!(matches!(
        reaction,
        Reaction::Done(turn) if turn.commands == vec![AppCommand::Resize { columns: 100, rows: 30 }]
    ));
}

#[test]
fn a_prompt_typed_during_a_run_is_sent_when_the_run_ends() {
    let mut state = chatting();
    state.begin_run("first".into());
    state.composer.set_chat_input("second".into());
    assert_eq!(handle_chat_event(&mut state, &press(KeyCode::Enter)), None);
    let turn = handle_app_event(&mut state, &AppEvent::AgentStopped);
    assert_eq!(turn.commands, vec![AppCommand::SubmitChat("second".into())]);
    assert_eq!(state.transcript.entries.last(), Some(&ChatEntry::User("second".into())));
    assert_eq!(state.transcript.activity, Some(AgentActivityState::Thinking));
}

#[test]
fn an_exit_for_an_update_ends_the_loop() {
    let mut state = chatting();
    let turn = handle_app_event(&mut state, &AppEvent::ExitForUpdate);
    assert_eq!((turn.commands, turn.step), (vec![AppCommand::Exit], LoopStep::Exit));
}

#[test]
fn a_run_names_its_changed_files_once_it_is_over() {
    let mut state = chatting();
    state.begin_run("go".into());
    for path in ["a.rs", "b.rs"] {
        state.apply(&AppEvent::FileChanged { path: path.into(), kind: "modified".into() });
    }
    state.apply(&AppEvent::AgentCompleted {
        final_text: Some("done".into()),
        turns: 2,
        tool_calls: 3,
        failed_tool_calls: 1,
        last_input_tokens: Some(7),
        partial: false,
    });
    let entries = &state.transcript.entries;
    assert_eq!(entries[1], ChatEntry::Assistant("done".into()));
    assert_eq!(entries[2], ChatEntry::FileChanges(vec!["a.rs".into(), "b.rs".into()]));
    assert_eq!(entries.len(), 5);
    assert_eq!(state.transcript.last_input_tokens, Some(7));
}

#[test]
fn tool_output_stops_at_its_bound() {
    let mut state = chatting();
    state.apply(&AppEvent::ToolActivity {
        id: "1".into(),
        name: "run_command".into(),
        status: ToolActivityStatus::Started,
        detail: "make".into(),
    });
    let chunk = "x".repeat(3000);
    for _ in 0..3 {
        assert!(state.can_append_output("1", &chunk));
        state.apply(&AppEvent::ToolOutputChunk { id: "1".into(), chunk: chunk.clone() });
    }
    let ChatEntry::Tool { output, .. } = &state.transcript.entries[0] else {
        panic!("expected a tool entry");
    };
    assert_eq!(*output, format!("{}\n… output truncated …", "x".repeat(4000)));
    // A character that would be cut in two at the bound cannot be appended.
    let mut other = chatting();
    other.transcript.entries = vec![ChatEntry::Tool {
        id: "2".into(),
        name: "t".into(),
        status: ToolActivityStatus::Started,
        detail: String::new(),
        output: "x".repeat(3999),
        expanded: false,
    }];
    assert!(!other.can_append_output("2", "é"));
}

#[test]
fn toggling_the_output_twice_changes_nothing() {
    let mut state = chatting();
    state.apply(&AppEvent::ToolActivity {
        id: "1".into(),
        name: "search".into(),
        status: ToolActivityStatus::Started,
        detail: String::new(),
    });
    let before = state.clone();
    let _ = handle_chat_event(&mut state, &key(KeyCode::Char('o'), true));
    assert_ne!(state, before);
    let _ = handle_chat_event(&mut state, &key(KeyCode::Char('o'), true));
    assert_eq!(state, before);
}

#[test]
fn typing_and_erasing_leave_the_composer_as_it_was() {
    let mut state = chatting();
    state.composer.set_chat_input("héllo".into());
    let before = state.clone();
    let _ = handle_chat_event(&mut state, &press(KeyCode::Char('ü')));
    assert_eq!(state.composer.chat_input, "hélloü");
    let _ = handle_chat_event(&mut state, &press(KeyCode::Backspace));
    assert_eq!(state, before);
}

#[test]
fn line_and_column_lead_back_to_the_cursor() {
    let lines = vec!["ab".to_owned(), String::new(), "cde".to_owned()];
    for cursor in 0..8usize {
        let (line, col) = cursor_line_col(&lines, cursor);
        assert_eq!(char_index_from_line_col(&lines, line, col), cursor);
    }
    assert_eq!(cursor_line_col(&lines, 4), (2, 0));
}

#[test]
fn the_prompt_history_has_a_bound() {
    let mut state = chatting();
    for n in 0..250 {
        state.composer.remember_prompt(&format!("prompt {n}"));
    }
    assert_eq!(state.composer.prompt_history.len(), 200);
    assert_eq!(state.composer.prompt_history[0], "prompt 50");
    state.composer.remember_prompt("prompt 249");
    assert_eq!(state.composer.prompt_history.len(), 200);
}

#[test]
fn wrapping_keeps_every_word_and_the_width() {
    let line = "a verylongunbrokenword and    some more".to_owned();
    for width in 1..12usize {
        let rows = wrap_lines(&vec![line.clone()], width);
        assert!(rows.iter().all(|row| row.chars().count() <= width));
        let dense = |t: &str| t.chars().filter(|c| !c.is_whitespace()).collect::<String>();
        assert_eq!(dense(&rows.concat()), dense(&line));
    }
}

#[test]
fn the_window_follows_the_newest_row_until_scrolled() {
    assert_eq!(compute_visible_window(50, 10, 0), (40, 50));
    assert_eq!(compute_visible_window(50, 10, 7), (33, 43));
    assert_eq!(compute_visible_window(50, 10, 900), (0, 10));
    assert_eq!(compute_visible_window(4, 10, 0), (0, 4));
}

#[test]
fn a_selection_reads_the_same_both_ways() {
    let rows: Vec<(String, LineKind)> = ["alpha", "beta", "gamma"]
        .iter()
        .map(|t| ((*t).to_owned(), LineKind::Normal))
        .collect();
    let (a, b) = (SelectionPoint { line: 0, col: 2 }, SelectionPoint { line: 2, col: 3 });
    let forward = pick_text(&rows, &Selection { anchor: a, cursor: b });
    assert_eq!(forward.as_deref(), Some("pha\nbeta\ngam"));
    assert_eq!(pick_text(&rows, &Selection { anchor: b, cursor: a }), forward);
    assert_eq!(pick_text(&rows, &Selection { anchor: a, cursor: a }), None);
    assert_eq!(selected_char_range(&Selection { anchor: a, cursor: a }, 0, 5), None);
}

#[test]
fn a_copy_is_announced_for_a_while() {
    let mut state = chatting();
    let deadline = note_copied(&mut state, "héllo", 500);
    assert_eq!(state.copy_notification.as_deref(), Some("Copied 5 chars to clipboard"));
    assert_eq!(expire_copy_notification(&mut state, Some(deadline), deadline - 1), Some(deadline));
    assert!(state.copy_notification.is_some());
    assert_eq!(expire_copy_notification(&mut state, Some(deadline), deadline), None);
    assert!(state.copy_notification.is_none());
}

#[test]
fn a_right_click_on_the_composer_pastes() {
    let mut state = chatting();
    let composer = chat_layout(screen(), &state).1;
    let click = MouseEvent {
        kind: MouseEventKind::Down(MouseButton::Right),
        column: 4,
        row: composer.y + 1,
    };
    assert!(wants_clipboard_paste(&state, &click, screen()));
    assert!(!wants_clipboard_paste(&state, &MouseEvent { row: 2, ..click }, screen()));
    paste_clipboard(&mut state, "pasted");
    assert_eq!(state.composer.chat_input, "pasted");
}

#[test]
fn toggling_a_skill_twice_leaves_it_as_it_was() {
    let mut state = fresh();
    state.skill_panel.visible = true;
    state.skill_panel.view = SkillsView::EnableDisable;
    state.skill_panel.skills = vec![SkillSummary {
        name: "s".into(),
        description: "d".into(),
        source: SkillSource::Global,
        path: "p".into(),
        enabled: false,
    }];
    let before = state.clone();
    handle_skills_event(&mut state, &press(KeyCode::Enter));
    assert!(state.skill_panel.skills[0].enabled);
    handle_skills_event(&mut state, &press(KeyCode::Enter));
    assert_eq!(state, before);
}

#[test]
fn the_wizard_keeps_the_api_key_to_itself() {
    let mut state = fresh();
    state.mcp.visible = true;
    state.mcp.view = McpView::AddServer;
    state.mcp.add_step = McpAddStep::ApiKey;
    state.mcp.add_api_key = "secret".into();
    let shown = mcp_add_server_text(&state.mcp);
    assert!(shown.contains("••••••"));
    state.mcp.add_api_key = "hidden".into();
    assert_eq!(mcp_add_server_text(&state.mcp), shown);
    assert_eq!(masked("añb"), "•••");
}

#[test]
fn a_blank_server_name_is_not_taken() {
    let mut state = fresh();
    state.mcp.visible = true;
    state.mcp.view = McpView::AddServer;
    state.mcp.add_name = "   ".into();
    assert_eq!(handle_mcp_event(&mut state, &press(KeyCode::Enter)), McpEventOutcome::Handled);
    assert_eq!(state.mcp.add_step, McpAddStep::Name);
}

#[test]
fn onboarding_shows_only_the_length_of_the_key() {
    let mut state = fresh();
    state.pickers.credential_input = "abc".into();
    let shown = onboarding_text(&state);
    state.pickers.credential_input = "xyz".into();
    assert_eq!(onboarding_text(&state), shown);
    assert!(shown.ends_with("•••"));
}

#[test]
fn the_selected_row_of_a_list_is_shown() {
    assert_eq!(visible_rows(30, 0, 5), (0, 5));
    assert_eq!(visible_rows(30, 29, 5), (25, 5));
    assert_eq!(visible_rows(3, 2, 5), (0, 3));
}

#[test]
fn an_age_is_told_in_minutes_then_hours_then_as_a_date() {
    assert_eq!(describe_age(1_000, 1_030, "-"), "just now");
    assert_eq!(describe_age(1_000, 1_000 + 59 * 60, "-"), "59 minutes ago");
    assert_eq!(describe_age(1_000, 1_000 + 3_600, "-"), "1 hour ago");
    assert_eq!(describe_age(1_000, 1_000 + 86_400, "May 1"), "May 1");
    // A day in June, in whatever time zone the test runs, is a day of 2024.
    let date = format_relative_time(1_718_452_800, 1_750_000_000);
    assert!(date.contains("2024"), "{date}");
    assert!(!date.contains("ago"));
}

#[test]
fn every_theme_is_readable_and_colors_can_be_refused() {
    for theme in [ThemeName::System, ThemeName::Light, ThemeName::Dark, ThemeName::HighContrast] {
        let tokens = theme_tokens(theme, true);
        assert_ne!(tokens.primary, tokens.background);
    }
    let mut state = fresh();
    state.preferences.theme = ThemeName::System;
    let hints = |no_color: bool, colors: Option<&str>| TerminalHints {
        no_color,
        term: Some("xterm-256color".into()),
        colors: colors.map(str::to_owned),
    };
    assert_eq!(active_theme(&state, &hints(true, None)).primary, Color::Reset);
    assert_eq!(
        active_theme(&state, &hints(false, Some("0;15"))),
        theme_tokens(ThemeName::Light, true)
    );
    assert_eq!(
        active_theme(&state, &hints(false, Some("15;0"))),
        theme_tokens(ThemeName::Dark, true)
    );
}

#[test]
fn a_guided_question_fits_the_screen() {
    assert_eq!(guided_question_height(2, 40), 15);
    assert_eq!(guided_question_height(9, 20), 18);
}

#[test]
fn effort_levels_go_to_their_rows_and_back() {
    for row in 0..4usize {
        assert_eq!(effort_index(&effort_choice(row)), row);
    }
    assert_eq!(effort_choice(2).as_deref(), Some("medium"));
}

#[test]
fn modes_and_tabs_go_round() {
    assert_eq!(PermissionMode::Auto.cycle().cycle().cycle().cycle(), PermissionMode::Auto);
    assert_eq!(HelpTab::General.next().next().next(), HelpTab::General);
    assert_eq!(HelpTab::General.previous(), HelpTab::Custom);
}

#[test]
fn a_shortcut_wants_exactly_its_modifiers() {
    let control = KeyModifiers { control: true, ..KeyModifiers::none() };
    assert!(shortcut_matches("Ctrl+K", KeyCode::Char('k'), control));
    assert!(!shortcut_matches("ctrl+k", KeyCode::Char('k'), KeyModifiers::none()));
    assert!(!shortcut_matches("k", KeyCode::Char('k'), control));
    assert!(shortcut_matches("f2", KeyCode::F(2), KeyModifiers::none()));
}

#[test]
fn names_for_worktrees_are_safe_segments() {
    assert_eq!(slugify("  Fix: the ÜBER bug!!  "), "fix-the-ber-bug");
    assert_eq!(slugify(&"a".repeat(60)).len(), 40);
    assert_eq!(slugify("¿?"), "");
    let mut state = fresh();
    state.unix_seconds = 42;
    assert_eq!(suggest_worktree_name(&state), "task-42");
}

#[test]
fn counts_for_undo_are_checked() {
    assert_eq!(parse_undo_redo_count(""), Ok(1));
    assert_eq!(parse_undo_redo_count(" 3 "), Ok(3));
    assert!(parse_undo_redo_count("0").is_err());
    assert!(parse_undo_redo_count("all").is_err());
}

#[test]
fn custom_commands_take_their_arguments_everywhere() {
    assert_eq!(expand_custom_command("$ARGUMENTS and $ARGUMENTS", "x"), "x and x");
    assert_eq!(expand_custom_command("no slot", "x"), "no slot");
}

#[test]
fn run_progress_is_told_in_plain_words() {
    assert_eq!(human_tool_name("apply_patch"), "Aplicando alteração");
    assert_eq!(human_tool_name("other"), "Executando ação");
    assert!(is_validation_command("cargo test"));
    assert!(!is_validation_command("git status"));
}

#[test]
fn ids_are_shortened_where_characters_end() {
    assert_eq!(shorten_id("0123456789").as_deref(), Some("01234567"));
    assert_eq!(shorten_id("0123456é9"), None);
    assert_eq!(abbreviate("0123456é9"), "0123456é9");
    assert_eq!(abbreviate("0123456789"), "01234567");
}

#[test]
fn a_theme_is_chosen_by_name() {
    let mut state = chatting();
    let (commands, step) = submitted(&mut state, "/theme set dark");
    assert_eq!(state.preferences.theme, ThemeName::Dark);
    assert_eq!(step, LoopStep::Next);
    assert!(matches!(
        commands.as_slice(),
        [AppCommand::SetPreferences(p)] if p.theme == ThemeName::Dark
    ));
    let before = state.preferences.clone();
    let (commands, _) = submitted(&mut state, "/theme set plaid");
    assert!(commands.is_empty());
    assert_eq!(state.preferences, before);
    assert_eq!(last_note(&state), "error: Unknown theme.");
}

#[test]
fn binding_a_key_takes_effect_and_keeps_the_others() {
    let mut state = chatting();
    let (commands, _) = submitted(&mut state, "/keymap set approve ctrl+y");
    assert_eq!(commands.len(), 1);
    assert!(state
        .preferences
        .keymap
        .contains(&KeyBinding { action: KeyAction::Approve, shortcut: "ctrl+y".into() }));
    assert_eq!(state.preferences.keymap.len(), 3);
}

#[test]
fn slash_commands_do_what_they_say() {
    let mut state = chatting();
    assert_eq!(submitted(&mut state, "/exit").1, LoopStep::Exit);
    let mut state = chatting();
    assert_eq!(submitted(&mut state, "/agents").0, vec![AppCommand::AgentList]);
    assert!(state.agent_panel.visible);
    let mut state = chatting();
    assert_eq!(submitted(&mut state, "/worktree list").0, vec![AppCommand::WorktreeList]);
    let mut state = chatting();
    assert!(submitted(&mut state, "/worktree remove x").0.is_empty());
    assert_eq!(state.prompts.pending_worktree_removal.as_deref(), Some("x"));
    let mut state = chatting();
    assert_eq!(submitted(&mut state, "/model").1, LoopStep::Next);
    assert_eq!(state.screen, Screen::ModelPicker);
    let mut state = chatting();
    let review = format_review_prompt("main");
    assert!(review.contains("main"));
    assert_eq!(submitted(&mut state, "/review main").0, vec![AppCommand::SubmitChat(review)]);
    let mut state = chatting();
    state.undo_count = 2;
    assert_eq!(submitted(&mut state, "/undo 2").0, vec![AppCommand::Undo(2)]);
    let (commands, _) = submitted(&mut state, "/undo many");
    assert!(commands.is_empty());
    assert!(!last_note(&state).is_empty());
}

#[test]
fn a_pending_question_takes_the_next_prompt_as_its_answer() {
    let mut state = chatting();
    state.apply(&AppEvent::DebugStateUpdated(DebugInvestigation {
        active: true,
        stopped: false,
        description: Some("d".into()),
        hypothesis: None,
        evidence_count: 0,
        command_count: 0,
        next_question: Some("When?".into()),
    }));
    state.composer.set_chat_input("always".into());
    assert_eq!(
        handle_chat_event(&mut state, &press(KeyCode::Enter)),
        Some(ChatSubmission::DebugAnswer("always".into()))
    );
    assert_eq!(
        submitted(&mut state, "never").0,
        vec![AppCommand::DebugAnswer("never".into())]
    );
}

#[test]
fn an_undo_conflict_waits_for_a_choice() {
    let mut state = chatting();
    state.apply(&AppEvent::UndoConflict {
        direction: "redo".into(),
        requested: 3,
        applied: Vec::new(),
        conflicting_files: Vec::new(),
    });
    assert_eq!(
        handle_undo_conflict_event(&mut state, &press(KeyCode::Char('d'))),
        Some(UndoConflictOutcome::DiffToggled)
    );
    assert_eq!(
        handle_undo_conflict_event(&mut state, &press(KeyCode::Char('f'))),
        Some(UndoConflictOutcome::Forced { direction: "redo".into(), count: 3 })
    );
    assert!(state.prompts.pending_undo_conflict.is_none());
}

#[test]
fn notes_tell_what_was_done() {
    let done = vec![UndoTransactionResult {
        description: "edit".into(),
        files: vec![("a.rs".into(), "restored".into())],
    }];
    assert!(format_undo_summary("Undid", &done).contains("a.rs"));
    assert!(format_worktree_removed("/w/x", &Some("/w".into())).contains("/w/x"));
    let mut state = chatting();
    state.apply(&AppEvent::McpServersAvailable(vec![McpServerStatus {
        name: "s".into(),
        transport: "stdio".into(),
        connected: true,
        tool_count: 0,
        tool_names: Vec::new(),
        error: None,
        needs_authorization: false,
    }]));
    assert_eq!(state.mcp.servers.len(), 1);
    assert_eq!(submitted(&mut state, "/mcp").1, LoopStep::Next);
    assert_eq!(find_overlay(&state), Overlay::Mcp);
    assert_eq!(
        SlashCommand::Mcp,
        gocode::tui::commands::resolve_slash_command("/mcp").expect("a command")
    );
}

#[test]
fn an_unknown_shortcut_owner_keeps_its_key() {
    let mut state = fresh();
    state.screen = Screen::Chat;
    state.preferences.keymap = vec![KeyBinding {
        action: KeyAction::Other(9),
        shortcut: "ctrl+y".to_owned(),
    }];
    submitted(&mut state, "/keymap set approve ctrl+y");
    assert_eq!(state.preferences.keymap[0].shortcut, "ctrl+y");
    submitted(&mut state, "/keymap reset approve");
    submitted(&mut state, "/keymap frobnicate");
}

#[test]
fn cached_rows_are_those_of_a_fresh_wrap() {
    let mut state = chatting();
    state.transcript.entries.push(ChatEntry::Info("one two three four five six".to_owned()));
    let area = Rect { x: 0, y: 0, width: 12, height: 20 };
    let shown = |state: &AppState| -> Vec<String> {
        history_view(state, area).into_iter().map(|row| row.before).collect()
    };
    let fresh = shown(&state);
    wrapped_history_lines(&mut state, 10);
    assert_eq!(shown(&state), fresh);
    state.transcript.entries.push(ChatEntry::Info("seven".to_owned()));
    assert!(shown(&state).iter().any(|row| row.contains("seven")));
}

#[test]
fn an_interface_begins_with_the_bindings_and_the_version_of_its_product() {
    let mut state = fresh();
    let bound: Vec<(KeyAction, &str)> =
        state.preferences.keymap.iter().map(|b| (b.action, b.shortcut.as_str())).collect();
    assert_eq!(
        bound,
        [
            (KeyAction::Approve, "y"),
            (KeyAction::Reject, "n"),
            (KeyAction::InterruptExecution, "esc"),
        ]
    );
    assert!(catalog().is_sound());
    assert!(catalog().is_complete_in(&state.preferences.keymap));
    state.screen = Screen::Chat;
    submitted(&mut state, "/keymap");
    for label in ["Approve", "Reject", "Interrupt"] {
        assert!(last_note(&state).contains(label));
    }

    let newer = Catalog { version: "2.3.4".to_owned(), ..catalog() };
    assert_eq!(
        banner_lines(&AppState::new(&newer))[6],
        "Gocode v2.3.4 · no model selected · NVIDIA NIM"
    );
}

#[test]
fn an_action_is_bound_at_most_once() {
    let mut twice = catalog();
    twice.actions.push(ActionEntry {
        action: KeyAction::Approve,
        label: "Again".to_owned(),
        shortcut: "z".to_owned(),
    });
    assert!(!twice.is_sound());
    assert!(!is_bound_once(&twice.default_keymap()));
    assert!(!catalog().lists_action(KeyAction::OpenHelp));
    assert!(!catalog().is_complete_in(&Vec::new()));

    let mut state = chatting();
    for text in
        ["/keymap set approve ctrl+y", "/keymap set approve f2", "/keymap reset", "/keymap set reject x"]
    {
        submitted(&mut state, text);
        assert!(is_bound_once(&state.preferences.keymap));
    }
}

#[test]
fn a_choice_is_what_the_product_reads_in_its_name() {
    assert_eq!(requested_name("set dark now").as_deref(), Some("dark"));
    assert_eq!(requested_name("set"), None);
    assert_eq!(requested_shortcut("set approve Ctrl+Y").as_deref(), Some("ctrl+y"));
    let mut state = chatting();
    submitted(&mut state, "/theme set DARK");
    assert_eq!(state.preferences.theme, ThemeName::Dark);
    submitted(&mut state, "/keymap set unheard-of x");
    assert!(last_note(&state).starts_with("error: "));
    assert_eq!(state.preferences.keymap, fresh().preferences.keymap);
}

#[test]
fn the_parts_of_a_panel_tile_it() {
    let part = |y: u16, height: u16| Rect { x: 2, y, width: 30, height };
    let panel = part(5, 12);
    assert_eq!(heading_text_and_footer(panel, 3), (part(5, 3), part(8, 8), part(16, 1)));
    assert_eq!(heading_text_and_footer(part(5, 4), 2), (part(5, 2), part(7, 1), part(8, 1)));
    assert_eq!(
        tabs_text_and_footer(panel),
        (part(5, 1), part(6, 1), part(7, 9), part(16, 1))
    );
    assert_eq!(tabs_text_and_footer(part(0, 4)), (part(0, 1), part(1, 1), part(2, 1), part(3, 1)));
    assert_eq!(text_and_footer(panel), (part(5, 11), part(16, 1)));
    assert_eq!(text_and_footer(part(5, 1)), (part(5, 1), part(6, 0)));
    assert_eq!(text_and_gauge(panel), (part(5, 2), part(7, 1)));
}
