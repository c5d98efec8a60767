//! How keys act on the chat composer, and what a submission is.

use vstd::prelude::*;

use crate::protocol::{CustomCommand, KeyAction};
use crate::text;
use crate::text_laws;
use crate::text::{same_text, split, split_at_white, trim};
use crate::tui::commands;
use crate::tui::commands::{
    expand_custom_command, resolve_custom_command, resolve_slash_command, slash_suggestions,
    ChatSubmission, SlashCommand,
};
use crate::tui::composer;
use crate::tui::composer::ComposerView;
use crate::tui::entry;
use crate::tui::input;
use crate::tui::input::{Event, KeyCode, KeyModifiers};
use crate::tui::keys;
use crate::tui::keys::key_action_matches;
use crate::tui::state;
use crate::tui::state::{AppState, Composer, Transcript};

verus! {

/// The command that takes the text typed after it, by its typed form.
pub open spec fn is_command_with(name: Seq<char>, argument: Seq<char>, c: SlashCommand) -> bool {
    match c {
        SlashCommand::Review(s) => name == "/review"@ && s@ == argument,
        SlashCommand::Worktree(s) => name == "/worktree"@ && s@ == argument,
        SlashCommand::Undo(s) => name == "/undo"@ && s@ == argument,
        SlashCommand::Redo(s) => name == "/redo"@ && s@ == argument,
        SlashCommand::Debug(s) => name == "/debug"@ && s@ == argument,
        SlashCommand::Agent(s) => name == "/agent"@ && s@ == argument,
        SlashCommand::Keymap(s) => name == "/keymap"@ && s@ == argument,
        SlashCommand::Theme(s) => name == "/theme"@ && s@ == argument,
        SlashCommand::Personality(s) => name == "/personality"@ && s@ == argument,
        _ => false,
    }
}

/// Whether a typed form names a command that takes the text typed after it.
pub open spec fn takes_argument(name: Seq<char>) -> bool {
    ||| name == "/review"@
    ||| name == "/worktree"@
    ||| name == "/undo"@
    ||| name == "/redo"@
    ||| name == "/debug"@
    ||| name == "/agent"@
    ||| name == "/keymap"@
    ||| name == "/theme"@
    ||| name == "/personality"@
}

fn command_with(name: &str, argument: String) -> (r: Option<SlashCommand>)
    ensures
        match r {
            Some(c) => is_command_with(name@, argument@, c),
            None => !takes_argument(name@),
        },
{
    if same_text(name, "/review") {
        Some(SlashCommand::Review(argument))
    } else if same_text(name, "/worktree") {
        Some(SlashCommand::Worktree(argument))
    } else if same_text(name, "/undo") {
        Some(SlashCommand::Undo(argument))
    } else if same_text(name, "/redo") {
        Some(SlashCommand::Redo(argument))
    } else if same_text(name, "/debug") {
        Some(SlashCommand::Debug(argument))
    } else if same_text(name, "/agent") {
        Some(SlashCommand::Agent(argument))
    } else if same_text(name, "/keymap") {
        Some(SlashCommand::Keymap(argument))
    } else if same_text(name, "/theme") {
        Some(SlashCommand::Theme(argument))
    } else if same_text(name, "/personality") {
        Some(SlashCommand::Personality(argument))
    } else {
        None
    }
}

/// What the typed text asks for, before it counts as a prompt.
pub enum Asks {
    /// Nothing: the text is blank.
    Nothing,
    /// The built-in command at a row, with no text after it.
    Builtin(int),
    /// A command with the text typed after it.
    WithText(Seq<char>, Seq<char>),
    /// The expansion of a custom command.
    Expansion(Seq<char>),
    /// A plain prompt.
    Plain,
}

/// What the typed text asks for. While suggestions are offered, the highlighted one decides;
/// otherwise the first word does, where it is a command.
pub open spec fn asked(typed: Seq<char>, selected: int, customs: Seq<CustomCommand>) -> Asks {
    let whole = text::trimmed(typed);
    let offered = commands::suggestions(typed, customs);
    let cut = text::first_white(whole, 0);
    if whole.len() == 0 {
        Asks::Nothing
    } else if offered.len() > 0 {
        let name = offered[composer::chosen_row(offered.len() as int, selected)].0;
        let row = commands::builtin_row(name, 0);
        let custom = commands::custom_row(customs, name, 0);
        if row >= 0 {
            Asks::Builtin(row)
        } else if custom >= 0 {
            Asks::Expansion(commands::expansion(customs[custom].body@, Seq::empty()))
        } else {
            Asks::Plain
        }
    } else if cut < whole.len() {
        let name = whole.take(cut);
        let argument = text::trimmed(whole.skip(cut + 1));
        let custom = commands::custom_row(customs, name, 0);
        if takes_argument(name) {
            Asks::WithText(name, argument)
        } else if custom >= 0 {
            Asks::Expansion(commands::expansion(customs[custom].body@, argument))
        } else {
            Asks::Plain
        }
    } else {
        Asks::Plain
    }
}

/// Whether a submission is the prompt with the given text.
pub open spec fn is_prompt(r: Option<ChatSubmission>, t: Seq<char>) -> bool {
    r matches Some(ChatSubmission::Prompt(s)) && s@ == t
}

/// What submitting the composer's text does.
pub open spec fn submits(pre: AppState, post: AppState, r: Option<ChatSubmission>) -> bool {
    let typed = pre.composer.chat_input@;
    match asked(typed, pre.composer.suggestion_selected as int, pre.custom_commands@) {
        Asks::Nothing => post == pre && r is None,
        Asks::Builtin(row) => {
            &&& only_composer(pre, post)
            &&& post.composer@ == pre.composer@.cleared()
            &&& r matches Some(ChatSubmission::Command(c))
            &&& commands::is_builtin(row, c)
        },
        Asks::WithText(name, argument) => {
            &&& only_composer(pre, post)
            &&& post.composer@ == pre.composer@.cleared()
            &&& r matches Some(ChatSubmission::Command(c))
            &&& is_command_with(name, argument, c)
        },
        Asks::Expansion(body) => {
            &&& only_composer(pre, post)
            &&& post.composer@ == pre.composer@.cleared()
            &&& is_prompt(r, body)
        },
        Asks::Plain => {
            let emptied = ComposerView { text: Seq::empty(), cursor: 0, ..pre.composer@ };
            if pre.debug.next_question is Some {
                &&& only_composer(pre, post)
                &&& post.composer@ == emptied
                &&& r == Some(ChatSubmission::DebugAnswer(pre.composer.chat_input))
            } else if pre.transcript.activity is Some {
                &&& post == (AppState {
                    composer: post.composer,
                    transcript: Transcript {
                        queued: Some(pre.composer.chat_input),
                        ..pre.transcript
                    },
                    ..pre
                })
                &&& post.composer@ == emptied.remembered(typed)
                &&& r is None
            } else {
                &&& only_composer(pre, post)
                &&& post.composer@ == emptied.remembered(typed)
                &&& r == Some(ChatSubmission::Prompt(pre.composer.chat_input))
            }
        },
    }
}

/// Whether nothing but the composer changed.
pub open spec fn only_composer(pre: AppState, post: AppState) -> bool {
    post == (AppState { composer: post.composer, ..pre })
}

/// Whether the cursor stands on the first line.
pub open spec fn on_first_line(v: ComposerView) -> bool {
    composer::line_col(text::split_on(v.text, '\n'), 0, v.cursor).0 == 0
}

/// Whether the cursor stands on the last line.
pub open spec fn on_last_line(v: ComposerView) -> bool {
    let lines = text::split_on(v.text, '\n');
    composer::line_col(lines, 0, v.cursor).0 == lines.len() - 1
}

/// What a key does to the composer's view, for the keys that only edit it.
pub open spec fn edited(
    v: ComposerView,
    code: KeyCode,
    m: KeyModifiers,
    offered: Seq<(Seq<char>, Seq<char>)>,
) -> ComposerView {
    match code {
        KeyCode::Up => if offered.len() > 0 {
            ComposerView {
                suggestion: if v.suggestion > 0 {
                    v.suggestion - 1
                } else {
                    0
                },
                ..v
            }
        } else if on_first_line(v) {
            v.recalled()
        } else {
            v.stepped(-1)
        },
        KeyCode::Down => if offered.len() > 0 {
            ComposerView {
                suggestion: if v.suggestion + 1 < offered.len() {
                    v.suggestion + 1
                } else {
                    offered.len() - 1
                },
                ..v
            }
        } else if on_last_line(v) {
            v.advanced()
        } else {
            v.stepped(1)
        },
        KeyCode::Left => ComposerView {
            cursor: if v.cursor > 0 {
                v.cursor - 1
            } else {
                0
            },
            ..v
        },
        KeyCode::Right => ComposerView {
            cursor: if v.cursor < v.text.len() {
                v.cursor + 1
            } else {
                v.cursor
            },
            ..v
        },
        KeyCode::Tab => if offered.len() > 0 {
            v.placed(offered[composer::chosen_row(offered.len() as int, v.suggestion)].0)
        } else {
            v
        },
        KeyCode::Enter => if m.alt || m.shift {
            v.inserted("\n"@)
        } else {
            v
        },
        KeyCode::Char(c) => if (c == 'j' || c == 'J') && m.control {
            v.inserted("\n"@)
        } else if !m.control && !m.alt {
            v.inserted(seq![c])
        } else {
            v
        },
        KeyCode::Backspace => v.erased(),
        _ => v,
    }
}

/// What a key does once shortcuts have been resolved.
pub open spec fn keyed(
    pre: AppState,
    post: AppState,
    code: KeyCode,
    m: KeyModifiers,
    r: Option<ChatSubmission>,
) -> bool {
    let offered = commands::suggestions(pre.composer.chat_input@, pre.custom_commands@);
    if code == KeyCode::Char('o') && m.control {
        r is None && toggled(pre, post)
    } else if code == KeyCode::Char('r') && m.control {
        &&& r is None
        &&& match pre.transcript.last_failed_prompt {
            Some(p) => {
                &&& post == (AppState {
                    composer: post.composer,
                    transcript: Transcript { last_failed_prompt: None, ..pre.transcript },
                    ..pre
                })
                &&& post.composer@ == pre.composer@.placed(p@)
            },
            None => post == pre,
        }
    } else if code == KeyCode::PageUp {
        &&& r is None
        &&& post == (AppState {
            transcript: Transcript { scroll: post.transcript.scroll, ..pre.transcript },
            ..pre
        })
        &&& post.transcript.scroll == (if pre.transcript.scroll + state::SCROLL_STEP <= usize::MAX {
            pre.transcript.scroll + state::SCROLL_STEP
        } else {
            usize::MAX as int
        })
    } else if code == KeyCode::PageDown || code == KeyCode::End {
        &&& r is None
        &&& post == (AppState {
            transcript: Transcript { scroll: post.transcript.scroll, ..pre.transcript },
            ..pre
        })
        &&& post.transcript.scroll == (if pre.transcript.scroll >= state::SCROLL_STEP {
            pre.transcript.scroll - state::SCROLL_STEP
        } else {
            0
        })
    } else if code == KeyCode::Enter && !m.alt && !m.shift {
        submits(pre, post, r)
    } else {
        &&& r is None
        &&& only_composer(pre, post)
        &&& post.composer@ == edited(pre.composer@, code, m, offered)
    }
}

/// Whether the last tool entry's output is shown or hidden the other way.
pub open spec fn toggled(pre: AppState, post: AppState) -> bool {
    let before = pre.transcript.entries@;
    let after = post.transcript.entries@;
    let i = entry::last_tool(before);
    &&& post == (AppState {
        transcript: Transcript { entries: post.transcript.entries, ..pre.transcript },
        ..pre
    })
    &&& if i >= 0 {
        after == before.update(i, after[i]) && state::toggles(before[i], after[i])
    } else {
        post.transcript.entries == pre.transcript.entries
    }
}

/// The key that a press stands for once the send and history shortcuts have been resolved.
pub open spec fn resolved(pre: AppState, code: KeyCode, m: KeyModifiers) -> KeyCode {
    let keymap = pre.preferences.keymap@;
    if keys::triggers(keymap, KeyAction::SendMessage, code, m) {
        KeyCode::Enter
    } else if keys::triggers(keymap, KeyAction::HistoryPrevious, code, m) {
        KeyCode::Up
    } else if keys::triggers(keymap, KeyAction::HistoryNext, code, m) {
        KeyCode::Down
    } else {
        code
    }
}

/// What one terminal event does to the chat composer.
pub open spec fn chats(
    pre: AppState,
    post: AppState,
    event: Event,
    r: Option<ChatSubmission>,
) -> bool {
    let keymap = pre.preferences.keymap@;
    if !pre.is_composing() {
        post == pre && r is None
    } else if event is Paste {
        &&& r is None
        &&& only_composer(pre, post)
        &&& post.composer@ == pre.composer@.inserted(event->Paste_0@)
    } else {
        match input::pressed(event) {
            None => post == pre && r is None,
            Some((code, m)) => if keys::triggers(keymap, KeyAction::OpenHelp, code, m) {
                post == pre && r == Some(ChatSubmission::Command(SlashCommand::Help))
            } else if keys::triggers(keymap, KeyAction::OpenModelPicker, code, m) {
                post == pre && r == Some(ChatSubmission::Command(SlashCommand::Model))
            } else if keys::triggers(keymap, KeyAction::NewConversation, code, m) {
                post == pre && r == Some(ChatSubmission::Command(SlashCommand::NewSession))
            } else if keys::triggers(keymap, KeyAction::OpenCommandList, code, m) {
                &&& r is None
                &&& only_composer(pre, post)
                &&& post.composer@ == pre.composer@.placed("/"@)
            } else {
                keyed(pre, post, resolved(pre, code, m), m, r)
            },
        }
    }
}

/// Submits the composer's text: a command where it names one, else a prompt.
fn submit(state: &mut AppState) -> (r: Option<ChatSubmission>)
    requires
        old(state).wf(),
    ensures
        final(state).wf(),
        submits(*old(state), *final(state), r),
{
    let typed: String = state.composer.chat_input.clone();
    let whole: String = trim(typed.as_str());
    if whole.as_str().is_empty() {
        return None;
    }
    let offered: Vec<(String, String)> = slash_suggestions(
        typed.as_str(),
        &state.custom_commands,
    );
    if offered.len() > 0 {
        let row: usize = if state.composer.suggestion_selected < offered.len() {
            state.composer.suggestion_selected
        } else {
            offered.len() - 1
        };
        let name: String = offered[row].0.clone();
        assert(commands::pairs(offered@)[row as int].0 == name@);
        match resolve_slash_command(name.as_str()) {
            Some(command) => {
                state.composer.clear_chat_input();
                return Some(ChatSubmission::Command(command));
            },
            None => {},
        }
        match resolve_custom_command(&state.custom_commands, name.as_str()) {
            Some(i) => {
                proof {
                    reveal_strlit("");
                    assert(""@ =~= Seq::<char>::empty());
                }
                let body: String = expand_custom_command(
                    state.custom_commands[i].body.as_str(),
                    "",
                );
                state.composer.clear_chat_input();
                return Some(ChatSubmission::Prompt(body));
            },
            None => {},
        }
    } else {
        match split_at_white(whole.as_str()) {
            Some((name, arguments)) => {
                let argument: String = trim(arguments.as_str());
                match command_with(name.as_str(), argument.clone()) {
                    Some(command) => {
                        state.composer.clear_chat_input();
                        return Some(ChatSubmission::Command(command));
                    },
                    None => {},
                }
                match resolve_custom_command(&state.custom_commands, name.as_str()) {
                    Some(i) => {
                        let body: String = expand_custom_command(
                            state.custom_commands[i].body.as_str(),
                            argument.as_str(),
                        );
                        state.composer.clear_chat_input();
                        return Some(ChatSubmission::Prompt(body));
                    },
                    None => {},
                }
            },
            None => {},
        }
    }
    state.composer.chat_input = String::new();
    state.composer.cursor = 0;
    if state.debug.next_question.is_some() {
        return Some(ChatSubmission::DebugAnswer(typed));
    }
    state.composer.remember_prompt(typed.as_str());
    if state.transcript.activity.is_some() {
        state.transcript.queued = Some(typed);
        return None;
    }
    Some(ChatSubmission::Prompt(typed))
}

/// Applies a key that only edits the composer.
fn edit(c: &mut Composer, code: KeyCode, m: KeyModifiers, custom_commands: &Vec<CustomCommand>)
    requires
        old(c).wf(),
    ensures
        final(c).wf(),
        final(c)@ == edited(
            old(c)@,
            code,
            m,
            commands::suggestions(old(c).chat_input@, custom_commands@),
        ),
{
    let offered: Vec<(String, String)> = slash_suggestions(c.chat_input.as_str(), custom_commands);
    let count: usize = offered.len();
    match code {
        KeyCode::Up => {
            if count > 0 {
                c.suggestion_selected = c.suggestion_selected.saturating_sub(1);
            } else {
                let lines: Vec<String> = split(c.chat_input.as_str(), '\n');
                let (line, _) = composer::cursor_line_col(&lines, c.cursor);
                if line == 0 {
                    c.recall_previous_prompt();
                } else {
                    c.move_cursor_vertical(false);
                }
            }
        },
        KeyCode::Down => {
            if count > 0 {
                c.suggestion_selected = if c.suggestion_selected + 1 < count {
                    c.suggestion_selected + 1
                } else {
                    count - 1
                };
            } else {
                let lines: Vec<String> = split(c.chat_input.as_str(), '\n');
                let (line, _) = composer::cursor_line_col(&lines, c.cursor);
                if line == lines.len() - 1 {
                    c.recall_next_prompt();
                } else {
                    c.move_cursor_vertical(true);
                }
            }
        },
        KeyCode::Left => c.move_cursor_left(),
        KeyCode::Right => c.move_cursor_right(),
        KeyCode::Tab => c.autocomplete(custom_commands),
        KeyCode::Enter => {
            if m.alt || m.shift {
                c.insert_at_cursor("\n");
            }
        },
        KeyCode::Char(character) => {
            if (character == 'j' || character == 'J') && m.control {
                c.insert_at_cursor("\n");
            } else if !m.control && !m.alt {
                let mut typed: String = String::new();
                typed.push(character);
                assert(typed@ =~= seq![character]);
                c.insert_at_cursor(typed.as_str());
            }
        },
        KeyCode::Backspace => c.backspace_at_cursor(),
        _ => {},
    }
}

/// Applies a key once shortcuts have been resolved.
fn apply_key(state: &mut AppState, code: KeyCode, m: KeyModifiers) -> (r: Option<ChatSubmission>)
    requires
        old(state).wf(),
    ensures
        final(state).wf(),
        keyed(*old(state), *final(state), code, m, r),
{
    if code == KeyCode::Char('o') && m.control {
        state.toggle_last_tool_output();
    } else if code == KeyCode::Char('r') && m.control {
        let failed: Option<String> = state.transcript.last_failed_prompt.take();
        match failed {
            Some(prompt) => state.composer.set_chat_input(prompt),
            None => {},
        }
    } else if code == KeyCode::PageUp {
        state.scroll_up();
    } else if code == KeyCode::PageDown || code == KeyCode::End {
        state.scroll_down();
    } else if code == KeyCode::Enter && !m.alt && !m.shift {
        return submit(state);
    } else {
        edit(&mut state.composer, code, m, &state.custom_commands);
    }
    None
}

/// Applies text input, navigation, and control keys to the chat composer.
///
/// Returns a submission on Enter: a prompt for the model, or a recognized slash command.
#[must_use]
pub fn handle_chat_event(state: &mut AppState, event: &Event) -> (r: Option<ChatSubmission>)
    requires
        old(state).wf(),
    ensures
        final(state).wf(),
        chats(*old(state), *final(state), *event, r),
{
    if !state.composing() {
        return None;
    }
    match event {
        Event::Paste(pasted) => {
            state.composer.insert_at_cursor(pasted.as_str());
            return None;
        },
        _ => {},
    }
    let (code, m) = match input::key_press(event) {
        Some(press) => press,
        None => {
            return None;
        },
    };
    if key_action_matches(&state.preferences, KeyAction::OpenHelp, code, m) {
        return Some(ChatSubmission::Command(SlashCommand::Help));
    }
    if key_action_matches(&state.preferences, KeyAction::OpenModelPicker, code, m) {
        return Some(ChatSubmission::Command(SlashCommand::Model));
    }
    if key_action_matches(&state.preferences, KeyAction::NewConversation, code, m) {
        return Some(ChatSubmission::Command(SlashCommand::NewSession));
    }
    if key_action_matches(&state.preferences, KeyAction::OpenCommandList, code, m) {
        state.composer.set_chat_input("/".to_owned());
        return None;
    }
    let key: KeyCode = if key_action_matches(&state.preferences, KeyAction::SendMessage, code, m) {
        KeyCode::Enter
    } else if key_action_matches(&state.preferences, KeyAction::HistoryPrevious, code, m) {
        KeyCode::Up
    } else if key_action_matches(&state.preferences, KeyAction::HistoryNext, code, m) {
        KeyCode::Down
    } else {
        code
    };
    apply_key(state, key, m)
}

// ---------------------------------------------------------------------------------------------
// What Enter submits
// ---------------------------------------------------------------------------------------------

/// Whether an event is Enter, alone, in a chat that takes keys, and bound to nothing else.
pub open spec fn is_enter(pre: AppState, event: Event) -> bool {
    &&& pre.is_composing()
    &&& event matches Event::Key(key) && key.kind == input::KeyEventKind::Press && key.code
        == KeyCode::Enter && !key.modifiers.alt && !key.modifiers.shift && forall|action: KeyAction|
        !#[trigger] keys::triggers(
            pre.preferences.keymap@,
            action,
            KeyCode::Enter,
            key.modifiers,
        )
}

proof fn lemma_enter(pre: AppState, post: AppState, event: Event, r: Option<ChatSubmission>)
    requires
        is_enter(pre, event),
        chats(pre, post, event, r),
    ensures
        submits(pre, post, r),
{
}

/// No built-in command has a blank in its name.
proof fn lemma_builtins_have_no_blank(row: int, i: int)
    requires
        0 <= row < commands::BUILTIN_COUNT,
        0 <= i < commands::builtin_name(row).len(),
    ensures
        commands::builtin_name(row)[i] != ' ',
{
    reveal_strlit("/keymap");
    reveal_strlit("/theme");
    reveal_strlit("/personality");
    reveal_strlit("/model");
    reveal_strlit("/effort");
    reveal_strlit("/settings");
    reveal_strlit("/provider");
    reveal_strlit("/status");
    reveal_strlit("/clear");
    reveal_strlit("/compact");
    reveal_strlit("/autocompact");
    reveal_strlit("/new");
    reveal_strlit("/resume");
    reveal_strlit("/fork");
    reveal_strlit("/help");
    reveal_strlit("/init");
    reveal_strlit("/skills");
    reveal_strlit("/mcp");
    reveal_strlit("/plan");
    reveal_strlit("/review");
    reveal_strlit("/worktree");
    reveal_strlit("/undo");
    reveal_strlit("/redo");
    reveal_strlit("/debug");
    reveal_strlit("/agent");
    reveal_strlit("/agents");
    reveal_strlit("/exit");
    reveal_strlit("/quit");
}

proof fn lemma_no_builtin_offered(typed: Seq<char>, n: nat)
    requires
        n <= commands::BUILTIN_COUNT,
        forall|row: int|
            0 <= row < n ==> !typed.is_prefix_of(#[trigger] commands::builtin_name(row)),
    ensures
        commands::builtin_suggestions(typed, n).len() == 0,
    decreases n,
{
    if n > 0 {
        lemma_no_builtin_offered(typed, (n - 1) as nat);
        assert(!typed.is_prefix_of(commands::builtin_name(n - 1)));
    }
}

proof fn lemma_no_custom_offered(typed: Seq<char>, customs: Seq<CustomCommand>)
    requires
        forall|j: int|
            0 <= j < customs.len() ==> !typed.is_prefix_of(
                seq!['/'] + (#[trigger] customs[j]).name@,
            ),
    ensures
        commands::custom_suggestions(typed, customs).len() == 0,
    decreases customs.len(),
{
    if customs.len() > 0 {
        reveal_strlit("/");
        assert("/"@ =~= seq!['/']);
        let some = customs.drop_last();
        assert forall|j: int| 0 <= j < some.len() implies !typed.is_prefix_of(
            seq!['/'] + (#[trigger] some[j]).name@,
        ) by {
            assert(some[j] == customs[j]);
        }
        lemma_no_custom_offered(typed, some);
        assert(!typed.is_prefix_of(seq!['/'] + customs[customs.len() - 1].name@));
    }
}

proof fn lemma_custom_row(customs: Seq<CustomCommand>, name: Seq<char>, i: int, from: int)
    requires
        0 <= from <= i <= customs.len(),
        i < customs.len() ==> customs[i].name@ == name,
        forall|j: int| 0 <= j < i ==> (#[trigger] customs[j]).name@ != name,
    ensures
        commands::custom_row(customs, seq!['/'] + name, from) == (if i < customs.len() {
            i
        } else {
            -1
        }),
    decreases i - from,
{
    reveal_strlit("/");
    assert("/"@ =~= seq!['/']);
    if from < i {
        assert(customs[from].name@ != name);
        let own = seq!['/'] + customs[from].name@;
        assert(own.skip(1) =~= customs[from].name@);
        assert((seq!['/'] + name).skip(1) =~= name);
        lemma_custom_row(customs, name, i, from + 1);
    }
}

/// What a command's name with a text behind it asks for, before it is known which command it is.
proof fn lemma_name_and_argument(
    typed: Seq<char>,
    selected: int,
    customs: Seq<CustomCommand>,
    name: Seq<char>,
    argument: Seq<char>,
)
    requires
        typed == seq!['/'] + name + seq![' '] + argument,
        text_laws::no_white(name),
        text_laws::is_tight(argument),
        argument.len() > 0,
        forall|j: int|
            0 <= j < customs.len() ==> !typed.is_prefix_of(
                seq!['/'] + (#[trigger] customs[j]).name@,
            ),
    ensures
        asked(typed, selected, customs) == ({
            let custom = commands::custom_row(customs, seq!['/'] + name, 0);
            if takes_argument(seq!['/'] + name) {
                Asks::WithText(seq!['/'] + name, argument)
            } else if custom >= 0 {
                Asks::Expansion(commands::expansion(customs[custom].body@, argument))
            } else {
                Asks::Plain
            }
        }),
{
    let e = Seq::<char>::empty();
    let head = seq!['/'] + name;
    text_laws::law_trimming_takes_the_white_space_around(e, typed, e);
    assert(typed.last() == argument.last());
    assert(e + typed + e =~= typed);
    text_laws::law_trimming_takes_the_white_space_around(e, argument, e);
    assert(e + argument + e =~= argument);
    assert(text_laws::no_white(head)) by {
        assert forall|i: int| 0 <= i < head.len() implies !text::is_white_space(
            #[trigger] head[i],
        ) by {
            if i > 0 {
                assert(head[i] == name[i - 1]);
            }
        }
    }
    text_laws::law_the_first_white_space_ends_the_first_word(head, ' ', argument);
    assert(typed.take(head.len() as int) =~= head);
    assert(typed.skip(head.len() as int + 1) =~= argument);
    assert forall|row: int| 0 <= row < commands::BUILTIN_COUNT implies !typed.is_prefix_of(
        #[trigger] commands::builtin_name(row),
    ) by {
        let own = commands::builtin_name(row);
        if typed.is_prefix_of(own) {
            assert(own.subrange(0, typed.len() as int)[head.len() as int] == ' ');
            lemma_builtins_have_no_blank(row, head.len() as int);
        }
    }
    lemma_no_builtin_offered(typed, commands::BUILTIN_COUNT as nat);
    lemma_no_custom_offered(typed, customs);
}

/// Enter on a custom command's name and a text behind it submits the command's body with the whole text
/// in the place of `$ARGUMENTS`, blanks and all, and empties the composer.
pub proof fn law_a_custom_command_gets_all_that_is_typed(
    pre: AppState,
    post: AppState,
    event: Event,
    r: Option<ChatSubmission>,
    i: int,
    name: Seq<char>,
    argument: Seq<char>,
    before: Seq<char>,
    after: Seq<char>,
)
    requires
        is_enter(pre, event),
        chats(pre, post, event, r),
        pre.composer.chat_input@ == seq!['/'] + name + seq![' '] + argument,
        text_laws::no_white(name),
        text_laws::is_tight(argument),
        argument.len() > 0,
        0 <= i < pre.custom_commands@.len(),
        pre.custom_commands@[i].name@ == name,
        forall|j: int| 0 <= j < i ==> (#[trigger] pre.custom_commands@[j]).name@ != name,
        forall|j: int|
            0 <= j < pre.custom_commands@.len() ==> !pre.composer.chat_input@.is_prefix_of(
                seq!['/'] + (#[trigger] pre.custom_commands@[j]).name@,
            ),
        name != "review"@ && name != "worktree"@ && name != "undo"@ && name != "redo"@ && name
            != "debug"@ && name != "agent"@ && name != "keymap"@ && name != "theme"@ && name
            != "personality"@,
        pre.custom_commands@[i].body@ == before + "$ARGUMENTS"@ + after,
        forall|k: int|
            0 <= k < before.len() ==> !text::occurs_at(
                pre.custom_commands@[i].body@,
                "$ARGUMENTS"@,
                k,
            ),
        !text::contains_text(after, "$ARGUMENTS"@),
    ensures
        r matches Some(ChatSubmission::Prompt(prompt)) && prompt@ == before + argument + after,
        post.composer.chat_input@.len() == 0,
        post == (AppState { composer: post.composer, ..pre }),
{
    lemma_enter(pre, post, event, r);
    reveal_strlit("$ARGUMENTS");
    let typed = pre.composer.chat_input@;
    let customs = pre.custom_commands@;
    lemma_name_and_argument(
        typed,
        pre.composer.suggestion_selected as int,
        customs,
        name,
        argument,
    );
    lemma_custom_row(customs, name, i, 0);
    lemma_other_name(name);
    text_laws::law_replacing_puts_a_text_in_each_place(before, "$ARGUMENTS"@, after, argument);
    assert(post.composer@.text.len() == 0);
}

proof fn lemma_other_name(name: Seq<char>)
    requires
        name != "review"@ && name != "worktree"@ && name != "undo"@ && name != "redo"@ && name
            != "debug"@ && name != "agent"@ && name != "keymap"@ && name != "theme"@ && name
            != "personality"@,
    ensures
        !takes_argument(seq!['/'] + name),
{
    let own = seq!['/'] + name;
    assert(own.skip(1) =~= name);
    reveal_strlit("/review");
    reveal_strlit("/worktree");
    reveal_strlit("/undo");
    reveal_strlit("/redo");
    reveal_strlit("/debug");
    reveal_strlit("/agent");
    reveal_strlit("/keymap");
    reveal_strlit("/theme");
    reveal_strlit("/personality");
    reveal_strlit("review");
    reveal_strlit("worktree");
    reveal_strlit("undo");
    reveal_strlit("redo");
    reveal_strlit("debug");
    reveal_strlit("agent");
    reveal_strlit("keymap");
    reveal_strlit("theme");
    reveal_strlit("personality");
    assert("/review"@.skip(1) =~= "review"@);
    assert("/worktree"@.skip(1) =~= "worktree"@);
    assert("/undo"@.skip(1) =~= "undo"@);
    assert("/redo"@.skip(1) =~= "redo"@);
    assert("/debug"@.skip(1) =~= "debug"@);
    assert("/agent"@.skip(1) =~= "agent"@);
    assert("/keymap"@.skip(1) =~= "keymap"@);
    assert("/theme"@.skip(1) =~= "theme"@);
    assert("/personality"@.skip(1) =~= "personality"@);
}

/// Enter on the name of one of the nine commands that take a text, with a text behind it, submits that
/// command with the whole text, and empties the composer.
pub proof fn law_a_command_gets_all_that_is_typed(
    pre: AppState,
    post: AppState,
    event: Event,
    r: Option<ChatSubmission>,
    name: Seq<char>,
    argument: Seq<char>,
)
    requires
        is_enter(pre, event),
        chats(pre, post, event, r),
        pre.composer.chat_input@ == seq!['/'] + name + seq![' '] + argument,
        text_laws::no_white(name),
        text_laws::is_tight(argument),
        argument.len() > 0,
        forall|j: int|
            0 <= j < pre.custom_commands@.len() ==> !pre.composer.chat_input@.is_prefix_of(
                seq!['/'] + (#[trigger] pre.custom_commands@[j]).name@,
            ),
    ensures
        name == "review"@ ==> (r matches Some(
            ChatSubmission::Command(SlashCommand::Review(t)),
        ) && t@ == argument),
        name == "worktree"@ ==> (r matches Some(
            ChatSubmission::Command(SlashCommand::Worktree(t)),
        ) && t@ == argument),
        name == "undo"@ ==> (r matches Some(ChatSubmission::Command(SlashCommand::Undo(t))) && t@
            == argument),
        name == "redo"@ ==> (r matches Some(ChatSubmission::Command(SlashCommand::Redo(t))) && t@
            == argument),
        name == "debug"@ ==> (r matches Some(ChatSubmission::Command(SlashCommand::Debug(t)))
            && t@ == argument),
        name == "agent"@ ==> (r matches Some(ChatSubmission::Command(SlashCommand::Agent(t)))
            && t@ == argument),
        name == "keymap"@ ==> (r matches Some(ChatSubmission::Command(SlashCommand::Keymap(t)))
            && t@ == argument),
        name == "theme"@ ==> (r matches Some(ChatSubmission::Command(SlashCommand::Theme(t)))
            && t@ == argument),
        name == "personality"@ ==> (r matches Some(
            ChatSubmission::Command(SlashCommand::Personality(t)),
        ) && t@ == argument),
{
    lemma_enter(pre, post, event, r);
    lemma_name_and_argument(
        pre.composer.chat_input@,
        pre.composer.suggestion_selected as int,
        pre.custom_commands@,
        name,
        argument,
    );
    let own = seq!['/'] + name;
    reveal_strlit("/review");
    reveal_strlit("/worktree");
    reveal_strlit("/undo");
    reveal_strlit("/redo");
    reveal_strlit("/debug");
    reveal_strlit("/agent");
    reveal_strlit("/keymap");
    reveal_strlit("/theme");
    reveal_strlit("/personality");
    reveal_strlit("review");
    reveal_strlit("worktree");
    reveal_strlit("undo");
    reveal_strlit("redo");
    reveal_strlit("debug");
    reveal_strlit("agent");
    reveal_strlit("keymap");
    reveal_strlit("theme");
    reveal_strlit("personality");
    assert(seq!['/'] + "review"@ =~= "/review"@);
    assert(seq!['/'] + "worktree"@ =~= "/worktree"@);
    assert(seq!['/'] + "undo"@ =~= "/undo"@);
    assert(seq!['/'] + "redo"@ =~= "/redo"@);
    assert(seq!['/'] + "debug"@ =~= "/debug"@);
    assert(seq!['/'] + "agent"@ =~= "/agent"@);
    assert(seq!['/'] + "keymap"@ =~= "/keymap"@);
    assert(seq!['/'] + "theme"@ =~= "/theme"@);
    assert(seq!['/'] + "personality"@ =~= "/personality"@);
    assert("/review"@[1] == 'r' && "/review"@[3] == 'v' && "/redo"@[3] == 'd');
    assert("/worktree"@[1] == 'w' && "/undo"@[1] == 'u' && "/debug"@[1] == 'd' && "/agent"@[1]
        == 'a' && "/keymap"@[1] == 'k' && "/theme"@[1] == 't' && "/personality"@[1] == 'p');
}

/// Enter on a text that begins with no slash submits it as it is typed, white space around it included,
/// and remembers it: as the answer to a debugging question where one is open, at once where nothing is
/// running, and after the run where something is. Enter on nothing but white space does nothing.
pub proof fn law_a_prompt_is_submitted_as_typed(
    pre: AppState,
    post: AppState,
    event: Event,
    r: Option<ChatSubmission>,
    left: Seq<char>,
    core: Seq<char>,
    right: Seq<char>,
)
    requires
        is_enter(pre, event),
        chats(pre, post, event, r),
        pre.composer.chat_input@ == left + core + right,
        text_laws::all_white(left),
        text_laws::all_white(right),
        text_laws::is_tight(core),
        core.len() > 0 ==> core[0] != '/',
    ensures
        core.len() == 0 ==> r is None && post == pre,
        core.len() > 0 ==> post.composer.chat_input@.len() == 0,
        core.len() > 0 && pre.debug.next_question is Some ==> r == Some(
            ChatSubmission::DebugAnswer(pre.composer.chat_input),
        ),
        core.len() > 0 && pre.debug.next_question is None && pre.transcript.activity is None ==> r
            == Some(ChatSubmission::Prompt(pre.composer.chat_input)) && post.transcript
            == pre.transcript,
        core.len() > 0 && pre.debug.next_question is None && pre.transcript.activity is Some ==> r
            is None && post.transcript.queued == Some(pre.composer.chat_input),
{
    lemma_enter(pre, post, event, r);
    let typed = pre.composer.chat_input@;
    text_laws::law_trimming_takes_the_white_space_around(left, core, right);
    if core.len() > 0 {
        assert(typed[0] != '/') by {
            if left.len() > 0 {
                assert(typed[0] == left[0]);
            } else {
                assert(typed[0] == core[0]);
            }
        }
        let cut = text::first_white(core, 0);
        lemma_first_white_bounds(core, 0);
        assert(cut > 0);
        let name = core.take(cut);
        if cut < core.len() {
            assert(name[0] == core[0]);
            reveal_strlit("/review");
            reveal_strlit("/worktree");
            reveal_strlit("/undo");
            reveal_strlit("/redo");
            reveal_strlit("/debug");
            reveal_strlit("/agent");
            reveal_strlit("/keymap");
            reveal_strlit("/theme");
            reveal_strlit("/personality");
            assert(!takes_argument(name));
            lemma_no_custom_row(pre.custom_commands@, name, 0);
        }
        assert(post.composer@.text.len() == 0);
    }
}

proof fn lemma_first_white_bounds(s: Seq<char>, from: int)
    requires
        0 <= from <= s.len(),
    ensures
        from <= text::first_white(s, from) <= s.len(),
        from < s.len() && !text::is_white_space(s[from]) ==> text::first_white(s, from) > from,
    decreases s.len() - from,
{
    if from < s.len() && !text::is_white_space(s[from]) {
        lemma_first_white_bounds(s, from + 1);
    }
}

proof fn lemma_no_custom_row(customs: Seq<CustomCommand>, name: Seq<char>, from: int)
    requires
        name.len() > 0 ==> name[0] != '/',
        0 <= from,
    ensures
        commands::custom_row(customs, name, from) == -1,
    decreases customs.len() - from,
{
    if from < customs.len() {
        reveal_strlit("/");
        assert(commands::custom_name(customs[from])[0] == '/');
        lemma_no_custom_row(customs, name, from + 1);
    }
}

/// A plain key types its character where the cursor stands, one with Control or Alt does not. Ctrl+J,
/// Alt+Enter and Shift+Enter begin a new line. The arrows to the sides move the cursor by one
/// character and undo each other.
pub proof fn law_keys_edit_the_text(
    v: ComposerView,
    before: Seq<char>,
    behind: Seq<char>,
    c: char,
    m: KeyModifiers,
    offered: Seq<(Seq<char>, Seq<char>)>,
)
    requires
        v.text == before + behind,
        v.cursor == before.len(),
    ensures
        !m.control && !m.alt ==> edited(v, KeyCode::Char(c), m, offered).text == before.push(c)
            + behind && edited(v, KeyCode::Char(c), m, offered).cursor == before.len() + 1,
        m.control && c != 'j' && c != 'J' ==> edited(v, KeyCode::Char(c), m, offered) == v,
        m.alt && !m.control ==> edited(v, KeyCode::Char(c), m, offered) == v,
        m.control ==> edited(v, KeyCode::Char('j'), m, offered).text == before.push('\n') + behind,
        m.alt || m.shift ==> edited(v, KeyCode::Enter, m, offered).text == before.push('\n')
            + behind,
        behind.len() > 0 ==> edited(v, KeyCode::Right, m, offered).cursor == before.len() + 1
            && edited(edited(v, KeyCode::Right, m, offered), KeyCode::Left, m, offered) == v,
        behind.len() == 0 ==> edited(v, KeyCode::Right, m, offered) == v,
        before.len() == 0 ==> edited(v, KeyCode::Left, m, offered) == v && edited(
            v,
            KeyCode::Backspace,
            m,
            offered,
        ) == v,
        before.len() > 0 ==> edited(v, KeyCode::Left, m, offered).cursor == before.len() - 1
            && edited(v, KeyCode::Backspace, m, offered).text == before.drop_last() + behind,
{
    reveal_strlit("\n");
    assert("\n"@ =~= seq!['\n']);
    assert(v.text.take(v.cursor) =~= before);
    assert(v.text.skip(v.cursor) =~= behind);
    assert(before + seq![c] + behind =~= before.push(c) + behind);
    assert(before + seq!['\n'] + behind =~= before.push('\n') + behind);
    if before.len() > 0 {
        assert(v.text.take(v.cursor - 1) =~= before.drop_last());
    }
}

/// Where suggestions are offered, the arrows up and down select one of them and Tab takes it;
/// elsewhere, in a text of one line, they go through the prompts remembered.
pub proof fn law_arrows_select_or_recall(
    v: ComposerView,
    m: KeyModifiers,
    offered: Seq<(Seq<char>, Seq<char>)>,
)
    requires
        0 <= v.suggestion,
        0 <= v.cursor <= v.text.len(),
    ensures
        v.suggestion + 1 < offered.len() ==> edited(v, KeyCode::Down, m, offered).suggestion
            == v.suggestion + 1 && edited(
            edited(v, KeyCode::Down, m, offered),
            KeyCode::Up,
            m,
            offered,
        ) == v && edited(edited(v, KeyCode::Down, m, offered), KeyCode::Tab, m, offered).text
            == offered[v.suggestion + 1].0,
        v.suggestion < offered.len() ==> edited(v, KeyCode::Tab, m, offered).text
            == offered[v.suggestion].0,
        offered.len() == 0 && text_laws::lacks(v.text, '\n') && v.browsing is None
            && v.history.len() > 0 ==> edited(v, KeyCode::Up, m, offered).text == v.history.last(),
        offered.len() == 0 && text_laws::lacks(v.text, '\n') && v.browsing is None ==> edited(
            v,
            KeyCode::Down,
            m,
            offered,
        ) == v,
        offered.len() == 0 ==> edited(v, KeyCode::Tab, m, offered) == v,
{
    if text_laws::lacks(v.text, '\n') {
        text_laws::lemma_split_lacking(v.text, '\n');
    }
}

/// A page up and a page down undo each other; a page is five rows. Control and R put the prompt back
/// that failed last.
pub proof fn law_pages_undo_each_other(
    a: AppState,
    b: AppState,
    c: AppState,
    m: KeyModifiers,
    r1: Option<ChatSubmission>,
    r2: Option<ChatSubmission>,
)
    ensures
        a.transcript.scroll <= usize::MAX - 5 && keyed(a, b, KeyCode::PageUp, m, r1) && keyed(
            b,
            c,
            KeyCode::PageDown,
            m,
            r2,
        ) ==> b.transcript.scroll == a.transcript.scroll + 5 && c == a,
        m.control && a.transcript.last_failed_prompt is Some && keyed(
            a,
            b,
            KeyCode::Char('r'),
            m,
            r1,
        ) ==> b.composer@.text == a.transcript.last_failed_prompt->0@
            && b.transcript.last_failed_prompt is None,
{
}

} // verus!
