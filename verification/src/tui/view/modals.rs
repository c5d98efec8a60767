//! The prompts that stand over the chat, and the copy notification.

use vstd::prelude::*;

use crate::protocol::{ConflictingFile, GuidedChoice, GuidedQuestion};
use crate::text;
use crate::text_laws;
use crate::text::{cat2, cat3, cat5, join, lines, number};
use crate::tui::layout;
use crate::tui::layout::{Rect, COPY_NOTIFICATION_MARGIN};
use crate::tui::notes;
use crate::tui::prompts;
use crate::tui::prompts::is_all_resolved;
use crate::tui::state::{
    ConflictFileState, ConflictResolution, PendingAgentConfirm, PendingAgentConflict,
    PendingUndoConflict, PermissionPrompt, UpdatePrompt, UpdateStage,
};
use crate::tui::view::popups;
use crate::tui::view::popups::abbreviate;
use crate::tui::view::screens;
use crate::tui::view::screens::pointer_of;

verus! {

/// What a permission prompt shows.
pub open spec fn permission(prompt: PermissionPrompt) -> Seq<char> {
    "O agente quer executar:\n"@ + prompt.summary@ + "\nEm: "@ + prompt.working_directory@
        + "\n\nPermitir uma vez\n  Executa somente esta ação.\n\nPermitir sempre: "@
        + prompt.scope_label@
        + "\n  Não pergunta novamente para esta categoria nesta sessão.\n\nNão permitir\n  Cancela esta ação; o agente procura outra alternativa.\n\n[1] Uma vez   [2] Sempre   [3] Não permitir"@
}

/// The text of a permission prompt.
pub fn permission_text(prompt: &PermissionPrompt) -> (r: String)
    ensures
        r@ == permission(*prompt),
{
    let mut r: String = cat5(
        "O agente quer executar:\n",
        prompt.summary.as_str(),
        "\nEm: ",
        prompt.working_directory.as_str(),
        "\n\nPermitir uma vez\n  Executa somente esta ação.\n\nPermitir sempre: ",
    );
    r.append(prompt.scope_label.as_str());
    r.append(
        "\n  Não pergunta novamente para esta categoria nesta sessão.\n\nNão permitir\n  Cancela esta ação; o agente procura outra alternativa.\n\n[1] Uma vez   [2] Sempre   [3] Não permitir",
    );
    r
}

/// One choice of a question, by its number.
pub open spec fn choice_lines(choice: GuidedChoice, row: int, selected: bool) -> Seq<char> {
    "\n\n"@ + (if selected {
        "›"@
    } else {
        " "@
    }) + " "@ + text::decimal((row + 1) as nat) + ". "@ + choice.label@ + (if choice.recommended {
        " (recomendado)"@
    } else {
        ""@
    }) + "\n  "@ + choice.summary@ + "\n  + "@ + choice.advantages@ + "\n  − "@
        + choice.disadvantages@
}

/// The first `n` choices of a question, after its context.
pub open spec fn question_lines(q: GuidedQuestion, selected: int, n: int) -> Seq<char>
    decreases n,
{
    if n <= 0 {
        q.context@
    } else {
        question_lines(q, selected, n - 1) + choice_lines(
            q.choices@[n - 1],
            n - 1,
            n - 1 == selected,
        )
    }
}

/// What a question shows.
pub open spec fn question(q: GuidedQuestion, selected: int) -> Seq<char> {
    question_lines(q, selected, q.choices@.len() as int)
        + "\n\n↑↓ navega  •  Enter confirma  •  Esc cancela"@
}

fn format_choice(choice: &GuidedChoice, row: usize, selected: bool) -> (r: String)
    requires
        row < usize::MAX,
    ensures
        r@ == choice_lines(*choice, row as int, selected),
{
    let marker: &str = if selected {
        "›"
    } else {
        " "
    };
    let recommended: &str = if choice.recommended {
        " (recomendado)"
    } else {
        ""
    };
    let n: String = number((row + 1) as u64);
    let mut r: String = cat5("\n\n", marker, " ", n.as_str(), ". ");
    r.append(choice.label.as_str());
    r.append(recommended);
    r.append("\n  ");
    r.append(choice.summary.as_str());
    r.append("\n  + ");
    r.append(choice.advantages.as_str());
    r.append("\n  − ");
    r.append(choice.disadvantages.as_str());
    r
}

/// The text of a question.
pub fn guided_question_text(q: &GuidedQuestion, selected: usize) -> (r: String)
    ensures
        r@ == question(*q, selected as int),
{
    let mut r: String = q.context.clone();
    let mut i: usize = 0;
    while i < q.choices.len()
        invariant
            i <= q.choices@.len(),
            r@ == question_lines(*q, selected as int, i as int),
        decreases q.choices@.len() - i,
    {
        let line: String = format_choice(&q.choices[i], i, i == selected);
        r.append(line.as_str());
        i = i + 1;
    }
    r.append("\n\n↑↓ navega  •  Enter confirma  •  Esc cancela");
    r
}

/// The height of a question's popup: five rows per choice and five more, two less than the screen
/// at most.
pub fn guided_question_height(choices: usize, screen_height: u16) -> (r: u16)
    ensures
        r == layout::least(choices * 5 + 5, layout::left_over(screen_height as int, 2)),
{
    let room: u16 = screen_height.saturating_sub(2);
    if choices >= 13107 {
        return room;
    }
    let wanted: u32 = choices as u32 * 5 + 5;
    if wanted < room as u32 {
        wanted as u16
    } else {
        room
    }
}

/// The text of a worktree removal.
pub fn worktree_removal_text(target: &str) -> (r: String)
    ensures
        r@ == "Remove worktree '"@ + target@
            + "'?\n\nThis runs `git worktree remove` (no --force); git refuses if it has uncommitted changes.\n\n[y] Remove   [n] Cancel"@,
{
    cat3(
        "Remove worktree '",
        target,
        "'?\n\nThis runs `git worktree remove` (no --force); git refuses if it has uncommitted changes.\n\n[y] Remove   [n] Cancel",
    )
}

/// The title, text and height of a subagent confirmation.
pub open spec fn confirmation(prompt: PendingAgentConfirm) -> (Seq<char>, Seq<char>, u16) {
    match prompt {
        PendingAgentConfirm::Apply { id, diff } => (
            "Apply subagent changes"@,
            "Merge subagent "@ + id@ + "'s branch into the current branch?\n\n"@ + diff@
                + "\n\n[y] Apply   [n] Cancel"@,
            18u16,
        ),
        PendingAgentConfirm::Cleanup { message, .. } => (
            "Confirm"@,
            message@ + "\n\n[y] Remove   [n] Cancel"@,
            9u16,
        ),
    }
}

/// The title, text and height of a subagent confirmation.
pub fn agent_confirm_text(prompt: &PendingAgentConfirm) -> (r: (&'static str, String, u16))
    ensures
        (r.0@, r.1@, r.2) == confirmation(*prompt),
{
    match prompt {
        PendingAgentConfirm::Apply { id, diff } => (
            "Apply subagent changes",
            cat5(
                "Merge subagent ",
                id.as_str(),
                "'s branch into the current branch?\n\n",
                diff.as_str(),
                "\n\n[y] Apply   [n] Cancel",
            ),
            18,
        ),
        PendingAgentConfirm::Cleanup { message, .. } => (
            "Confirm",
            cat2(message.as_str(), "\n\n[y] Remove   [n] Cancel"),
            9,
        ),
    }
}

/// One row of the conflict resolver: cursor, resolution, path.
pub open spec fn file_row(file: ConflictFileState, selected: bool) -> Seq<char> {
    screens::pointer(selected) + " "@ + (match file.resolution {
        None => "[ ]"@,
        Some(ConflictResolution::Ours) => "[ours]"@,
        Some(ConflictResolution::Theirs) => "[theirs]"@,
    }) + " "@ + file.path@
}

/// One row of the guided conflict resolver's file list.
pub fn conflict_file_row(file: &ConflictFileState, selected: bool) -> (r: String)
    ensures
        r@ == file_row(*file, selected),
{
    let status: &str = match file.resolution {
        None => "[ ]",
        Some(ConflictResolution::Ours) => "[ours]",
        Some(ConflictResolution::Theirs) => "[theirs]",
    };
    cat5(pointer_of(selected), " ", status, " ", file.path.as_str())
}

/// The heading of the conflict resolver.
pub fn agent_conflict_heading(prompt: &PendingAgentConflict) -> (r: String)
    ensures
        r@ == "Subagent "@ + popups::brief(prompt.id@)
            + "'s branch conflicts with the current branch on "@ + text::decimal(
            prompt.files@.len(),
        ) + " file(s).\nPick a side for each, then finish once every file is resolved."@,
{
    let id: String = abbreviate(prompt.id.as_str());
    let n: String = number(prompt.files.len() as u64);
    cat5(
        "Subagent ",
        id.as_str(),
        "'s branch conflicts with the current branch on ",
        n.as_str(),
        " file(s).\nPick a side for each, then finish once every file is resolved.",
    )
}

/// The rows of the conflict resolver.
pub open spec fn file_rows(p: PendingAgentConflict) -> Seq<Seq<char>> {
    Seq::new(p.files@.len(), |i: int| file_row(p.files@[i], i == p.selected))
}

/// The file list of the conflict resolver.
pub fn agent_conflict_text(p: &PendingAgentConflict) -> (r: String)
    ensures
        r@ == text::joined(file_rows(*p), "\n"@),
{
    let ghost all = file_rows(*p);
    let mut list: Vec<String> = Vec::new();
    let mut i: usize = 0;
    while i < p.files.len()
        invariant
            i <= p.files@.len(),
            all == file_rows(*p),
            list@.len() == i,
            forall|j: int| 0 <= j < i ==> (#[trigger] list@[j])@ == all[j],
        decreases p.files@.len() - i,
    {
        list.push(conflict_file_row(&p.files[i], i == p.selected));
        assert(list@[i as int]@ == all[i as int]);
        i = i + 1;
    }
    assert(text::texts(list@) =~= all);
    join(&list, "\n")
}

/// The footer of the conflict resolver: finishing is offered only once every file is resolved.
pub fn agent_conflict_footer(p: &PendingAgentConflict) -> (r: &'static str)
    ensures
        r@ == (if prompts::all_resolved(p.files@) {
            "[o] Keep ours   [t] Keep theirs   [Enter] Finish merge   [Esc] Abort merge"@
        } else {
            "[o] Keep ours   [t] Keep theirs   [Esc] Abort merge (resolve every file to finish)"@
        }),
{
    if is_all_resolved(&p.files) {
        "[o] Keep ours   [t] Keep theirs   [Enter] Finish merge   [Esc] Abort merge"
    } else {
        "[o] Keep ours   [t] Keep theirs   [Esc] Abort merge (resolve every file to finish)"
    }
}

/// The height of the conflict resolver: a row per file and nine more.
pub fn agent_conflict_height(files: usize) -> (r: u16)
    ensures
        r == layout::least(files + 9, u16::MAX as int),
{
    if files < 65526 {
        files as u16 + 9
    } else {
        u16::MAX
    }
}

/// What a file held, or that it was not there.
pub open spec fn content_or_absent(content: Option<String>) -> Seq<char> {
    match content {
        Some(t) => t@,
        None => "(absent)"@,
    }
}

/// The differences of the first `n` conflicting files.
pub open spec fn conflict_diffs(files: Seq<ConflictingFile>, n: int) -> Seq<char>
    decreases n,
{
    if n <= 0 {
        "\n\n"@
    } else {
        let file = files[n - 1];
        conflict_diffs(files, n - 1) + "--- "@ + file.path@ + " (expected)\n"@ + content_or_absent(
            file.expected,
        ) + "\n+++ "@ + file.path@ + " (on disk)\n"@ + content_or_absent(file.actual) + "\n\n"@
    }
}

/// What an undo conflict shows.
pub open spec fn undo_conflict(p: PendingUndoConflict) -> Seq<char> {
    (if notes::is_redo(p.direction@) {
        "Redo"@
    } else {
        "Undo"@
    })
        + " stopped: the following file(s) changed since the agent's edit and would be overwritten:\n"@
        + notes::quoted_paths(p.conflicting_files@) + "\n\n[f] Force anyway   [d] "@ + (
    if p.show_diff {
        "Hide"@
    } else {
        "View"@
    }) + " diff   [c] Cancel"@ + (if p.show_diff {
        conflict_diffs(p.conflicting_files@, p.conflicting_files@.len() as int)
    } else {
        ""@
    })
}

fn format_content(content: &Option<String>) -> (r: String)
    ensures
        r@ == content_or_absent(*content),
{
    match content {
        Some(t) => t.clone(),
        None => "(absent)".to_owned(),
    }
}

fn format_diffs(files: &Vec<ConflictingFile>) -> (r: String)
    ensures
        r@ == conflict_diffs(files@, files@.len() as int),
{
    let mut r: String = "\n\n".to_owned();
    let mut i: usize = 0;
    while i < files.len()
        invariant
            i <= files@.len(),
            r@ == conflict_diffs(files@, i as int),
        decreases files@.len() - i,
    {
        let expected: String = format_content(&files[i].expected);
        let actual: String = format_content(&files[i].actual);
        r.append("--- ");
        r.append(files[i].path.as_str());
        r.append(" (expected)\n");
        r.append(expected.as_str());
        r.append("\n+++ ");
        r.append(files[i].path.as_str());
        r.append(" (on disk)\n");
        r.append(actual.as_str());
        r.append("\n\n");
        i = i + 1;
    }
    r
}

/// The text of an undo conflict.
pub fn undo_conflict_text(p: &PendingUndoConflict) -> (r: String)
    ensures
        r@ == undo_conflict(*p),
{
    let verb: &str = if text::same_text(p.direction.as_str(), "redo") {
        "Redo"
    } else {
        "Undo"
    };
    let paths: String = notes::format_quoted_paths(&p.conflicting_files);
    let action: &str = if p.show_diff {
        "Hide"
    } else {
        "View"
    };
    let diffs: String = if p.show_diff {
        format_diffs(&p.conflicting_files)
    } else {
        "".to_owned()
    };
    let mut r: String = cat5(
        verb,
        " stopped: the following file(s) changed since the agent's edit and would be overwritten:\n",
        paths.as_str(),
        "\n\n[f] Force anyway   [d] ",
        action,
    );
    r.append(" diff   [c] Cancel");
    r.append(diffs.as_str());
    r
}

/// The height of an undo conflict: twelve rows more while the differences are shown.
pub fn undo_conflict_height(show_diff: bool) -> (r: u16)
    ensures
        r == (if show_diff {
            21u16
        } else {
            9u16
        }),
{
    if show_diff {
        21
    } else {
        9
    }
}

/// The text of a blocking error.
pub fn blocking_error_text(message: &str) -> (r: String)
    ensures
        r@ == message@ + "\n\nPress Enter or Esc to continue."@,
{
    cat2(message, "\n\nPress Enter or Esc to continue.")
}

/// The first line of an update's release notes, which is what its prompt shows of them.
pub open spec fn headline(prompt: UpdatePrompt) -> Seq<char> {
    let all = text::lines_of(prompt.notes@);
    if all.len() > 0 {
        all[0]
    } else {
        Seq::empty()
    }
}

/// Reads the first line of an update's release notes.
pub fn update_headline(prompt: &UpdatePrompt) -> (r: String)
    ensures
        r@ == headline(*prompt),
{
    let all: Vec<String> = lines(prompt.notes.as_str());
    let ghost list = text::texts(all@);
    if all.len() > 0 {
        assert(list[0] == all@[0]@);
        all[0].clone()
    } else {
        String::new()
    }
}

/// The label of the download gauge.
pub fn download_label(percent: Option<u8>) -> (r: String)
    ensures
        r@ == (match percent {
            Some(p) => text::decimal(p as nat) + "%"@,
            None => "…"@,
        }),
{
    match percent {
        Some(p) => {
            let n: String = number(p as u64);
            cat2(n.as_str(), "%")
        },
        None => "…".to_owned(),
    }
}

/// The title of the update popup.
pub open spec fn update_title(prompt: UpdatePrompt) -> Seq<char> {
    match prompt.stage {
        UpdateStage::Prompt => "Gocode · Update available"@,
        UpdateStage::Downloading { .. } => "Gocode · Updating to "@ + prompt.version@,
        UpdateStage::Completed { .. } => "Gocode · Update completed"@,
        UpdateStage::Failed(_) => "Gocode · Update failed"@,
    }
}

/// The lines of the update popup, above its buttons or its gauge.
pub open spec fn update_body(prompt: UpdatePrompt) -> Seq<Seq<char>> {
    match prompt.stage {
        UpdateStage::Prompt => seq![
            "New update"@,
            ""@,
            prompt.current_version@ + "  ->  "@ + prompt.version@,
            ""@,
            headline(prompt),
            ""@,
        ],
        UpdateStage::Downloading { message, .. } => seq![message@],
        UpdateStage::Completed { message } => seq!["Completed"@, ""@, message@, ""@],
        UpdateStage::Failed(message) => seq!["Failed"@, ""@, message@, ""@],
    }
}

/// The title of the update popup and the lines above its buttons or its gauge.
pub fn update_lines(prompt: &UpdatePrompt) -> (r: (String, Vec<String>))
    ensures
        r.0@ == update_title(*prompt),
        text::texts(r.1@) == update_body(*prompt),
{
    let mut body: Vec<String> = Vec::new();
    let title: String = match &prompt.stage {
        UpdateStage::Prompt => {
            body.push("New update".to_owned());
            body.push("".to_owned());
            body.push(
                cat3(prompt.current_version.as_str(), "  ->  ", prompt.version.as_str()),
            );
            body.push("".to_owned());
            body.push(update_headline(prompt));
            body.push("".to_owned());
            "Gocode · Update available".to_owned()
        },
        UpdateStage::Downloading { message, .. } => {
            body.push(message.clone());
            cat2("Gocode · Updating to ", prompt.version.as_str())
        },
        UpdateStage::Completed { message } => {
            body.push("Completed".to_owned());
            body.push("".to_owned());
            body.push(message.clone());
            body.push("".to_owned());
            "Gocode · Update completed".to_owned()
        },
        UpdateStage::Failed(message) => {
            body.push("Failed".to_owned());
            body.push("".to_owned());
            body.push(message.clone());
            body.push("".to_owned());
            "Gocode · Update failed".to_owned()
        },
    };
    assert(text::texts(body@) =~= update_body(*prompt));
    (title, body)
}

/// Where the copy notification stands: at the right of the transcript's last content row, clear of
/// the border; nowhere when the transcript is too small for it.
pub open spec fn notification_area(width: int, history: Rect) -> Option<Rect> {
    let room = history.width - 2 - COPY_NOTIFICATION_MARGIN;
    let columns = layout::least(layout::least(width, u16::MAX as int), room);
    if history.height < 3 || history.width <= COPY_NOTIFICATION_MARGIN * 2 + 2 || columns == 0 {
        None
    } else {
        Some(
            Rect {
                x: (history.x + history.width - 1 - COPY_NOTIFICATION_MARGIN - columns) as u16,
                y: (history.y + history.height - 2) as u16,
                width: columns as u16,
                height: 1,
            },
        )
    }
}

/// Computes where the copy notification stands.
pub fn copy_notification_area(message: &str, history: Rect) -> (r: Option<Rect>)
    requires
        history.x + history.width <= u16::MAX,
        history.y + history.height <= u16::MAX,
    ensures
        r == notification_area(message@.len() as int, history),
{
    if history.height < 3 || history.width <= COPY_NOTIFICATION_MARGIN * 2 + 2 {
        return None;
    }
    let room: u16 = history.width - 2 - COPY_NOTIFICATION_MARGIN;
    let length: usize = message.unicode_len();
    let columns: u16 = if length < room as usize {
        length as u16
    } else {
        room
    };
    if columns == 0 {
        return None;
    }
    Some(
        Rect {
            x: history.x + history.width - 1 - COPY_NOTIFICATION_MARGIN - columns,
            y: history.y + history.height - 2,
            width: columns,
            height: 1,
        },
    )
}

/// The copy notification never touches the transcript's border.
pub proof fn law_notification_stays_inside(width: int, history: Rect)
    requires
        0 <= width,
        history.x + history.width <= u16::MAX,
        history.y + history.height <= u16::MAX,
        notification_area(width, history) is Some,
    ensures
        ({
            let area = notification_area(width, history)->Some_0;
            &&& history.x < area.x
            &&& area.x + area.width < history.x + history.width
            &&& history.y < area.y < history.y + history.height - 1
        }),
{
}

/// Of the notes of a release its prompt shows the first line, under the two versions.
pub proof fn law_an_update_shows_its_first_line(prompt: UpdatePrompt, noted: Seq<Seq<char>>)
    requires
        text_laws::are_lines(noted),
        noted.len() > 0,
        prompt.notes@ == text_laws::ended(noted, seq!['\n']),
        prompt.stage == UpdateStage::Prompt,
    ensures
        headline(prompt) == noted[0],
        update_body(prompt)[4] == noted[0],
        update_body(prompt)[2] == prompt.current_version@ + "  ->  "@ + prompt.version@,
{
    text_laws::law_lines_are_what_stands_between_their_endings(noted, seq!['x'], seq!['\n']);
}

proof fn lemma_choices(q: GuidedQuestion, selected: int, n: int, i: int)
    requires
        0 <= i < n <= q.choices@.len(),
    ensures
        text::contains_text(
            question_lines(q, selected, n),
            choice_lines(q.choices@[i], i, i == selected),
        ),
    decreases n,
{
    let own = choice_lines(q.choices@[i], i, i == selected);
    let before = question_lines(q, selected, n - 1);
    let all = question_lines(q, selected, n);
    let none = Seq::<char>::empty();
    if i == n - 1 {
        text_laws::law_a_contained_text_stands_between(before, own, none, own);
        assert(before + own + none =~= all);
    } else {
        lemma_choices(q, selected, n - 1, i);
        text_laws::law_a_contained_text_stands_between(none, own, none, before);
        let at = choose|at: int|
            0 <= at <= before.len() - own.len() && before == #[trigger] before.take(at) + own
                + before.skip(at + own.len());
        let more = choice_lines(q.choices@[n - 1], n - 1, n - 1 == selected);
        let behind = before.skip(at + own.len()) + more;
        text_laws::law_a_contained_text_stands_between(before.take(at), own, behind, own);
        assert(before.take(at) + own + behind =~= all);
    }
}

/// A question shows every choice with its number, counted from one, and marks the selected one and
/// those recommended.
pub proof fn law_a_question_shows_every_choice(q: GuidedQuestion, selected: int, i: int)
    requires
        0 <= i < q.choices@.len(),
    ensures
        ({
            let c = q.choices@[i];
            text::contains_text(
                question(q, selected),
                "\n\n"@ + (if i == selected {
                    "›"@
                } else {
                    " "@
                }) + " "@ + text::decimal((i + 1) as nat) + ". "@ + c.label@ + (
                if c.recommended {
                    " (recomendado)"@
                } else {
                    ""@
                }) + "\n  "@ + c.summary@ + "\n  + "@ + c.advantages@ + "\n  − "@
                    + c.disadvantages@,
            )
        }),
{
    let own = choice_lines(q.choices@[i], i, i == selected);
    let n = q.choices@.len() as int;
    let lines = question_lines(q, selected, n);
    let none = Seq::<char>::empty();
    lemma_choices(q, selected, n, i);
    text_laws::law_a_contained_text_stands_between(none, own, none, lines);
    let at = choose|at: int|
        0 <= at <= lines.len() - own.len() && lines == #[trigger] lines.take(at) + own
            + lines.skip(at + own.len());
    let foot = "\n\n↑↓ navega  •  Enter confirma  •  Esc cancela"@;
    let behind = lines.skip(at + own.len()) + foot;
    text_laws::law_a_contained_text_stands_between(lines.take(at), own, behind, own);
    assert(lines.take(at) + own + behind =~= question(q, selected));
}

} // verus!
