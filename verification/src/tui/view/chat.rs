//! The transcript and the composer as drawn rows.

use vstd::prelude::*;

use crate::text;
use crate::text_laws;
use crate::text::{cat2, cat3, cat4, chars_of, number, split, text_of};
use crate::tui::commands;
use crate::tui::layout;
use crate::tui::layout::Rect;
use crate::tui::state::{AppState, Selection};
use crate::tui::transcript;
use crate::tui::transcript::wrap_unless_cached;
use crate::tui::wrap;
use crate::tui::wrap::{
    compute_visible_window, selected_char_range, visible_suggestion_window, LineKind,
};

verus! {

// ---------------------------------------------------------------------------------------------
// The transcript
// ---------------------------------------------------------------------------------------------

/// One visible row of the transcript, cut where the selection begins and ends. A row of the user's
/// own message is drawn with a blank before and after it, and with as many more as fill the panel.
#[derive(Debug, PartialEq, Eq)]
pub struct HistoryRow {
    pub before: String,
    pub marked: String,
    pub after: String,
    pub user: bool,
    pub fill: usize,
}

/// How a wrapped row is drawn.
pub open spec fn is_drawn(
    row: (Seq<char>, LineKind),
    index: int,
    selection: Option<Selection>,
    width: int,
    drawn: HistoryRow,
) -> bool {
    let cut = match selection {
        Some(s) => wrap::covered(s, index, row.0.len() as int),
        None => None,
    };
    &&& drawn.user == (row.1 == LineKind::User)
    &&& drawn.fill == layout::left_over(width, row.0.len() as int + 2)
    &&& match cut {
        Some((from, to)) => {
            &&& drawn.before@ == row.0.subrange(0, from)
            &&& drawn.marked@ == row.0.subrange(from, to)
            &&& drawn.after@ == row.0.subrange(to, row.0.len() as int)
        },
        None => {
            &&& drawn.before@ == row.0
            &&& drawn.marked@.len() == 0
            &&& drawn.after@.len() == 0
        },
    }
}

/// The three parts of a drawn row make up the whole row.
pub proof fn law_drawing_keeps_the_row(
    row: (Seq<char>, LineKind),
    index: int,
    selection: Option<Selection>,
    width: int,
    drawn: HistoryRow,
)
    requires
        is_drawn(row, index, selection, width, drawn),
    ensures
        drawn.before@ + drawn.marked@ + drawn.after@ == row.0,
{
    assert(drawn.before@ + drawn.marked@ + drawn.after@ =~= row.0);
}

fn draw_row(
    line: &str,
    kind: LineKind,
    index: usize,
    selection: &Option<Selection>,
    width: usize,
) -> (r: HistoryRow)
    ensures
        is_drawn((line@, kind), index as int, *selection, width as int, r),
{
    let chars: Vec<char> = chars_of(line);
    let user: bool = kind == LineKind::User;
    let fill: usize = width.saturating_sub(chars.len().saturating_add(2));
    let cut: Option<(usize, usize)> = match selection {
        Some(s) => selected_char_range(s, index, chars.len()),
        None => None,
    };
    match cut {
        Some((from, to)) => HistoryRow {
            before: text_of(&chars, 0, from),
            marked: text_of(&chars, from, to),
            after: text_of(&chars, to, chars.len()),
            user,
            fill,
        },
        None => HistoryRow {
            before: line.to_owned(),
            marked: String::new(),
            after: String::new(),
            user,
            fill,
        },
    }
}

/// Whether the drawn rows are those of the transcript that are visible in an area.
pub open spec fn shows_history(s: AppState, area: Rect, drawn: Seq<HistoryRow>) -> bool {
    let width = layout::left_over(area.width as int, 2);
    let rows = transcript::history_rows(s, width);
    let (start, end) = wrap::window(
        rows.len() as int,
        layout::left_over(area.height as int, 2),
        s.transcript.scroll as int,
    );
    &&& drawn.len() == end - start
    &&& forall|i: int|
        0 <= i < drawn.len() ==> is_drawn(
            rows[start + i],
            start + i,
            s.transcript.selection,
            width,
            #[trigger] drawn[i],
        )
}

/// The rows of the transcript that are visible in an area.
pub fn history_view(s: &AppState, area: Rect) -> (r: Vec<HistoryRow>)
    ensures
        shows_history(*s, area, r@),
{
    let width: usize = area.width.saturating_sub(2) as usize;
    let own: Option<Vec<(String, LineKind)>> = wrap_unless_cached(
        s,
        width,
    );
    let rows: &Vec<(String, LineKind)> = match &own {
        Some(rows) => rows,
        None => s.history_wrap_cache.wrapped(),
    };
    let ghost all = wrap::tagged(rows@);
    assert(rows@.len() == all.len());
    let (start, end) = compute_visible_window(
        rows.len(),
        area.height.saturating_sub(2) as usize,
        s.transcript.scroll,
    );
    let mut drawn: Vec<HistoryRow> = Vec::new();
    let mut i: usize = start;
    while i < end
        invariant
            start <= i <= end <= rows@.len(),
            all == wrap::tagged(rows@),
            drawn@.len() == i - start,
            forall|j: int|
                0 <= j < drawn@.len() ==> is_drawn(
                    all[start + j],
                    start + j,
                    s.transcript.selection,
                    width as int,
                    #[trigger] drawn@[j],
                ),
        decreases end - i,
    {
        assert(all[i as int] == (rows@[i as int].0@, rows@[i as int].1));
        let row: HistoryRow = draw_row(
            rows[i].0.as_str(),
            rows[i].1,
            i,
            &s.transcript.selection,
            width,
        );
        drawn.push(row);
        i = i + 1;
    }
    drawn
}

/// The title of the transcript's panel.
pub fn history_title(s: &AppState) -> (r: &'static str)
    ensures
        r@ == (if s.transcript.scroll == 0 {
            "Gocode · Chat"@
        } else {
            "Gocode · Chat (scrolled — End to follow)"@
        }),
{
    if s.is_scroll_locked() {
        "Gocode · Chat"
    } else {
        "Gocode · Chat (scrolled — End to follow)"
    }
}

// ---------------------------------------------------------------------------------------------
// The composer
// ---------------------------------------------------------------------------------------------

/// What the composer shows: its text, the visible suggestions with the selected one, how many more
/// there are, the status, and the mode line with what interrupts a run.
#[derive(Debug, PartialEq, Eq)]
pub struct ComposerRows {
    pub input: Vec<String>,
    pub suggestions: Vec<String>,
    /// The row of `suggestions` that is selected, if it is visible.
    pub selected: Option<usize>,
    pub more: Option<String>,
    pub status: Option<String>,
    pub mode: String,
    /// Blanks between the mode and the interrupt hint, while a run is active.
    pub gap: Option<usize>,
}

/// The composer's text, line by line, with the prompt mark before the first.
pub open spec fn input_rows(input: Seq<char>) -> Seq<Seq<char>> {
    let lines = text::split_on(input, '\n');
    Seq::new(
        lines.len(),
        |i: int|
            (if i == 0 {
                "> "@
            } else {
                "  "@
            }) + lines[i],
    )
}

/// One suggestion.
pub open spec fn suggestion_row(pair: (Seq<char>, Seq<char>)) -> Seq<char> {
    "  "@ + pair.0 + " — "@ + pair.1
}

/// The mode line, with the name of the permission mode.
pub open spec fn mode_line(mode: Seq<char>) -> Seq<char> {
    mode + " mode on (shift+tab or F2 to cycle)"@
}

/// The text that says how a run is interrupted.
pub open spec fn interrupt_hint() -> Seq<char> {
    "ESC to interrupt"@
}

/// The text that says how a run is interrupted.
pub fn interrupt_hint_text() -> (r: &'static str)
    ensures
        r@ == interrupt_hint(),
{
    "ESC to interrupt"
}

/// Whether the rows are the visible suggestions, with the selected one and how many more there are.
pub open spec fn shows_suggestions(
    list: Seq<(Seq<char>, Seq<char>)>,
    chosen: int,
    r: ComposerRows,
) -> bool {
    exists|first: int, end: int, truncated: bool|
        {
            &&& #[trigger] is_suggestion_window(list.len() as int, chosen, first, end, truncated)
            &&& text::texts(r.suggestions@) == Seq::new(
                (end - first) as nat,
                |i: int| suggestion_row(list[first + i]),
            )
            &&& r.selected == (if first <= chosen < end {
                Some((chosen - first) as usize)
            } else {
                None
            })
            &&& text::opt_text(r.more) == (if truncated {
                Some(
                    "  … "@ + text::decimal((list.len() - (end - first)) as nat)
                        + " more (↑/↓ to scroll)"@,
                )
            } else {
                None
            })
        }
}

/// Whether the rows are what the composer shows in a panel of a given width.
pub open spec fn shows_composer(s: AppState, mode: Seq<char>, width: int, r: ComposerRows) -> bool {
    let list = commands::suggestions(s.composer.chat_input@, s.custom_commands@);
    let chosen = layout::least(
        s.composer.suggestion_selected as int,
        layout::left_over(list.len() as int, 1),
    );
    &&& text::texts(r.input@) == input_rows(s.composer.chat_input@)
    &&& shows_suggestions(list, chosen, r)
    &&& r.status == s.status
    &&& r.mode@ == mode_line(mode)
    &&& r.gap == (if s.transcript.activity is Some {
        let free = layout::left_over(
            layout::left_over(width, mode_line(mode).len() as int),
            interrupt_hint().len() as int,
        );
        Some(
            (if free < 1 {
                1
            } else {
                free
            }) as usize,
        )
    } else {
        None
    })
}

/// Whether `[first, end)` is the window of suggestions that is shown: all of them while they fit,
/// else one row fewer than fits, with the selected one in it.
pub open spec fn is_suggestion_window(
    count: int,
    selected: int,
    first: int,
    end: int,
    truncated: bool,
) -> bool {
    let rows = wrap::MAX_VISIBLE_SUGGESTIONS - 1;
    &&& truncated == (count > wrap::MAX_VISIBLE_SUGGESTIONS)
    &&& if truncated {
        &&& first == layout::least(layout::left_over(selected, rows - 1), count - rows)
        &&& end == first + rows
    } else {
        first == 0 && end == count
    }
}

fn format_input(input: &str) -> (r: Vec<String>)
    ensures
        text::texts(r@) == input_rows(input@),
{
    let all: Vec<String> = split(input, '\n');
    let ghost goal = input_rows(input@);
    let mut r: Vec<String> = Vec::new();
    let mut i: usize = 0;
    while i < all.len()
        invariant
            i <= all@.len(),
            text::texts(all@) == text::split_on(input@, '\n'),
            goal == input_rows(input@),
            r@.len() == i,
            forall|j: int| 0 <= j < i ==> (#[trigger] r@[j])@ == goal[j],
        decreases all@.len() - i,
    {
        assert(text::texts(all@)[i as int] == all@[i as int]@);
        let prefix: &str = if i == 0 {
            "> "
        } else {
            "  "
        };
        r.push(cat2(prefix, all[i].as_str()));
        i = i + 1;
    }
    assert(text::texts(r@) =~= goal);
    r
}

fn format_suggestions(list: &Vec<(String, String)>, first: usize, end: usize) -> (r: Vec<String>)
    requires
        first <= end <= list@.len(),
    ensures
        text::texts(r@) == Seq::new(
            (end - first) as nat,
            |i: int| suggestion_row(commands::pairs(list@)[first + i]),
        ),
{
    let ghost goal = Seq::new(
        (end - first) as nat,
        |i: int| suggestion_row(commands::pairs(list@)[first + i]),
    );
    let mut r: Vec<String> = Vec::new();
    let mut i: usize = first;
    while i < end
        invariant
            first <= i <= end <= list@.len(),
            goal == Seq::new(
                (end - first) as nat,
                |i: int| suggestion_row(commands::pairs(list@)[first + i]),
            ),
            r@.len() == i - first,
            forall|j: int| 0 <= j < r@.len() ==> (#[trigger] r@[j])@ == goal[j],
        decreases end - i,
    {
        assert(commands::pairs(list@)[i as int] == (list@[i as int].0@, list@[i as int].1@));
        r.push(cat4("  ", list[i].0.as_str(), " — ", list[i].1.as_str()));
        assert(r@[i - first]@ == goal[i - first]);
        i = i + 1;
    }
    assert(text::texts(r@) =~= goal);
    r
}

/// What the composer shows in an area, given the name of the permission mode.
pub fn composer_view(s: &AppState, mode_name: &str, area: Rect) -> (r: ComposerRows)
    ensures
        shows_composer(*s, mode_name@, layout::left_over(area.width as int, 2), r),
{
    let list: Vec<(String, String)> = commands::slash_suggestions(
        s.composer.chat_input.as_str(),
        &s.custom_commands,
    );
    assert(list@.len() == commands::pairs(list@).len());
    let last: usize = list.len().saturating_sub(1);
    let chosen: usize = if s.composer.suggestion_selected < last {
        s.composer.suggestion_selected
    } else {
        last
    };
    let (first, end, truncated) = visible_suggestion_window(list.len(), chosen);
    let ghost all = commands::suggestions(s.composer.chat_input@, s.custom_commands@);
    assert(is_suggestion_window(
        all.len() as int,
        chosen as int,
        first as int,
        end as int,
        truncated,
    ));
    let suggestions: Vec<String> = format_suggestions(&list, first, end);
    assert(text::texts(suggestions@) =~= Seq::new(
        (end - first) as nat,
        |i: int| suggestion_row(all[first + i]),
    ));
    let more: Option<String> = if truncated {
        let hidden: String = number((list.len() - (end - first)) as u64);
        Some(cat3("  … ", hidden.as_str(), " more (↑/↓ to scroll)"))
    } else {
        None
    };
    let mode: String = cat2(mode_name, " mode on (shift+tab or F2 to cycle)");
    let gap: Option<usize> = if s.transcript.activity.is_some() {
        let width: usize = area.width.saturating_sub(2) as usize;
        let free: usize = width.saturating_sub(mode.as_str().unicode_len()).saturating_sub(
            interrupt_hint_text().unicode_len(),
        );
        Some(
            if free < 1 {
                1
            } else {
                free
            },
        )
    } else {
        None
    };
    let selected: Option<usize> = if first <= chosen && chosen < end {
        Some(chosen - first)
    } else {
        None
    };
    let r: ComposerRows = ComposerRows {
        input: format_input(s.composer.chat_input.as_str()),
        suggestions,
        selected,
        more,
        status: s.status.clone(),
        mode,
        gap,
    };
    assert(shows_suggestions(all, chosen as int, r));
    r
}

/// The composer shows its text line by line, behind two characters that mark where it begins.
pub proof fn law_the_composer_shows_its_lines(lines: Seq<Seq<char>>)
    requires
        lines.len() > 0,
        text_laws::all_lack(lines, '\n'),
    ensures
        ({
            let shown = input_rows(text::joined(lines, seq!['\n']));
            &&& shown.len() == lines.len()
            &&& shown[0] == seq!['>', ' '] + lines[0]
            &&& forall|i: int|
                0 < i < lines.len() ==> #[trigger] shown[i] == seq![' ', ' '] + lines[i]
        }),
{
    reveal_strlit("> ");
    reveal_strlit("  ");
    assert("> "@ =~= seq!['>', ' ']);
    assert("  "@ =~= seq![' ', ' ']);
    text_laws::law_pieces_make_the_text(Seq::empty(), lines, '\n');
}

/// The selected suggestion is among those shown, and as many are shown as fit: all up to six, else
/// five and how many more there are.
pub proof fn law_the_selected_suggestion_is_shown(
    count: int,
    selected: int,
    first: int,
    end: int,
    truncated: bool,
)
    requires
        0 <= selected < count,
        is_suggestion_window(count, selected, first, end, truncated),
    ensures
        0 <= first <= selected < end <= count,
        truncated <==> count > 6,
        end - first == (if count > 6 {
            5
        } else {
            count
        }),
        selected < 5 ==> first == 0,
{
}

} // verus!
