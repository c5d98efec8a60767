//! How the mouse acts on the transcript and the composer.

use vstd::prelude::*;

use crate::text;
use crate::text::{cat3, number, split};
use crate::tui::composer;
use crate::tui::composer::char_index_from_line_col;
use crate::tui::input::{MouseButton, MouseEvent, MouseEventKind};
use crate::tui::layout;
use crate::tui::layout::{chat_layout, is_within, Rect};
use crate::tui::state::{
    AppState, Composer, Screen, Selection, SelectionPoint, Transcript, SCROLL_STEP,
};
use crate::tui::transcript;
use crate::tui::transcript::wrap_unless_cached;
use crate::tui::wrap;
use crate::tui::wrap::{compute_visible_window, pick_text, LineKind};

verus! {

/// The point of the wrapped transcript at a terminal cell, or nothing outside the transcript's
/// viewport and past its last row.
pub open spec fn point_at(s: AppState, area: Rect, column: int, row: int) -> Option<SelectionPoint> {
    let history = layout::chat_areas(s, area).0;
    let rows = transcript::history_rows(s, layout::left_over(history.width as int, 2));
    let visible = layout::left_over(history.height as int, 2);
    let start = wrap::window(rows.len() as int, visible, s.transcript.scroll as int).0;
    let line = start + (row - history.y - 1);
    if history.holds_inside(column, row) && line < rows.len() {
        Some(
            SelectionPoint {
                line: line as usize,
                col: layout::least(column - history.x - 1, rows[line].0.len() as int) as usize,
            },
        )
    } else {
        None
    }
}

/// Maps terminal coordinates to a point in the wrapped transcript, or nothing where they fall
/// outside its viewport, border included.
pub fn point_from_terminal_coords(s: &AppState, terminal_area: Rect, column: u16, row: u16) -> (r:
    Option<SelectionPoint>)
    ensures
        r == point_at(*s, terminal_area, column as int, row as int),
{
    let (history, _) = chat_layout(terminal_area, s);
    if !history.contains_inside(column, row) {
        return None;
    }
    let local_col: usize = (column - history.x - 1) as usize;
    let local_row: usize = (row - history.y - 1) as usize;
    let own: Option<Vec<(String, LineKind)>> = wrap_unless_cached(
        s,
        history.width.saturating_sub(2) as usize,
    );
    let rows: &Vec<(String, LineKind)> = match &own {
        Some(rows) => rows,
        None => s.history_wrap_cache.wrapped(),
    };
    assert(rows@.len() == wrap::tagged(rows@).len());
    let visible: usize = history.height.saturating_sub(2) as usize;
    let (start, end) = compute_visible_window(rows.len(), visible, s.transcript.scroll);
    if local_row >= rows.len() - start {
        return None;
    }
    let line: usize = start + local_row;
    assert(wrap::tagged(rows@)[line as int].0 == rows@[line as int].0@);
    let length: usize = rows[line].0.as_str().unicode_len();
    Some(
        SelectionPoint {
            line,
            col: if local_col < length {
                local_col
            } else {
                length
            },
        },
    )
}

/// The cursor position at a cell of the composer's text, or nothing where the cell shows a
/// suggestion, the status, the mode line or a border.
pub open spec fn click_position(s: AppState, area: Rect, column: int, row: int) -> Option<int> {
    let lines = text::split_on(s.composer.chat_input@, '\n');
    let line = row - area.y - 1;
    if area.holds_inside(column, row) && line < lines.len() {
        Some(
            composer::char_index(
                lines,
                line,
                layout::least(
                    layout::left_over(column - area.x - 1, 2),
                    lines[line].len() as int,
                ),
            ),
        )
    } else {
        None
    }
}

/// Maps a click inside the composer's text rows to a cursor position.
pub fn composer_input_click_position(s: &AppState, composer_area: Rect, column: u16, row: u16) -> (r:
    Option<usize>)
    ensures
        match r {
            Some(i) => click_position(*s, composer_area, column as int, row as int) == Some(
                i as int,
            ) && i <= s.composer.chat_input@.len(),
            None => click_position(*s, composer_area, column as int, row as int) is None,
        },
{
    if !composer_area.contains_inside(column, row) {
        return None;
    }
    let local_row: usize = (row - composer_area.y - 1) as usize;
    let lines: Vec<String> = split(s.composer.chat_input.as_str(), '\n');
    let ghost all = text::texts(lines@);
    if local_row >= lines.len() {
        return None;
    }
    let length: usize = lines[local_row].as_str().unicode_len();
    let local_col: usize = (column - composer_area.x - 1) as usize;
    let wanted: usize = local_col.saturating_sub(2);
    let col: usize = if wanted < length {
        wanted
    } else {
        length
    };
    let total: usize = s.composer.chat_input.as_str().unicode_len();
    proof {
        assert(all[local_row as int] == lines@[local_row as int]@);
        composer::lemma_offset_of_split(s.composer.chat_input@, '\n');
        composer::lemma_offset_grows(all, local_row as int, all.len() as int);
    }
    Some(char_index_from_line_col(&lines, local_row, col))
}

/// What a mouse event does to the interface. `taken` says whether the event was consumed.
pub open spec fn moused(
    pre: AppState,
    post: AppState,
    e: MouseEvent,
    area: Rect,
    taken: bool,
) -> bool {
    let column = e.column as int;
    let row = e.row as int;
    if pre.screen != Screen::Chat {
        post == pre && !taken
    } else {
        match e.kind {
            MouseEventKind::Down(MouseButton::Left) => {
                &&& taken
                &&& match click_position(pre, layout::chat_areas(pre, area).1, column, row) {
                    Some(cursor) => post == (AppState {
                        composer: Composer { cursor: cursor as usize, ..pre.composer },
                        transcript: Transcript { selection: None, ..pre.transcript },
                        ..pre
                    }),
                    None => post == (AppState {
                        transcript: Transcript {
                            selection: match point_at(pre, area, column, row) {
                                Some(p) => Some(Selection { anchor: p, cursor: p }),
                                None => None,
                            },
                            ..pre.transcript
                        },
                        ..pre
                    }),
                }
            },
            MouseEventKind::Drag(MouseButton::Left) => {
                &&& taken
                &&& match (point_at(pre, area, column, row), pre.transcript.selection) {
                    (Some(p), Some(selection)) => post == (AppState {
                        transcript: Transcript {
                            selection: Some(Selection { cursor: p, ..selection }),
                            ..pre.transcript
                        },
                        ..pre
                    }),
                    _ => post == pre,
                }
            },
            MouseEventKind::Up(MouseButton::Left) => taken && post == pre,
            MouseEventKind::Down(MouseButton::Right) => taken && post == pre,
            MouseEventKind::ScrollUp => {
                &&& taken
                &&& post == (AppState {
                    transcript: Transcript {
                        scroll: layout::least(
                            pre.transcript.scroll + SCROLL_STEP,
                            usize::MAX as int,
                        ) as usize,
                        ..pre.transcript
                    },
                    ..pre
                })
            },
            MouseEventKind::ScrollDown => {
                &&& taken
                &&& post == (AppState {
                    transcript: Transcript {
                        scroll: layout::left_over(
                            pre.transcript.scroll as int,
                            SCROLL_STEP as int,
                        ) as usize,
                        ..pre.transcript
                    },
                    ..pre
                })
            },
            _ => post == pre && !taken,
        }
    }
}

/// Applies a mouse event to the transcript's text selection, the composer's cursor and the scroll
/// offset.
///
/// Returns whether the event was consumed: a left-button press, drag or release, a right-button
/// press, or a turn of the wheel on the chat screen.
pub fn handle_mouse_event(state: &mut AppState, event: &MouseEvent, terminal_area: Rect) -> (r: bool)
    requires
        old(state).wf(),
    ensures
        final(state).wf(),
        moused(*old(state), *final(state), *event, terminal_area, r),
{
    if state.screen != Screen::Chat {
        return false;
    }
    match event.kind {
        MouseEventKind::Down(MouseButton::Left) => {
            let (_, composer_area) = chat_layout(terminal_area, state);
            match composer_input_click_position(state, composer_area, event.column, event.row) {
                Some(cursor) => {
                    state.composer.cursor = cursor;
                    state.transcript.selection = None;
                },
                None => {
                    let point: Option<SelectionPoint> = point_from_terminal_coords(
                        state,
                        terminal_area,
                        event.column,
                        event.row,
                    );
                    state.transcript.selection = match point {
                        Some(p) => Some(Selection { anchor: p, cursor: p }),
                        None => None,
                    };
                },
            }
            true
        },
        MouseEventKind::Drag(MouseButton::Left) => {
            let point: Option<SelectionPoint> = point_from_terminal_coords(
                state,
                terminal_area,
                event.column,
                event.row,
            );
            match (point, state.transcript.selection) {
                (Some(p), Some(selection)) => {
                    state.transcript.selection = Some(
                        Selection { anchor: selection.anchor, cursor: p },
                    );
                },
                _ => {},
            }
            true
        },
        MouseEventKind::Up(MouseButton::Left) => true,
        MouseEventKind::Down(MouseButton::Right) => true,
        MouseEventKind::ScrollUp => {
            state.scroll_up();
            true
        },
        MouseEventKind::ScrollDown => {
            state.scroll_down();
            true
        },
        _ => false,
    }
}

/// Whether a mouse event asks for the clipboard's text: a right-button press on the composer.
pub open spec fn asks_paste(s: AppState, e: MouseEvent, area: Rect) -> bool {
    &&& s.screen == Screen::Chat
    &&& e.kind == MouseEventKind::Down(MouseButton::Right)
    &&& layout::chat_areas(s, area).1.holds(e.column as int, e.row as int)
}

/// Tells whether a mouse event asks for the clipboard's text.
pub fn wants_clipboard_paste(s: &AppState, event: &MouseEvent, terminal_area: Rect) -> (r: bool)
    ensures
        r == asks_paste(*s, *event, terminal_area),
{
    if s.screen != Screen::Chat {
        return false;
    }
    match event.kind {
        MouseEventKind::Down(MouseButton::Right) => {
            let (_, composer_area) = chat_layout(terminal_area, s);
            is_within(composer_area, event.column, event.row)
        },
        _ => false,
    }
}

/// Appends the clipboard's text to the composer; the cursor stays where it is.
pub fn paste_clipboard(state: &mut AppState, pasted: &str)
    requires
        old(state).wf(),
    ensures
        final(state).wf(),
        *final(state) == (AppState {
            composer: Composer {
                chat_input: final(state).composer.chat_input,
                suggestion_selected: 0,
                ..old(state).composer
            },
            ..*old(state)
        }),
        final(state).composer.chat_input@ == old(state).composer.chat_input@ + pasted@,
{
    state.composer.chat_input.append(pasted);
    state.composer.suggestion_selected = 0;
}

/// The selected text of the transcript, its rows joined by line breaks.
pub open spec fn selected_text(s: AppState, area: Rect) -> Option<Seq<char>> {
    let history = layout::chat_areas(s, area).0;
    match s.transcript.selection {
        Some(selection) => wrap::picked(
            transcript::history_rows(s, layout::left_over(history.width as int, 2)),
            selection,
        ),
        None => None,
    }
}

/// Extracts the selected transcript text, joined with newlines, or nothing where there is no
/// selection or it is empty.
pub fn extract_selected_text(s: &AppState, terminal_area: Rect) -> (r: Option<String>)
    ensures
        text::opt_text(r) == selected_text(*s, terminal_area),
{
    let selection: Selection = match s.transcript.selection {
        Some(selection) => selection,
        None => {
            return None;
        },
    };
    let (history, _) = chat_layout(terminal_area, s);
    let own: Option<Vec<(String, LineKind)>> = wrap_unless_cached(
        s,
        history.width.saturating_sub(2) as usize,
    );
    let rows: &Vec<(String, LineKind)> = match &own {
        Some(rows) => rows,
        None => s.history_wrap_cache.wrapped(),
    };
    pick_text(rows, &selection)
}

/// Milliseconds for which the copy notification is shown.
pub const COPY_NOTIFICATION_MS: u64 = 2000;

/// Says that a text was copied, and returns the clock reading at which the notice goes away.
pub fn note_copied(state: &mut AppState, copied: &str, now_ms: u64) -> (deadline: u64)
    requires
        old(state).wf(),
    ensures
        final(state).wf(),
        *final(state) == (AppState {
            copy_notification: final(state).copy_notification,
            ..*old(state)
        }),
        final(state).copy_notification matches Some(told) && told@ == "Copied "@ + text::decimal(
            copied@.len(),
        ) + " chars to clipboard"@,
        deadline == layout::least(now_ms + COPY_NOTIFICATION_MS, u64::MAX as int),
{
    let count: String = number(copied.unicode_len() as u64);
    state.copy_notification = Some(cat3("Copied ", count.as_str(), " chars to clipboard"));
    now_ms.saturating_add(COPY_NOTIFICATION_MS)
}

/// Takes the copy notice away once its time has come.
pub fn expire_copy_notification(state: &mut AppState, deadline: Option<u64>, now_ms: u64) -> (r:
    Option<u64>)
    ensures
        if deadline matches Some(at) && now_ms >= at {
            r is None && *final(state) == (AppState { copy_notification: None, ..*old(state) })
        } else {
            r == deadline && *final(state) == *old(state)
        },
        old(state).wf() ==> final(state).wf(),
{
    match deadline {
        Some(at) => {
            if now_ms >= at {
                state.copy_notification = None;
                return None;
            }
            deadline
        },
        None => None,
    }
}

/// A press and release on one cell selects nothing.
pub proof fn law_a_click_selects_no_text(rows: Seq<(Seq<char>, LineKind)>, p: SelectionPoint, n: int)
    requires
        0 <= n <= rows.len(),
    ensures
        wrap::pieces(rows, Selection { anchor: p, cursor: p }, n).len() == 0,
    decreases n,
{
    if n > 0 {
        law_a_click_selects_no_text(rows, p, n - 1);
    }
}

/// What is selected does not depend on the direction of the drag.
pub proof fn law_selection_ignores_the_direction(
    rows: Seq<(Seq<char>, LineKind)>,
    a: SelectionPoint,
    b: SelectionPoint,
    n: int,
)
    requires
        0 <= n <= rows.len(),
    ensures
        wrap::pieces(rows, Selection { anchor: a, cursor: b }, n) == wrap::pieces(
            rows,
            Selection { anchor: b, cursor: a },
            n,
        ),
    decreases n,
{
    if n > 0 {
        law_selection_ignores_the_direction(rows, a, b, n - 1);
    }
}

/// Pointing and drawing agree: a point is found on a row that is visible, in the terminal line that
/// shows it, and no further than the row's end.
pub proof fn law_a_point_lies_on_the_row_that_is_drawn_there(
    s: AppState,
    area: Rect,
    column: int,
    row: int,
)
    requires
        transcript::history_rows(
            s,
            layout::left_over(layout::chat_areas(s, area).0.width as int, 2),
        ).len() <= usize::MAX,
    ensures
        point_at(s, area, column, row) matches Some(p) ==> {
            let history = layout::chat_areas(s, area).0;
            let rows = transcript::history_rows(s, layout::left_over(history.width as int, 2));
            let (start, end) = wrap::window(
                rows.len() as int,
                layout::left_over(history.height as int, 2),
                s.transcript.scroll as int,
            );
            &&& history.holds_inside(column, row)
            &&& start <= p.line < end
            &&& row == history.y + 1 + (p.line - start)
            &&& p.col <= rows[p.line as int].0.len()
        },
{
}

/// A click on the cell where the composer's cursor is drawn leaves the cursor where it is: what is
/// drawn and what a click finds agree.
pub proof fn law_a_click_on_the_cursor_leaves_it(s: AppState, area: Rect)
    requires
        s.composer.cursor <= s.composer.chat_input@.len() <= u16::MAX,
        ({
            let (column, row) = layout::cursor_cell(s, area);
            area.holds_inside(column, row)
        }),
    ensures
        ({
            let (column, row) = layout::cursor_cell(s, area);
            click_position(s, area, column, row) == Some(s.composer.cursor as int)
        }),
{
    let t = s.composer.chat_input@;
    let lines = text::split_on(t, '\n');
    text::lemma_split_nonempty(t, '\n');
    composer::lemma_offset_of_split(t, '\n');
    composer::lemma_line_and_column_return(lines, s.composer.cursor as int);
    let (line, col) = composer::line_col(lines, 0, s.composer.cursor as int);
    composer::lemma_offset_grows(lines, line, lines.len() as int);
    lemma_offset_counts(lines, line);
}

proof fn lemma_offset_counts(lines: Seq<Seq<char>>, n: int)
    requires
        0 <= n <= lines.len(),
    ensures
        composer::offset(lines, n) >= n,
    decreases n,
{
    if n > 0 {
        lemma_offset_counts(lines, n - 1);
    }
}

/// A drag selects from the point where the button went down to the point where the mouse is.
pub proof fn law_a_drag_selects_from_where_it_began(
    a: AppState,
    b: AppState,
    c: AppState,
    down: MouseEvent,
    drag: MouseEvent,
    area: Rect,
    from: SelectionPoint,
    to: SelectionPoint,
)
    requires
        a.screen == Screen::Chat,
        down.kind == MouseEventKind::Down(MouseButton::Left),
        drag.kind == MouseEventKind::Drag(MouseButton::Left),
        click_position(
            a,
            layout::chat_areas(a, area).1,
            down.column as int,
            down.row as int,
        ) is None,
        point_at(a, area, down.column as int, down.row as int) == Some(from),
        point_at(b, area, drag.column as int, drag.row as int) == Some(to),
        moused(a, b, down, area, true),
        moused(b, c, drag, area, true),
    ensures
        c.transcript.selection == Some(Selection { anchor: from, cursor: to }),
        c.composer == a.composer,
        c.transcript.entries == a.transcript.entries,
{
}

/// Turning the wheel up and down again returns to the rows that were shown.
pub proof fn law_the_wheel_turns_back(
    a: AppState,
    b: AppState,
    c: AppState,
    up: MouseEvent,
    down: MouseEvent,
    area: Rect,
)
    requires
        a.screen == Screen::Chat,
        up.kind == MouseEventKind::ScrollUp,
        down.kind == MouseEventKind::ScrollDown,
        a.transcript.scroll <= usize::MAX - 5,
        moused(a, b, up, area, true),
        moused(b, c, down, area, true),
    ensures
        b.transcript.scroll == a.transcript.scroll + 5,
        c == a,
{
}

} // verus!
