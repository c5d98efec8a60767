//! Where the parts of the screen stand.

use vstd::prelude::*;

use crate::text;
use crate::text::split;
use crate::tui::commands;
use crate::tui::commands::slash_suggestions;
use crate::tui::composer;
use crate::tui::composer::cursor_line_col;
use crate::tui::state::AppState;
use crate::tui::wrap::MAX_VISIBLE_SUGGESTIONS;

verus! {

/// The narrowest terminal that the interface is drawn in.
pub const MIN_WIDTH: u16 = 24;

/// The lowest terminal that the interface is drawn in.
pub const MIN_HEIGHT: u16 = 6;

/// Rows that the transcript keeps at least.
pub const MIN_HISTORY_ROWS: u16 = 3;

/// Columns kept free to the right of the copy notification.
pub const COPY_NOTIFICATION_MARGIN: u16 = 2;

/// A rectangle of terminal cells.
#[derive(Clone, Copy, Debug, PartialEq, Eq, Structural)]
pub struct Rect {
    pub x: u16,
    pub y: u16,
    pub width: u16,
    pub height: u16,
}

/// The smaller of two numbers.
pub open spec fn least(a: int, b: int) -> int {
    if a < b {
        a
    } else {
        b
    }
}

/// What is left of `a` after `b`, or nothing.
pub open spec fn left_over(a: int, b: int) -> int {
    if a > b {
        a - b
    } else {
        0
    }
}

impl Rect {
    /// Whether a cell lies in the rectangle.
    pub open spec fn holds(self, column: int, row: int) -> bool {
        self.x <= column < self.x + self.width && self.y <= row < self.y + self.height
    }

    /// Whether a cell lies inside the rectangle's one-cell border.
    pub open spec fn holds_inside(self, column: int, row: int) -> bool {
        &&& self.x < column < self.x + left_over(self.width as int, 1)
        &&& self.y < row < self.y + left_over(self.height as int, 1)
    }

    /// Whether a cell lies inside the rectangle's one-cell border.
    pub fn contains_inside(&self, column: u16, row: u16) -> (r: bool)
        ensures
            r == self.holds_inside(column as int, row as int),
    {
        let right: u32 = self.x as u32 + self.width.saturating_sub(1) as u32;
        let bottom: u32 = self.y as u32 + self.height.saturating_sub(1) as u32;
        self.x < column && (column as u32) < right && self.y < row && (row as u32) < bottom
    }
}

/// Whether a cell lies in a rectangle.
pub fn is_within(area: Rect, column: u16, row: u16) -> (r: bool)
    ensures
        r == area.holds(column as int, row as int),
{
    column >= area.x && (column as u32) < area.x as u32 + area.width as u32 && row >= area.y && (
    row as u32) < area.y as u32 + area.height as u32
}

/// A rectangle of a wanted size in the middle of an area, no larger than the area.
pub fn centered(area: Rect, width: u16, height: u16) -> (r: Rect)
    requires
        area.x + area.width <= u16::MAX,
        area.y + area.height <= u16::MAX,
    ensures
        r.width == least(width as int, area.width as int),
        r.height == least(height as int, area.height as int),
        r.x == area.x + (area.width - r.width) / 2,
        r.y == area.y + (area.height - r.height) / 2,
{
    let w: u16 = if width < area.width {
        width
    } else {
        area.width
    };
    let h: u16 = if height < area.height {
        height
    } else {
        area.height
    };
    Rect {
        x: area.x + (area.width - w) / 2,
        y: area.y + (area.height - h) / 2,
        width: w,
        height: h,
    }
}

/// An area split in two, one part above the other: the lower part gets the rows it asks for as far
/// as the upper part keeps its least number of rows, and the upper part gets the rest.
pub open spec fn stacked(area: Rect, upper_least: u16, lower: u16) -> (Rect, Rect) {
    let rows = least(area.height as int, u16::MAX - area.y);
    let upper = if rows >= lower + upper_least {
        rows - lower
    } else {
        least(upper_least as int, rows)
    };
    (
        Rect { height: upper as u16, ..area },
        Rect { y: (area.y + upper) as u16, height: (rows - upper) as u16, ..area },
    )
}

/// The rows that one part of a split area asks for.
#[derive(Clone, Copy, Debug, PartialEq, Eq, Structural)]
pub enum Rows {
    /// At least so many, and what the others leave.
    AtLeast(u16),
    /// So many.
    Exactly(u16),
}

/// Rows that the parts with a fixed number ask for together.
pub open spec fn fixed_rows(rows: Seq<Rows>) -> int
    decreases rows.len(),
{
    if rows.len() == 0 {
        0
    } else {
        fixed_rows(rows.drop_last()) + match rows.last() {
            Rows::Exactly(n) => n as int,
            Rows::AtLeast(_) => 0,
        }
    }
}

/// Rows that part `i` gets where `rest` of them are left to the part without a fixed number.
pub open spec fn given_rows(rows: Seq<Rows>, rest: int, i: int) -> int {
    match rows[i] {
        Rows::Exactly(n) => n as int,
        Rows::AtLeast(_) => rest,
    }
}

/// Rows that the parts before part `i` get.
pub open spec fn rows_above(rows: Seq<Rows>, rest: int, i: int) -> int
    decreases i,
{
    if i <= 0 {
        0
    } else {
        rows_above(rows, rest, i - 1) + given_rows(rows, rest, i - 1)
    }
}

/// Whether the area has the rows that every part asks for, where part `k` is the only one without
/// a fixed number.
pub open spec fn is_roomy(area: Rect, rows: Seq<Rows>, k: int) -> bool {
    &&& area.y + area.height <= u16::MAX
    &&& 0 <= k < rows.len()
    &&& forall|i: int| 0 <= i < rows.len() ==> (#[trigger] rows[i] is AtLeast <==> i == k)
    &&& match rows[k] {
        Rows::AtLeast(n) => fixed_rows(rows) + n <= area.height,
        Rows::Exactly(_) => false,
    }
}

/// The parts of an area with rows enough, from the top down: each gets what it asks for, and the
/// one without a fixed number gets the rest.
pub open spec fn filled(area: Rect, rows: Seq<Rows>) -> Seq<Rect> {
    let rest = area.height - fixed_rows(rows);
    Seq::new(
        rows.len(),
        |i: int|
            Rect {
                y: (area.y + rows_above(rows, rest, i)) as u16,
                height: given_rows(rows, rest, i) as u16,
                ..area
            },
    )
}

/// The parts that `ratatui::layout::Layout::split` makes of an area, one above the other.
pub uninterp spec fn split_area(area: Rect, rows: Seq<Rows>) -> Seq<Rect>;

/// Calls `ratatui::layout::Layout::split` on a vertical layout with the default flex, in which
/// [`Rows::AtLeast`] is the constraint `Min` and [`Rows::Exactly`] the constraint `Length`.
///
/// The parts are a function of the area and the constraints. The other claims are read off the
/// strengths of the layout's constraints: the spacers between and before the parts are empty, a
/// least size comes before a fixed length, and what then remains goes to the part with the least
/// size before it goes to the space after the last part. So of `Min` above `Length` the result is
/// known on every area, and with one `Min` among several `Length` where the area has rows enough.
/// Every part spans the area's columns. How several parts share an area that is too low for them
/// is left unsaid.
#[verifier::external_body]
fn split_rows(area: Rect, rows: &Vec<Rows>) -> (r: Vec<Rect>)
    requires
        forall|i: int| 0 <= i < rows@.len() ==> match #[trigger] rows@[i] {
            Rows::AtLeast(n) => n <= i16::MAX,
            Rows::Exactly(_) => true,
        },
    ensures
        r@ == split_area(area, rows@),
        r@.len() == rows@.len(),
        forall|upper: u16, lower: u16|
            rows@ == seq![Rows::AtLeast(upper), Rows::Exactly(lower)] ==> r@ == seq![
                (#[trigger] stacked(area, upper, lower)).0,
                stacked(area, upper, lower).1,
            ],
        forall|k: int| #[trigger] is_roomy(area, rows@, k) ==> r@ == filled(area, rows@),
{
    let whole = ratatui::layout::Rect { x: area.x, y: area.y, width: area.width, height: area.height };
    let asked = rows.iter().map(|part| match part {
        Rows::AtLeast(n) => ratatui::layout::Constraint::Min(*n),
        Rows::Exactly(n) => ratatui::layout::Constraint::Length(*n),
    });
    let parts = ratatui::layout::Layout::vertical(asked).split(whole);
    parts.iter().map(|p| Rect { x: p.x, y: p.y, width: p.width, height: p.height }).collect()
}

/// A text above a one-row footer.
pub fn text_and_footer(area: Rect) -> (r: (Rect, Rect))
    ensures
        r == stacked(area, 1, 1),
{
    let rows: Vec<Rows> = vec![Rows::AtLeast(1), Rows::Exactly(1)];
    assert(rows@ =~= seq![Rows::AtLeast(1), Rows::Exactly(1)]);
    let parts: Vec<Rect> = split_rows(area, &rows);
    proof {
        let both = stacked(area, 1, 1);
        assert(parts@ == seq![both.0, both.1]);
    }
    (parts[0], parts[1])
}

/// A fixed number of rows for a heading, the rest for a text, and a footer of one row.
pub open spec fn panel_rows(heading: u16) -> Seq<Rows> {
    seq![Rows::Exactly(heading), Rows::AtLeast(1), Rows::Exactly(1)]
}

/// A row for the tabs, a free row, the rest for a text, and a footer of one row.
pub open spec fn tabbed_rows() -> Seq<Rows> {
    seq![Rows::Exactly(1), Rows::Exactly(1), Rows::AtLeast(1), Rows::Exactly(1)]
}

/// Two rows for a text and one for a gauge.
pub open spec fn gauge_rows() -> Seq<Rows> {
    seq![Rows::Exactly(2), Rows::Exactly(1)]
}

/// A heading above a text above a one-row footer.
pub fn heading_text_and_footer(area: Rect, heading: u16) -> (r: (Rect, Rect, Rect))
    ensures
        seq![r.0, r.1, r.2] == split_area(area, panel_rows(heading)),
        area.y + area.height <= u16::MAX && area.height >= heading + 2 ==> seq![r.0, r.1, r.2]
            == filled(area, panel_rows(heading)),
{
    let rows: Vec<Rows> = vec![Rows::Exactly(heading), Rows::AtLeast(1), Rows::Exactly(1)];
    assert(rows@ =~= panel_rows(heading));
    let parts: Vec<Rect> = split_rows(area, &rows);
    assert(parts@ =~= seq![parts@[0], parts@[1], parts@[2]]);
    proof {
        lemma_panel_rows(heading);
        if area.y + area.height <= u16::MAX && area.height >= heading + 2 {
            assert(is_roomy(area, rows@, 1));
        }
    }
    (parts[0], parts[1], parts[2])
}

/// Tabs above a free row above a text above a one-row footer.
pub fn tabs_text_and_footer(area: Rect) -> (r: (Rect, Rect, Rect, Rect))
    ensures
        seq![r.0, r.1, r.2, r.3] == split_area(area, tabbed_rows()),
        area.y + area.height <= u16::MAX && area.height >= 4 ==> seq![r.0, r.1, r.2, r.3]
            == filled(area, tabbed_rows()),
{
    let rows: Vec<Rows> = vec![
        Rows::Exactly(1),
        Rows::Exactly(1),
        Rows::AtLeast(1),
        Rows::Exactly(1),
    ];
    assert(rows@ =~= tabbed_rows());
    let parts: Vec<Rect> = split_rows(area, &rows);
    assert(parts@ =~= seq![parts@[0], parts@[1], parts@[2], parts@[3]]);
    proof {
        lemma_tabbed_rows();
        if area.y + area.height <= u16::MAX && area.height >= 4 {
            assert(is_roomy(area, rows@, 2));
        }
    }
    (parts[0], parts[1], parts[2], parts[3])
}

/// A text above a gauge.
pub fn text_and_gauge(area: Rect) -> (r: (Rect, Rect))
    ensures
        seq![r.0, r.1] == split_area(area, gauge_rows()),
{
    let rows: Vec<Rows> = vec![Rows::Exactly(2), Rows::Exactly(1)];
    assert(rows@ =~= gauge_rows());
    let parts: Vec<Rect> = split_rows(area, &rows);
    assert(parts@ =~= seq![parts@[0], parts@[1]]);
    (parts[0], parts[1])
}

proof fn lemma_panel_rows(heading: u16)
    ensures
        fixed_rows(panel_rows(heading)) == heading + 1,
{
    reveal_with_fuel(fixed_rows, 4);
    let rows = panel_rows(heading);
    assert(rows.drop_last().last() == Rows::AtLeast(1));
    assert(rows.drop_last().drop_last().last() == Rows::Exactly(heading));
}

proof fn lemma_tabbed_rows()
    ensures
        fixed_rows(tabbed_rows()) == 3,
{
    reveal_with_fuel(fixed_rows, 5);
    let rows = tabbed_rows();
    assert(rows.drop_last().last() == Rows::AtLeast(1));
    assert(rows.drop_last().drop_last().last() == Rows::Exactly(1));
    assert(rows.drop_last().drop_last().drop_last().last() == Rows::Exactly(1));
}

/// The parts of a panel with rows enough lie one above the other and cover it: the heading has its
/// rows, the footer has one, and the text has at least one.
pub proof fn law_panel_parts_tile_the_panel(area: Rect, heading: u16)
    requires
        area.y + area.height <= u16::MAX,
        area.height >= heading + 2,
    ensures
        ({
            let parts = filled(area, panel_rows(heading));
            &&& parts.len() == 3
            &&& forall|i: int|
                0 <= i < 3 ==> (#[trigger] parts[i]).x == area.x && parts[i].width == area.width
            &&& parts[0].y == area.y && parts[0].height == heading
            &&& parts[1].y == parts[0].y + parts[0].height && parts[1].height >= 1
            &&& parts[2].y == parts[1].y + parts[1].height && parts[2].height == 1
            &&& parts[0].height + parts[1].height + parts[2].height == area.height
        }),
{
    lemma_panel_rows(heading);
    reveal_with_fuel(rows_above, 3);
}

/// Rows that the composer asks for: one per line of its text, one per visible suggestion, the
/// status if there is one, the permission-mode line and two borders; at least three, and no more
/// than leaves the transcript three rows.
pub open spec fn composer_rows(s: AppState, height: int) -> int {
    let wanted = text::split_on(s.composer.chat_input@, '\n').len() + least(
        commands::suggestions(s.composer.chat_input@, s.custom_commands@).len() as int,
        MAX_VISIBLE_SUGGESTIONS as int,
    ) + (if s.status is Some {
        1int
    } else {
        0int
    }) + 3;
    let fitting = least(least(wanted, u16::MAX as int), left_over(height, 3));
    if fitting > 3 {
        fitting
    } else {
        3
    }
}

/// The transcript's area and the composer's.
pub open spec fn chat_areas(s: AppState, area: Rect) -> (Rect, Rect) {
    stacked(area, MIN_HISTORY_ROWS, composer_rows(s, area.height as int) as u16)
}

/// Splits the chat screen into its transcript and composer areas. Drawing and finding what the
/// mouse points at share it, so that both agree exactly on where the transcript stands.
pub fn chat_layout(area: Rect, s: &AppState) -> (r: (Rect, Rect))
    ensures
        r == chat_areas(*s, area),
{
    let list: Vec<(String, String)> = slash_suggestions(
        s.composer.chat_input.as_str(),
        &s.custom_commands,
    );
    assert(list@.len() == commands::pairs(list@).len());
    let input: Vec<String> = split(s.composer.chat_input.as_str(), '\n');
    assert(input@.len() == text::texts(input@).len());
    let shown: usize = if list.len() < MAX_VISIBLE_SUGGESTIONS {
        list.len()
    } else {
        MAX_VISIBLE_SUGGESTIONS
    };
    let status: usize = if s.status.is_some() {
        1
    } else {
        0
    };
    let wanted: usize = input.len().saturating_add(shown + status + 3);
    let bounded: u16 = if wanted < u16::MAX as usize {
        wanted as u16
    } else {
        u16::MAX
    };
    let room: u16 = area.height.saturating_sub(3);
    let fitting: u16 = if bounded < room {
        bounded
    } else {
        room
    };
    let rows: u16 = if fitting > 3 {
        fitting
    } else {
        3
    };
    let asked: Vec<Rows> = vec![Rows::AtLeast(MIN_HISTORY_ROWS), Rows::Exactly(rows)];
    assert(asked@ =~= seq![Rows::AtLeast(MIN_HISTORY_ROWS), Rows::Exactly(rows)]);
    let parts: Vec<Rect> = split_rows(area, &asked);
    proof {
        let both = stacked(area, MIN_HISTORY_ROWS, rows);
        assert(parts@ == seq![both.0, both.1]);
    }
    (parts[0], parts[1])
}

/// The two areas of the chat screen lie one above the other and cover it, and on a terminal that
/// the interface is drawn in each has at least three rows.
pub proof fn law_chat_areas_tile_the_screen(s: AppState, area: Rect)
    requires
        area.y + area.height <= u16::MAX,
    ensures
        ({
            let (history, below) = chat_areas(s, area);
            &&& history.x == area.x && below.x == area.x
            &&& history.width == area.width && below.width == area.width
            &&& history.y == area.y
            &&& below.y == history.y + history.height
            &&& history.height + below.height == area.height
            &&& area.height >= MIN_HEIGHT ==> history.height >= 3 && below.height >= 3
            &&& forall|column: int, row: int| #[trigger]
                area.holds(column, row) <==> history.holds(column, row) || below.holds(column, row)
        }),
{
}

/// Where the terminal's cursor stands in the composer.
pub open spec fn cursor_cell(s: AppState, area: Rect) -> (int, int) {
    let (line, col) = composer::line_col(
        text::split_on(s.composer.chat_input@, '\n'),
        0,
        s.composer.cursor as int,
    );
    (
        area.x + 3 + if col <= u16::MAX {
            col
        } else {
            0
        },
        area.y + 1 + if line <= u16::MAX {
            line
        } else {
            0
        },
    )
}

/// The cell of the terminal's cursor in the composer, two cells after the border; nothing while a
/// prompt takes the keys, or where the cell is off the terminal.
pub fn composer_cursor(s: &AppState, area: Rect) -> (r: Option<(u16, u16)>)
    requires
        s.wf(),
    ensures
        match r {
            Some((x, y)) => !s.is_interrupted() && s.updates.pending_update is None && cursor_cell(
                *s,
                area,
            ) == (x as int, y as int),
            None => s.is_interrupted() || s.updates.pending_update is Some || cursor_cell(
                *s,
                area,
            ).0 > u16::MAX || cursor_cell(*s, area).1 > u16::MAX,
        },
{
    if s.interrupted() || s.updates.pending_update.is_some() {
        return None;
    }
    let lines: Vec<String> = split(s.composer.chat_input.as_str(), '\n');
    let (line, col) = cursor_line_col(&lines, s.composer.cursor);
    let column: u64 = if col <= u16::MAX as usize {
        area.x as u64 + 3 + col as u64
    } else {
        area.x as u64 + 3
    };
    let row: u64 = if line <= u16::MAX as usize {
        area.y as u64 + 1 + line as u64
    } else {
        area.y as u64 + 1
    };
    if column <= u16::MAX as u64 && row <= u16::MAX as u64 {
        Some((column as u16, row as u16))
    } else {
        None
    }
}

} // verus!
