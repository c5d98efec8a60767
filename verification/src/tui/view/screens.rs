//! The full screens before and beside the chat.

use vstd::prelude::*;

use crate::protocol::SessionSummary;
use crate::text;
use crate::text::{cat2, cat3, cat5, join, number, repeat};
use crate::tui::layout;
use crate::tui::state;
use crate::tui::state::{effort_label, effort_title, AppState, EFFORT_COUNT, SETTINGS_COUNT};

verus! {

/// A stand-in for a secret: one dot per character.
pub open spec fn hidden(secret: Seq<char>) -> Seq<char> {
    text::repeated("•"@, secret.len())
}

/// Renders a masked stand-in for a secret value.
pub fn masked(value: &str) -> (r: String)
    ensures
        r@ == hidden(value@),
{
    repeat("•", value.unicode_len())
}

/// The cursor of a list row.
pub open spec fn pointer(selected: bool) -> Seq<char> {
    if selected {
        ">"@
    } else {
        " "@
    }
}

/// The cursor of a list row.
pub fn pointer_of(selected: bool) -> (r: &'static str)
    ensures
        r@ == pointer(selected),
{
    if selected {
        ">"
    } else {
        " "
    }
}

/// The part of a list that is visible when the selected row is kept in view at the bottom: the
/// first row and how many.
pub open spec fn visible(count: int, selected: int, rows: int) -> (int, int) {
    let height = if rows < 1 {
        1
    } else {
        rows
    };
    let first = layout::left_over(selected, height - 1);
    (first, layout::least(layout::left_over(count, first), height))
}

/// Computes the part of a list that is visible.
pub fn visible_rows(count: usize, selected: usize, rows: usize) -> (r: (usize, usize))
    ensures
        r.0 == visible(count as int, selected as int, rows as int).0,
        r.1 == visible(count as int, selected as int, rows as int).1,
        r.0 + r.1 <= count || r.1 == 0,
{
    let height: usize = if rows < 1 {
        1
    } else {
        rows
    };
    let first: usize = selected.saturating_sub(height - 1);
    let left: usize = count.saturating_sub(first);
    (
        first,
        if left < height {
            left
        } else {
            height
        },
    )
}

/// The selected row of a list is among those shown.
pub proof fn law_the_selected_row_is_visible(count: int, selected: int, rows: int)
    requires
        0 <= selected < count,
    ensures
        ({
            let (first, shown) = visible(count, selected, rows);
            first <= selected < first + shown <= count
        }),
{
}

// ---------------------------------------------------------------------------------------------
// Onboarding
// ---------------------------------------------------------------------------------------------

/// What onboarding shows; the key itself is masked.
pub open spec fn onboarding(s: AppState) -> Seq<char> {
    let asked = "NVIDIA API key:\n\nEnter your key. It is validated immediately and stored only in your system credential store afterward — never in plain configuration files.\n\nPrompts and selected project context are sent to NVIDIA NIM once you start chatting.\n\n"@
        + hidden(s.pickers.credential_input@);
    match s.status {
        Some(status) => asked + "\n\n"@ + status@,
        None => asked,
    }
}

/// The text of the onboarding screen.
pub fn onboarding_text(s: &AppState) -> (r: String)
    ensures
        r@ == onboarding(*s),
{
    let dots: String = masked(s.pickers.credential_input.as_str());
    let mut r: String = cat2(
        "NVIDIA API key:\n\nEnter your key. It is validated immediately and stored only in your system credential store afterward — never in plain configuration files.\n\nPrompts and selected project context are sent to NVIDIA NIM once you start chatting.\n\n",
        dots.as_str(),
    );
    match &s.status {
        Some(status) => {
            r.append("\n\n");
            r.append(status.as_str());
        },
        None => {},
    }
    r
}

/// What onboarding shows of the credential depends on nothing but its length.
pub proof fn law_onboarding_hides_the_key(a: AppState, b: AppState)
    requires
        a.status == b.status,
        a.pickers.credential_input@.len() == b.pickers.credential_input@.len(),
    ensures
        onboarding(a) == onboarding(b),
{
}

// ---------------------------------------------------------------------------------------------
// The pickers
// ---------------------------------------------------------------------------------------------

/// The rows of the model picker.
pub open spec fn model_rows(s: AppState, rows: int) -> Seq<Seq<char>> {
    let (first, shown) = visible(
        s.pickers.models@.len() as int,
        s.pickers.selected_model as int,
        rows,
    );
    Seq::new(
        shown as nat,
        |i: int|
            pointer(first + i == s.pickers.selected_model) + " "@ + s.pickers.models@[first + i]@,
    )
}

/// The text of the model picker, in an area of the given height.
pub fn model_picker_text(s: &AppState, height: u16) -> (r: String)
    ensures
        r@ == text::joined(model_rows(*s, layout::left_over(height as int, 2)), "\n"@),
{
    let (first, shown) = visible_rows(
        s.pickers.models.len(),
        s.pickers.selected_model,
        height.saturating_sub(2) as usize,
    );
    let ghost all = model_rows(*s, layout::left_over(height as int, 2));
    let mut list: Vec<String> = Vec::new();
    let mut i: usize = 0;
    while i < shown
        invariant
            i <= shown,
            first + shown <= s.pickers.models@.len() || shown == 0,
            all == model_rows(*s, layout::left_over(height as int, 2)),
            all.len() == shown,
            first == visible(
                s.pickers.models@.len() as int,
                s.pickers.selected_model as int,
                layout::left_over(height as int, 2),
            ).0,
            list@.len() == i,
            forall|j: int| 0 <= j < i ==> (#[trigger] list@[j])@ == all[j],
        decreases shown - i,
    {
        let at: usize = first + i;
        list.push(
            cat3(
                pointer_of(at == s.pickers.selected_model),
                " ",
                s.pickers.models[at].as_str(),
            ),
        );
        assert(list@[i as int]@ == all[i as int]);
        i = i + 1;
    }
    assert(text::texts(list@) =~= all);
    join(&list, "\n")
}

/// The label of a row of the settings menu.
pub open spec fn setting_label(row: int) -> Seq<char> {
    if row == 0 {
        "Change API key"@
    } else if row == 1 {
        "Change model"@
    } else {
        "Change reasoning effort"@
    }
}

/// One row of the settings menu.
pub open spec fn setting_row(s: AppState, row: int) -> Seq<char> {
    let detail = if row == 1 {
        " (current: "@ + (match s.pickers.current_model {
            Some(m) => m@,
            None => "none selected"@,
        }) + ")"@
    } else if row == 2 {
        " (current: "@ + state::effort_name(
            state::effort_row(text::opt_text(s.pickers.current_effort)),
        ) + ")"@
    } else {
        Seq::empty()
    };
    pointer(row == s.pickers.settings_selected) + " "@ + setting_label(row) + detail
}

/// The text of the settings menu.
pub open spec fn settings(s: AppState) -> Seq<char> {
    setting_row(s, 0) + "\n"@ + setting_row(s, 1) + "\n"@ + setting_row(s, 2)
}

fn format_setting(s: &AppState, row: usize) -> (r: String)
    requires
        row < SETTINGS_COUNT,
    ensures
        r@ == setting_row(*s, row as int),
{
    let label: &str = if row == 0 {
        "Change API key"
    } else if row == 1 {
        "Change model"
    } else {
        "Change reasoning effort"
    };
    let detail: String = if row == 1 {
        let model: &str = match &s.pickers.current_model {
            Some(m) => m.as_str(),
            None => "none selected",
        };
        cat3(" (current: ", model, ")")
    } else if row == 2 {
        cat3(" (current: ", effort_label(&s.pickers.current_effort), ")")
    } else {
        String::new()
    };
    text::cat4(pointer_of(row == s.pickers.settings_selected), " ", label, detail.as_str())
}

/// The text of the settings menu.
pub fn settings_text(s: &AppState) -> (r: String)
    ensures
        r@ == settings(*s),
{
    let a: String = format_setting(s, 0);
    let b: String = format_setting(s, 1);
    let c: String = format_setting(s, 2);
    cat5(a.as_str(), "\n", b.as_str(), "\n", c.as_str())
}

/// The rows of the effort picker.
pub open spec fn effort_rows(s: AppState) -> Seq<Seq<char>> {
    Seq::new(
        EFFORT_COUNT as nat,
        |i: int| pointer(i == s.pickers.selected_effort) + " "@ + state::effort_name(i),
    )
}

/// The text of the effort picker.
pub fn effort_picker_text(s: &AppState) -> (r: String)
    ensures
        r@ == text::joined(effort_rows(*s), "\n"@),
{
    let ghost all = effort_rows(*s);
    let mut list: Vec<String> = Vec::new();
    let mut i: usize = 0;
    while i < EFFORT_COUNT
        invariant
            i <= EFFORT_COUNT,
            all == effort_rows(*s),
            list@.len() == i,
            forall|j: int| 0 <= j < i ==> (#[trigger] list@[j])@ == all[j],
        decreases EFFORT_COUNT - i,
    {
        list.push(cat3(pointer_of(i == s.pickers.selected_effort), " ", effort_title(i)));
        assert(list@[i as int]@ == all[i as int]);
        i = i + 1;
    }
    assert(text::texts(list@) =~= all);
    join(&list, "\n")
}

// ---------------------------------------------------------------------------------------------
// Saved sessions
// ---------------------------------------------------------------------------------------------

/// Whole minutes since a moment; none for a moment that is still to come.
pub open spec fn minutes_since(then: int, now: int) -> int {
    layout::left_over(
        now,
        if then < 0 {
            0
        } else {
            then
        },
    ) / 60
}

/// How long ago a moment was: in minutes within the hour, in hours within the day, and by the
/// given date beyond that.
pub open spec fn ago(then: int, now: int, date: Seq<char>) -> Seq<char> {
    let minutes = minutes_since(then, now);
    if minutes < 1 {
        "just now"@
    } else if minutes < 60 {
        if minutes == 1 {
            "1 minute ago"@
        } else {
            text::decimal(minutes as nat) + " minutes ago"@
        }
    } else if minutes < 24 * 60 {
        if minutes / 60 == 1 {
            "1 hour ago"@
        } else {
            text::decimal((minutes / 60) as nat) + " hours ago"@
        }
    } else {
        date
    }
}

/// Says how long ago a moment was, given the clock and the moment's local date.
pub fn describe_age(unix_seconds: i64, now: u64, date: &str) -> (r: String)
    ensures
        r@ == ago(unix_seconds as int, now as int, date@),
{
    let then: u64 = if unix_seconds < 0 {
        0
    } else {
        unix_seconds as u64
    };
    let minutes: u64 = now.saturating_sub(then) / 60;
    if minutes < 1 {
        "just now".to_owned()
    } else if minutes < 60 {
        if minutes == 1 {
            "1 minute ago".to_owned()
        } else {
            let n: String = number(minutes);
            cat2(n.as_str(), " minutes ago")
        }
    } else if minutes < 1440 {
        if minutes / 60 == 1 {
            "1 hour ago".to_owned()
        } else {
            let n: String = number(minutes / 60);
            cat2(n.as_str(), " hours ago")
        }
    } else {
        date.to_owned()
    }
}

/// A moment well inside the range of years that `chrono` can hold.
pub const LAST_DATE_SECONDS: i64 = 8_000_000_000_000;

/// Asks `chrono::Local` how many seconds the machine's local time is ahead of UTC at a moment.
///
/// Which offset it is depends on the machine's time zone, so nothing is claimed but what
/// `chrono::FixedOffset` keeps of every offset: it is less than a day either way.
#[verifier::external_body]
fn local_offset(unix_seconds: i64) -> (r: i32)
    requires
        0 <= unix_seconds <= LAST_DATE_SECONDS,
    ensures
        -86_400 < r < 86_400,
{
    match chrono::DateTime::<chrono::Utc>::from_timestamp(unix_seconds, 0) {
        Some(moment) => moment.with_timezone(&chrono::Local).offset().local_minus_utc(),
        None => 0,
    }
}

/// What `chrono` writes for a moment at an offset from UTC, as month, day, year, and time of day with
/// AM or PM.
pub uninterp spec fn date_text(seconds: int, offset: int) -> Seq<char>;

/// Whether a text holds no small letter from a to z.
pub open spec fn has_no_small_letter(t: Seq<char>) -> bool {
    forall|i: int| 0 <= i < t.len() ==> !(97 <= (#[trigger] t[i]) as u32 <= 122)
}

/// Writes a moment with `chrono::DateTime::format` at the offset that `chrono::FixedOffset::east_opt`
/// makes. The contract claims that the text is a function of the moment and the offset, and that it
/// has no small letter: beside digits and signs there is only AM or PM.
#[verifier::external_body]
fn write_date(unix_seconds: i64, offset: i32) -> (r: String)
    requires
        0 <= unix_seconds <= LAST_DATE_SECONDS,
        -86_400 < offset < 86_400,
    ensures
        r@ == date_text(unix_seconds as int, offset as int),
        has_no_small_letter(r@),
{
    match (
        chrono::DateTime::<chrono::Utc>::from_timestamp(unix_seconds, 0),
        chrono::FixedOffset::east_opt(offset),
    ) {
        (Some(moment), Some(zone)) => {
            moment.with_timezone(&zone).format("%m/%d/%Y, %-I:%M %p").to_string()
        },
        _ => String::new(),
    }
}

/// The moment that a timestamp stands for: none before the epoch.
pub open spec fn moment(unix_seconds: int) -> int {
    if unix_seconds < 0 {
        0
    } else {
        unix_seconds
    }
}

/// Whether the age of a moment can be told: its date is needed only where it is over a day old, and
/// then it must be one that the calendar can hold.
pub open spec fn can_be_told(unix_seconds: int, now: int) -> bool {
    unix_seconds <= LAST_DATE_SECONDS || minutes_since(unix_seconds, now) < 24 * 60
}

/// Tells whether the age of a moment can be told.
pub fn is_datable(unix_seconds: i64, now: u64) -> (r: bool)
    ensures
        r == can_be_told(unix_seconds as int, now as int),
{
    unix_seconds <= LAST_DATE_SECONDS || now.saturating_sub(unix_seconds as u64) / 60 < 1440
}

/// Formats a Unix timestamp as minutes or hours ago within a day, or as the date and time at the
/// machine's offset from UTC beyond that.
pub fn format_relative_time(unix_seconds: i64, now: u64) -> (r: String)
    requires
        can_be_told(unix_seconds as int, now as int),
    ensures
        exists|offset: int|
            -86_400 < offset < 86_400 && r@ == #[trigger] ago(
                unix_seconds as int,
                now as int,
                date_text(moment(unix_seconds as int), offset),
            ),
        minutes_since(unix_seconds as int, now as int) >= 24 * 60 ==> !text::contains_text(
            r@,
            "ago"@,
        ),
{
    let then: i64 = if unix_seconds < 0 {
        0
    } else {
        unix_seconds
    };
    if then <= LAST_DATE_SECONDS {
        let offset: i32 = local_offset(then);
        let date: String = write_date(then, offset);
        let r: String = describe_age(unix_seconds, now, date.as_str());
        assert(r@ == ago(
            unix_seconds as int,
            now as int,
            date_text(moment(unix_seconds as int), offset as int),
        ));
        proof {
            reveal_strlit("ago");
            if text::contains_text(date@, "ago"@) {
                let i = choose|i: int| text::occurs_at(date@, "ago"@, i);
                assert(date@.subrange(i, i + 3)[0] == date@[i]);
            }
        }
        r
    } else {
        let r: String = describe_age(unix_seconds, now, "");
        assert(r@ == ago(
            unix_seconds as int,
            now as int,
            date_text(moment(unix_seconds as int), 0),
        ));
        r
    }
}

/// One row of the session picker.
pub open spec fn session_row(session: SessionSummary, selected: bool, when: Seq<char>) -> Seq<char> {
    pointer(selected) + " "@ + session.name@ + " — "@ + when + "\n    "@ + session.summary@
}

fn format_session_row(session: &SessionSummary, selected: bool, when: &str) -> (r: String)
    ensures
        r@ == session_row(*session, selected, when@),
{
    let mut r: String = text::cat4(pointer_of(selected), " ", session.name.as_str(), " — ");
    r.append(when);
    r.append("\n    ");
    r.append(session.summary.as_str());
    r
}

/// What the session picker shows, given how long ago each session was used.
pub open spec fn session_list(s: AppState, rows: int, whens: Seq<Seq<char>>) -> Seq<char> {
    let sessions = s.pickers.sessions@;
    let (first, shown) = visible(
        sessions.len() as int,
        s.pickers.selected_session as int,
        rows,
    );
    if sessions.len() == 0 {
        "No saved sessions yet. Send a message, then /new starts another."@
    } else {
        text::joined(
            Seq::new(
                shown as nat,
                |i: int|
                    session_row(
                        sessions[first + i],
                        first + i == s.pickers.selected_session,
                        whens[first + i],
                    ),
            ),
            "\n"@,
        )
    }
}

/// The text of the session picker, given how long ago each session was used.
pub fn session_list_text(s: &AppState, height: u16, whens: &Vec<String>) -> (r: String)
    requires
        whens@.len() == s.pickers.sessions@.len(),
    ensures
        r@ == session_list(*s, layout::left_over(height as int, 2), text::texts(whens@)),
{
    if s.pickers.sessions.len() == 0 {
        return "No saved sessions yet. Send a message, then /new starts another.".to_owned();
    }
    let (first, shown) = visible_rows(
        s.pickers.sessions.len(),
        s.pickers.selected_session,
        height.saturating_sub(2) as usize,
    );
    let ghost sessions = s.pickers.sessions@;
    let ghost all = Seq::new(
        shown as nat,
        |i: int|
            session_row(
                sessions[first + i],
                first + i == s.pickers.selected_session,
                text::texts(whens@)[first + i],
            ),
    );
    let mut list: Vec<String> = Vec::new();
    let mut i: usize = 0;
    while i < shown
        invariant
            i <= shown,
            sessions == s.pickers.sessions@,
            whens@.len() == sessions.len(),
            first + shown <= s.pickers.sessions.len() || shown == 0,
            all == Seq::new(
                shown as nat,
                |i: int|
                    session_row(
                        sessions[first + i],
                        first + i == s.pickers.selected_session,
                        text::texts(whens@)[first + i],
                    ),
            ),
            list@.len() == i,
            forall|j: int| 0 <= j < i ==> (#[trigger] list@[j])@ == all[j],
        decreases shown - i,
    {
        let at: usize = first + i;
        assert(text::texts(whens@)[at as int] == whens@[at as int]@);
        list.push(
            format_session_row(
                &s.pickers.sessions[at],
                at == s.pickers.selected_session,
                whens[at].as_str(),
            ),
        );
        assert(list@[i as int]@ == all[i as int]);
        i = i + 1;
    }
    assert(text::texts(list@) =~= all);
    join(&list, "\n")
}

/// Whether a text tells how long ago a session was used, by the given clock reading.
pub open spec fn tells_age(session: SessionSummary, now: int, when: Seq<char>) -> bool {
    exists|offset: int|
        -86_400 < offset < 86_400 && when == #[trigger] ago(
            session.last_used_at_unix as int,
            now,
            date_text(moment(session.last_used_at_unix as int), offset),
        )
}

/// Whether a text is the session picker's with every session's age told by the clock.
pub open spec fn shows_sessions(s: AppState, rows: int, shown: Seq<char>) -> bool {
    exists|whens: Seq<Seq<char>>|
        {
            &&& whens.len() == s.pickers.sessions@.len()
            &&& forall|i: int|
                0 <= i < whens.len() ==> tells_age(
                    s.pickers.sessions@[i],
                    s.unix_seconds as int,
                    #[trigger] whens[i],
                )
            &&& shown == #[trigger] session_list(s, rows, whens)
        }
}

/// The text of the session picker, in an area of the given height.
pub fn session_picker_text(s: &AppState, height: u16) -> (r: String)
    requires
        forall|i: int|
            0 <= i < s.pickers.sessions@.len() ==> can_be_told(
                (#[trigger] s.pickers.sessions@[i]).last_used_at_unix as int,
                s.unix_seconds as int,
            ),
    ensures
        shows_sessions(*s, layout::left_over(height as int, 2), r@),
{
    let mut whens: Vec<String> = Vec::new();
    let mut i: usize = 0;
    while i < s.pickers.sessions.len()
        invariant
            i <= s.pickers.sessions@.len(),
            whens@.len() == i,
            forall|k: int|
                0 <= k < s.pickers.sessions@.len() ==> can_be_told(
                    (#[trigger] s.pickers.sessions@[k]).last_used_at_unix as int,
                    s.unix_seconds as int,
                ),
            forall|j: int|
                0 <= j < i ==> tells_age(
                    s.pickers.sessions@[j],
                    s.unix_seconds as int,
                    (#[trigger] whens@[j])@,
                ),
        decreases s.pickers.sessions@.len() - i,
    {
        let then: i64 = s.pickers.sessions[i].last_used_at_unix;
        whens.push(format_relative_time(then, s.unix_seconds));
        i = i + 1;
    }
    let ghost all = text::texts(whens@);
    assert forall|j: int| 0 <= j < all.len() implies tells_age(
        s.pickers.sessions@[j],
        s.unix_seconds as int,
        #[trigger] all[j],
    ) by {
        assert(all[j] == whens@[j]@);
    }
    session_list_text(s, height, &whens)
}

/// A secret is shown as dots, as many as it has characters.
pub proof fn law_a_secret_is_shown_as_dots(secret: Seq<char>)
    ensures
        hidden(secret).len() == secret.len(),
        forall|i: int| 0 <= i < secret.len() ==> #[trigger] hidden(secret)[i] == '•',
{
    lemma_dots(secret.len());
}

proof fn lemma_dots(n: nat)
    ensures
        text::repeated("•"@, n).len() == n,
        forall|i: int| 0 <= i < n ==> #[trigger] text::repeated("•"@, n)[i] == '•',
    decreases n,
{
    reveal_strlit("•");
    if n > 0 {
        lemma_dots((n - 1) as nat);
    }
}

/// A list shows as many rows as there are or as fit. It begins with its first row, and moves on just
/// as far as the selected row makes it.
pub proof fn law_a_list_fills_its_rows(count: int, selected: int, rows: int)
    requires
        0 <= selected < count,
        rows >= 1,
    ensures
        ({
            let (first, shown) = visible(count, selected, rows);
            &&& shown == (if count < rows {
                count
            } else {
                rows
            })
            &&& selected < rows ==> first == 0
            &&& selected >= rows ==> first + rows - 1 == selected
        }),
{
}

/// The age of a moment is told in full minutes, from an hour on in full hours, and from a day on by
/// its date. A moment of less than a minute ago, or still to come, is just now.
pub proof fn law_an_age_is_told_in_full_units(then: int, now: int, n: nat, date: Seq<char>)
    requires
        0 <= then,
    ensures
        now < then + 60 ==> ago(then, now, date) == "just now"@,
        then + 60 <= now < then + 120 ==> ago(then, now, date) == "1 minute ago"@,
        2 <= n < 60 && then + 60 * n <= now < then + 60 * (n + 1) ==> ago(then, now, date)
            == text::decimal(n) + " minutes ago"@,
        then + 3600 <= now < then + 7200 ==> ago(then, now, date) == "1 hour ago"@,
        2 <= n < 24 && then + 3600 * n <= now < then + 3600 * (n + 1) ==> ago(then, now, date)
            == text::decimal(n) + " hours ago"@,
        then + 86_400 <= now ==> ago(then, now, date) == date,
{
}

} // verus!
