//! The transcript as lines of text.

use vstd::prelude::*;

use crate::protocol::{AgentActivityState, ToolActivityStatus};
use crate::text;
use crate::text_laws;
use crate::text::{cat2, cat3, cat5, join, lines, number, repeat};
use crate::tui::entry::ChatEntry;
use crate::tui::run::RunVisibility;
use crate::tui::state::AppState;
use crate::tui::wrap;
use crate::tui::wrap::{hash_lines, wrap_lines_tagged, LineKind};

verus! {

/// Lines of tool output shown while it is collapsed.
pub const COLLAPSED_OUTPUT_LINES: usize = 5;

/// Lines of tool output shown while it is expanded.
pub const EXPANDED_OUTPUT_LINES: usize = 200;

/// The row of the wordmark at the top of the transcript.
pub open spec fn wordmark(row: int) -> Seq<char> {
    if row == 0 || row == 4 {
        "█████ █████ █████ █████ ████  █████"@
    } else if row == 1 {
        "█     █   █ █     █   █ █   █ █    "@
    } else if row == 2 {
        "█  ██ █   █ █     █   █ █   █ ████ "@
    } else {
        "█   █ █   █ █     █   █ █   █ █    "@
    }
}

/// The banner: the wordmark, the version with the active model, and the directory.
pub open spec fn banner(s: AppState) -> Seq<Seq<char>> {
    let model = match s.pickers.current_model {
        Some(m) => m@,
        None => "no model selected"@,
    };
    let head = seq![
        wordmark(0),
        wordmark(1),
        wordmark(2),
        wordmark(3),
        wordmark(4),
        Seq::empty(),
        "Gocode v"@ + s.session.version@ + " · "@ + model + " · NVIDIA NIM"@,
    ];
    match s.session.current_directory {
        Some(d) => head.push(d@).push(Seq::empty()),
        None => head.push(Seq::empty()),
    }
}

/// Builds the scrolling banner: the wordmark, version, active model, and working directory.
pub fn banner_lines(s: &AppState) -> (r: Vec<String>)
    ensures
        text::texts(r@) == banner(*s),
{
    let model: &str = match &s.pickers.current_model {
        Some(m) => m.as_str(),
        None => "no model selected",
    };
    let mut r: Vec<String> = Vec::new();
    r.push("█████ █████ █████ █████ ████  █████".to_owned());
    r.push("█     █   █ █     █   █ █   █ █    ".to_owned());
    r.push("█  ██ █   █ █     █   █ █   █ ████ ".to_owned());
    r.push("█   █ █   █ █     █   █ █   █ █    ".to_owned());
    r.push("█████ █████ █████ █████ ████  █████".to_owned());
    r.push(String::new());
    r.push(cat5("Gocode v", s.session.version.as_str(), " · ", model, " · NVIDIA NIM"));
    match &s.session.current_directory {
        Some(directory) => r.push(directory.clone()),
        None => {},
    }
    r.push(String::new());
    assert(text::texts(r@) =~= banner(*s));
    r
}

/// Plain lines.
pub open spec fn plain(lines: Seq<Seq<char>>) -> Seq<(Seq<char>, LineKind)> {
    wrap::tag_rows(lines, LineKind::Normal)
}

/// What is shown of the run in progress, above the conversation.
pub open spec fn run_head(v: RunVisibility, now_ms: u64) -> Seq<(Seq<char>, LineKind)> {
    let action = match v.current_action {
        Some(a) => a@,
        None => "Preparando a tarefa"@,
    };
    plain(
        seq![
            "● "@ + v.phase.name() + " · "@ + action + " · "@ + text::decimal(
                v.elapsed_seconds(now_ms),
            ) + "s"@,
            v.impact_text(),
            v.plan_text(),
            Seq::empty(),
        ],
    )
}

/// The mark of a tool call's status.
pub open spec fn status_mark(status: ToolActivityStatus) -> Seq<char> {
    match status {
        ToolActivityStatus::Started => "…"@,
        ToolActivityStatus::Succeeded => "✓"@,
        ToolActivityStatus::Failed => "✗"@,
        ToolActivityStatus::Denied | ToolActivityStatus::Cancelled => "⊘"@,
    }
}

/// The lines of a message: the first after a prefix, the others indented under it.
pub open spec fn message_lines(prefix: Seq<char>, t: Seq<char>, kind: LineKind) -> Seq<
    (Seq<char>, LineKind),
> {
    let all = text::lines_of(t);
    Seq::new(
        all.len(),
        |i: int|
            (
                if i == 0 {
                    prefix + all[i]
                } else {
                    text::repeated(" "@, prefix.len()) + all[i]
                },
                kind,
            ),
    )
}

/// The lines of a tool's output: as many as are shown, and how many are not.
pub open spec fn output_lines(output: Seq<char>, expanded: bool) -> Seq<Seq<char>> {
    let all = text::lines_of(output);
    let limit = if expanded {
        EXPANDED_OUTPUT_LINES as int
    } else {
        COLLAPSED_OUTPUT_LINES as int
    };
    let shown = if all.len() > limit {
        limit
    } else {
        all.len() as int
    };
    let head = Seq::new(shown as nat, |i: int| "      "@ + all[i]);
    if output.len() == 0 {
        Seq::empty()
    } else if all.len() > limit {
        head.push(
            "      … "@ + text::decimal((all.len() - limit) as nat) + " more line(s) (Ctrl+O to "@
                + (if expanded {
                "collapse"@
            } else {
                "expand"@
            }) + ")"@,
        )
    } else {
        head
    }
}

/// The lines of one entry, without the blank line that follows it.
pub open spec fn entry_lines(e: ChatEntry) -> Seq<(Seq<char>, LineKind)> {
    match e {
        ChatEntry::User(t) => message_lines(Seq::empty(), t@, LineKind::User),
        ChatEntry::Assistant(t) => message_lines("Gocode: "@, t@, LineKind::Normal),
        ChatEntry::Reasoning(t) => message_lines("Gocode (thinking): "@, t@, LineKind::Normal),
        ChatEntry::Tool { name, status, detail, output, expanded, .. } => plain(
            seq!["  "@ + status_mark(status) + " "@ + name@ + ": "@ + detail@] + output_lines(
                output@,
                expanded,
            ),
        ),
        ChatEntry::FileChanges(paths) => plain(
            seq!["  Modified files: "@ + text::joined(text::texts(paths@), ", "@)],
        ),
        ChatEntry::Warning(t) => plain(seq!["  ⚠ "@ + t@]),
        ChatEntry::Error(t) => plain(seq!["  ✗ "@ + t@]),
        ChatEntry::Info(t) => plain(seq!["  · "@ + t@]),
    }
}

/// The lines of the first `n` entries, a blank line after each.
pub open spec fn entries_lines(entries: Seq<ChatEntry>, n: int) -> Seq<(Seq<char>, LineKind)>
    decreases n,
{
    if n <= 0 {
        Seq::empty()
    } else {
        entries_lines(entries, n - 1) + entry_lines(entries[n - 1]).push(
            (Seq::empty(), LineKind::Normal),
        )
    }
}

/// The whole transcript as lines: the banner, the run in progress, and the conversation with what
/// goes on and what is queued, or an invitation where there is none yet.
pub open spec fn composed(s: AppState) -> Seq<(Seq<char>, LineKind)> {
    let head = plain(banner(s)) + (if s.transcript.activity is Some {
        run_head(s.transcript.run_visibility, s.clock_ms)
    } else {
        Seq::empty()
    });
    let entries = s.transcript.entries@;
    if entries.len() == 0 {
        head.push(("What can I help you build?"@, LineKind::Normal))
    } else {
        head + entries_lines(entries, entries.len() as int) + plain(
            match s.transcript.activity {
                Some(AgentActivityState::Thinking) => seq!["Gocode is thinking…"@],
                Some(AgentActivityState::RunningTools) => seq!["Gocode is running tools…"@],
                None => Seq::empty(),
            },
        ) + plain(
            match s.transcript.queued {
                Some(q) => seq!["Queued: "@ + q@],
                None => Seq::empty(),
            },
        )
    }
}

/// Adds a plain line.
fn push_plain(out: &mut Vec<(String, LineKind)>, line: String)
    ensures
        wrap::tagged(final(out)@) == wrap::tagged(old(out)@).push((line@, LineKind::Normal)),
{
    let ghost before = wrap::tagged(out@);
    let ghost added = line@;
    out.push((line, LineKind::Normal));
    assert(wrap::tagged(out@) =~= before.push((added, LineKind::Normal)));
}

/// Adds plain lines.
fn push_all_plain(out: &mut Vec<(String, LineKind)>, list: &Vec<String>)
    ensures
        wrap::tagged(final(out)@) == wrap::tagged(old(out)@) + plain(text::texts(list@)),
{
    let ghost start = wrap::tagged(out@);
    let ghost all = text::texts(list@);
    let mut i: usize = 0;
    assert(start + plain(all.take(0)) =~= start);
    while i < list.len()
        invariant
            i <= list@.len(),
            all == text::texts(list@),
            wrap::tagged(out@) == start + plain(all.take(i as int)),
        decreases list@.len() - i,
    {
        push_plain(out, list[i].clone());
        i = i + 1;
        assert(wrap::tagged(out@) =~= start + plain(all.take(i as int)));
    }
    assert(all.take(i as int) =~= all);
}

/// Adds the lines of a message, the first after a prefix and the others indented under it.
pub fn push_wrapped(out: &mut Vec<(String, LineKind)>, prefix: &str, t: &str, kind: LineKind)
    ensures
        wrap::tagged(final(out)@) == wrap::tagged(old(out)@) + message_lines(prefix@, t@, kind),
{
    let ghost start = wrap::tagged(out@);
    let ghost goal = message_lines(prefix@, t@, kind);
    let width: usize = prefix.unicode_len();
    let indent: String = repeat(" ", width);
    let all: Vec<String> = lines(t);
    let mut i: usize = 0;
    assert(start + goal.take(0) =~= start);
    while i < all.len()
        invariant
            i <= all@.len(),
            text::texts(all@) == text::lines_of(t@),
            indent@ == text::repeated(" "@, prefix@.len()),
            goal == message_lines(prefix@, t@, kind),
            wrap::tagged(out@) == start + goal.take(i as int),
        decreases all@.len() - i,
    {
        let line: String = if i == 0 {
            cat2(prefix, all[i].as_str())
        } else {
            cat2(indent.as_str(), all[i].as_str())
        };
        assert(text::texts(all@)[i as int] == all@[i as int]@);
        let ghost before = wrap::tagged(out@);
        let ghost added = line@;
        assert(goal[i as int] == (added, kind));
        out.push((line, kind));
        assert(wrap::tagged(out@) =~= before.push((added, kind)));
        i = i + 1;
        assert(wrap::tagged(out@) =~= start + goal.take(i as int));
    }
    assert(goal.take(i as int) =~= goal);
}

fn format_output(output: &str, expanded: bool) -> (r: Vec<String>)
    ensures
        text::texts(r@) == output_lines(output@, expanded),
{
    let mut r: Vec<String> = Vec::new();
    if output.is_empty() {
        assert(text::texts(r@) =~= output_lines(output@, expanded));
        return r;
    }
    let all: Vec<String> = lines(output);
    let limit: usize = if expanded {
        EXPANDED_OUTPUT_LINES
    } else {
        COLLAPSED_OUTPUT_LINES
    };
    let ghost source = text::lines_of(output@);
    let mut i: usize = 0;
    while i < all.len() && i < limit
        invariant
            i <= all@.len(),
            i <= limit,
            source == text::texts(all@),
            r@.len() == i,
            forall|j: int| 0 <= j < i ==> (#[trigger] r@[j])@ == "      "@ + source[j],
        decreases all@.len() - i,
    {
        assert(source[i as int] == all@[i as int]@);
        r.push(cat2("      ", all[i].as_str()));
        i = i + 1;
    }
    let ghost head = Seq::new(i as nat, |j: int| "      "@ + source[j]);
    assert(text::texts(r@) =~= head);
    if all.len() > limit {
        let hidden: String = number((all.len() - limit) as u64);
        let action: &str = if expanded {
            "collapse"
        } else {
            "expand"
        };
        r.push(
            cat5("      … ", hidden.as_str(), " more line(s) (Ctrl+O to ", action, ")"),
        );
    }
    assert(text::texts(r@) =~= output_lines(output@, expanded));
    r
}

fn mark_of(status: ToolActivityStatus) -> (r: &'static str)
    ensures
        r@ == status_mark(status),
{
    match status {
        ToolActivityStatus::Started => "…",
        ToolActivityStatus::Succeeded => "✓",
        ToolActivityStatus::Failed => "✗",
        ToolActivityStatus::Denied => "⊘",
        ToolActivityStatus::Cancelled => "⊘",
    }
}

fn push_entry(out: &mut Vec<(String, LineKind)>, e: &ChatEntry)
    ensures
        wrap::tagged(final(out)@) == wrap::tagged(old(out)@) + entry_lines(*e).push(
            (Seq::empty(), LineKind::Normal),
        ),
{
    let ghost start = wrap::tagged(out@);
    match e {
        ChatEntry::User(t) => {
            assert(""@ =~= Seq::<char>::empty()) by {
                reveal_strlit("");
            }
            push_wrapped(out, "", t.as_str(), LineKind::User);
        },
        ChatEntry::Assistant(t) => push_wrapped(out, "Gocode: ", t.as_str(), LineKind::Normal),
        ChatEntry::Reasoning(t) => push_wrapped(
            out,
            "Gocode (thinking): ",
            t.as_str(),
            LineKind::Normal,
        ),
        ChatEntry::Tool { name, status, detail, output, expanded, .. } => {
            let mut line: String = cat3("  ", mark_of(*status), " ");
            line.append(name.as_str());
            line.append(": ");
            line.append(detail.as_str());
            let ghost first = line@;
            push_plain(out, line);
            let shown: Vec<String> = format_output(output.as_str(), *expanded);
            push_all_plain(out, &shown);
            assert(wrap::tagged(out@) =~= start + plain(
                seq![first] + output_lines(output@, *expanded),
            ));
        },
        ChatEntry::FileChanges(paths) => {
            let list: String = join(paths, ", ");
            push_plain(out, cat2("  Modified files: ", list.as_str()));
            assert(wrap::tagged(out@) =~= start + entry_lines(*e));
        },
        ChatEntry::Warning(t) => {
            push_plain(out, cat2("  ⚠ ", t.as_str()));
            assert(wrap::tagged(out@) =~= start + entry_lines(*e));
        },
        ChatEntry::Error(t) => {
            push_plain(out, cat2("  ✗ ", t.as_str()));
            assert(wrap::tagged(out@) =~= start + entry_lines(*e));
        },
        ChatEntry::Info(t) => {
            push_plain(out, cat2("  · ", t.as_str()));
            assert(wrap::tagged(out@) =~= start + entry_lines(*e));
        },
    }
    assert(wrap::tagged(out@) =~= start + entry_lines(*e));
    push_plain(out, String::new());
    assert(wrap::tagged(out@) =~= start + entry_lines(*e).push((Seq::empty(), LineKind::Normal)));
}

fn push_run_head(out: &mut Vec<(String, LineKind)>, v: &RunVisibility, now_ms: u64)
    ensures
        wrap::tagged(final(out)@) == wrap::tagged(old(out)@) + run_head(*v, now_ms),
{
    let ghost start = wrap::tagged(out@);
    let action: &str = match &v.current_action {
        Some(a) => a.as_str(),
        None => "Preparando a tarefa",
    };
    let elapsed: String = v.elapsed_label(now_ms);
    let mut line: String = cat5("● ", v.phase.label(), " · ", action, " · ");
    line.append(elapsed.as_str());
    let ghost head = run_head(*v, now_ms);
    assert(line@ =~= head[0].0);
    push_plain(out, line);
    push_plain(out, v.impact_line());
    push_plain(out, v.plan_line());
    push_plain(out, String::new());
    assert(wrap::tagged(out@) =~= start + head);
}

/// Lays the whole transcript out as lines, each with its kind.
pub fn compose_lines_tagged(s: &AppState) -> (r: Vec<(String, LineKind)>)
    ensures
        wrap::tagged(r@) == composed(*s),
{
    let mut out: Vec<(String, LineKind)> = Vec::new();
    let top: Vec<String> = banner_lines(s);
    push_all_plain(&mut out, &top);
    assert(wrap::tagged(out@) =~= plain(banner(*s)));
    if s.transcript.activity.is_some() {
        push_run_head(&mut out, &s.transcript.run_visibility, s.clock_ms);
    }
    let ghost head = plain(banner(*s)) + (if s.transcript.activity is Some {
        run_head(s.transcript.run_visibility, s.clock_ms)
    } else {
        Seq::empty()
    });
    assert(wrap::tagged(out@) =~= head);
    let ghost entries = s.transcript.entries@;
    if s.transcript.entries.len() == 0 {
        push_plain(&mut out, "What can I help you build?".to_owned());
        return out;
    }
    let mut i: usize = 0;
    assert(head + entries_lines(entries, 0) =~= head);
    while i < s.transcript.entries.len()
        invariant
            i <= entries.len(),
            entries == s.transcript.entries@,
            wrap::tagged(out@) == head + entries_lines(entries, i as int),
        decreases entries.len() - i,
    {
        let ghost before = entries_lines(entries, i as int);
        push_entry(&mut out, &s.transcript.entries[i]);
        i = i + 1;
        assert(wrap::tagged(out@) =~= head + entries_lines(entries, i as int));
    }
    let ghost body = wrap::tagged(out@);
    let ghost doing = plain(
        match s.transcript.activity {
            Some(AgentActivityState::Thinking) => seq!["Gocode is thinking…"@],
            Some(AgentActivityState::RunningTools) => seq!["Gocode is running tools…"@],
            None => Seq::empty(),
        },
    );
    match s.transcript.activity {
        Some(AgentActivityState::Thinking) => push_plain(
            &mut out,
            "Gocode is thinking…".to_owned(),
        ),
        Some(AgentActivityState::RunningTools) => push_plain(
            &mut out,
            "Gocode is running tools…".to_owned(),
        ),
        None => {},
    }
    assert(wrap::tagged(out@) =~= body + doing);
    match &s.transcript.queued {
        Some(queued) => push_plain(&mut out, cat2("Queued: ", queued.as_str())),
        None => {},
    }
    assert(wrap::tagged(out@) =~= composed(*s));
    out
}

/// Lays the whole transcript out as lines.
pub fn compose_lines(s: &AppState) -> (r: Vec<String>)
    ensures
        text::texts(r@) == Seq::new(composed(*s).len(), |i: int| composed(*s)[i].0),
{
    let all: Vec<(String, LineKind)> = compose_lines_tagged(s);
    let mut r: Vec<String> = Vec::new();
    let mut i: usize = 0;
    while i < all.len()
        invariant
            i <= all@.len(),
            r@.len() == i,
            wrap::tagged(all@) == composed(*s),
            forall|j: int| 0 <= j < i ==> (#[trigger] r@[j])@ == composed(*s)[j].0,
        decreases all@.len() - i,
    {
        assert(wrap::tagged(all@)[i as int].0 == all@[i as int].0@);
        r.push(all[i].0.clone());
        i = i + 1;
    }
    assert(text::texts(r@) =~= Seq::new(composed(*s).len(), |i: int| composed(*s)[i].0));
    r
}

/// The wrapped transcript at a width.
pub open spec fn history_rows(s: AppState, width: int) -> Seq<(Seq<char>, LineKind)> {
    wrap::wrapped(composed(s), width, composed(s).len() as int)
}

/// Wraps the transcript at a width, unless the cache holds those rows already.
pub fn wrap_unless_cached(s: &AppState, width: usize) -> (r: Option<Vec<(String, LineKind)>>)
    ensures
        match r {
            Some(rows) => wrap::tagged(rows@) == history_rows(*s, width as int),
            None => s.history_wrap_cache.rows() == history_rows(*s, width as int),
        },
        s.history_wrap_cache.width_of() == width && s.history_wrap_cache.hash_of()
            == wrap::lines_hash(composed(*s)) && s.history_wrap_cache.lines() == composed(*s)
            ==> r is None,
{
    let all: Vec<(String, LineKind)> = compose_lines_tagged(s);
    assert(all@.len() == wrap::tagged(all@).len());
    if s.history_wrap_cache.is_fresh(&all, hash_lines(&all), width) {
        None
    } else {
        Some(wrap_lines_tagged(&all, width))
    }
}

/// Brings the cached rows of the transcript up to date: they are wrapped again only when the
/// conversation or the width has changed since the last call.
pub fn wrapped_history_lines(state: &mut AppState, content_width: usize)
    ensures
        *final(state) == (AppState {
            history_wrap_cache: final(state).history_wrap_cache,
            ..*old(state)
        }),
        final(state).history_wrap_cache.width_of() == content_width,
        final(state).history_wrap_cache.hash_of() == wrap::lines_hash(composed(*old(state))),
        final(state).history_wrap_cache.lines() == composed(*old(state)),
        final(state).history_wrap_cache.rows() == history_rows(*old(state), content_width as int),
        old(state).wf() ==> final(state).wf(),
{
    let all: Vec<(String, LineKind)> = compose_lines_tagged(state);
    assert(all@.len() == wrap::tagged(all@).len());
    state.history_wrap_cache.refresh(all, content_width);
}

/// The user's messages, and nothing else in the transcript, are marked as the user's.
pub proof fn law_only_user_messages_are_highlighted(e: ChatEntry, i: int)
    requires
        0 <= i < entry_lines(e).len(),
    ensures
        entry_lines(e)[i].1 == LineKind::User <==> e is User,
{
}

proof fn lemma_blanks(n: nat)
    ensures
        text::repeated(" "@, n) == Seq::new(n, |i: int| ' '),
    decreases n,
{
    reveal_strlit(" ");
    assert(" "@ =~= seq![' ']);
    if n > 0 {
        lemma_blanks((n - 1) as nat);
    }
    assert(text::repeated(" "@, n) =~= Seq::new(n, |i: int| ' '));
}

/// A message is shown line by line: who says it stands before the first, and the others begin as far
/// to the right as that one.
pub proof fn law_a_message_is_shown_line_by_line(
    prefix: Seq<char>,
    lines: Seq<Seq<char>>,
    kind: LineKind,
)
    requires
        text_laws::are_lines(lines),
    ensures
        ({
            let shown = message_lines(prefix, text_laws::ended(lines, seq!['\n']), kind);
            &&& shown.len() == lines.len()
            &&& forall|i: int|
                0 <= i < lines.len() ==> (#[trigger] shown[i]).1 == kind && shown[i].0.skip(
                    prefix.len() as int,
                ) == lines[i] && shown[i].0.len() == prefix.len() + lines[i].len()
            &&& lines.len() > 0 ==> shown[0].0 == prefix + lines[0]
            &&& forall|i: int, j: int|
                0 < i < lines.len() && 0 <= j < prefix.len() ==> #[trigger] shown[i].0[j] == ' '
        }),
{
    text_laws::law_lines_are_what_stands_between_their_endings(lines, seq!['x'], seq!['\n']);
    lemma_blanks(prefix.len());
    let shown = message_lines(prefix, text_laws::ended(lines, seq!['\n']), kind);
    assert forall|i: int| 0 <= i < lines.len() implies (#[trigger] shown[i]).1 == kind
        && shown[i].0.skip(prefix.len() as int) == lines[i] && shown[i].0.len() == prefix.len()
        + lines[i].len() by {
        assert(shown[i].0.skip(prefix.len() as int) =~= lines[i]);
    }
}

/// Of a call's output its first lines are shown, five where it is collapsed and two hundred where it
/// is expanded, each behind six blanks. Where there are more, one line tells how many.
pub proof fn law_output_is_shown_up_to_a_limit(lines: Seq<Seq<char>>, expanded: bool)
    requires
        text_laws::are_lines(lines),
        lines.len() > 0,
    ensures
        ({
            let shown = output_lines(text_laws::ended(lines, seq!['\n']), expanded);
            let limit: int = if expanded {
                200
            } else {
                5
            };
            &&& lines.len() <= limit ==> shown.len() == lines.len()
            &&& lines.len() > limit ==> shown.len() == limit + 1 && text::decimal(
                (lines.len() - limit) as nat,
            ).is_prefix_of(shown[limit].skip("      … "@.len() as int))
            &&& forall|i: int|
                0 <= i < lines.len() && i < limit ==> #[trigger] shown[i] == "      "@ + lines[i]
        }),
{
    let t = text_laws::ended(lines, seq!['\n']);
    text_laws::law_lines_are_what_stands_between_their_endings(lines, seq!['x'], seq!['\n']);
    assert(t.len() > 0) by {
        if t.len() == 0 {
            assert(t =~= text_laws::ended(Seq::empty(), seq!['\n']));
            text_laws::law_lines_are_what_stands_between_their_endings(
                Seq::empty(),
                seq!['x'],
                seq!['\n'],
            );
        }
    }
    let limit: int = if expanded {
        200
    } else {
        5
    };
    if lines.len() > limit {
        let d = text::decimal((lines.len() - limit) as nat);
        let shown = output_lines(t, expanded);
        let tail = shown[limit].skip("      … "@.len() as int);
        assert(tail.subrange(0, d.len() as int) =~= d);
    }
}

proof fn lemma_entries(a: Seq<ChatEntry>, b: Seq<ChatEntry>, n: int)
    requires
        0 <= n <= a.len(),
    ensures
        entries_lines(a + b, n) == entries_lines(a, n),
    decreases n,
{
    if n > 0 {
        lemma_entries(a, b, n - 1);
        assert((a + b)[n - 1] == a[n - 1]);
    }
}

/// The entries of a conversation are shown one below the other, each with an empty line behind it.
pub proof fn law_entries_are_shown_one_below_the_other(entries: Seq<ChatEntry>, next: ChatEntry)
    ensures
        entries_lines(entries.push(next), entries.len() as int + 1) == entries_lines(
            entries,
            entries.len() as int,
        ) + entry_lines(next) + seq![(Seq::<char>::empty(), LineKind::Normal)],
{
    let n = entries.len() as int;
    assert(entries.push(next) =~= entries + seq![next]);
    lemma_entries(entries, seq![next], n);
    assert(entries.push(next)[n] == next);
    assert(entries_lines(entries.push(next), n + 1) =~= entries_lines(entries, n) + entry_lines(
        next,
    ) + seq![(Seq::<char>::empty(), LineKind::Normal)]);
}

} // verus!
