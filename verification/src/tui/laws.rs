//! What holds of the interface across several events.

use vstd::prelude::*;

use crate::protocol::AppEvent;
use crate::text;
use crate::tui::chat;
use crate::tui::commands::ChatSubmission;
use crate::tui::entry;
use crate::tui::entry::ChatEntry;
use crate::tui::input::{Event, KeyCode, KeyModifiers};
use crate::tui::layout::Rect;
use crate::tui::reduce;
use crate::tui::state;
use crate::tui::state::{AppState, Screen};
use crate::tui::terminal;
use crate::tui::terminal::{Reaction, DOUBLE_CTRL_C_MS};

verus! {

/// Whether an event ends a run.
pub open spec fn ends_run(event: AppEvent) -> bool {
    event is AgentCompleted || event is AgentCancelled || event is AgentStopped
        || event is ProviderFailed
}

/// Whatever way a run ends, the interface is idle afterwards, and the prompt that waited for the
/// end is handed out, once.
pub proof fn law_the_end_of_a_run_frees_the_interface(
    pre: AppState,
    post: AppState,
    event: AppEvent,
    r: Option<String>,
)
    requires
        reduce::applied(pre, post, event, r),
        ends_run(event),
    ensures
        post.transcript.activity is None,
        r == pre.transcript.queued,
        post.transcript.queued is None,
{
    reveal(reduce::applied);
}

/// A run that was cancelled or stopped leaves no permission prompt behind.
pub proof fn law_a_stopped_run_asks_nothing(
    pre: AppState,
    post: AppState,
    event: AppEvent,
    r: Option<String>,
)
    requires
        reduce::applied(pre, post, event, r),
        event is AgentCancelled || event is AgentStopped,
    ensures
        post.prompts.pending_permission is None,
{
    reveal(reduce::applied);
}

/// A prompt submitted while a run is active is not sent; when the run ends, it is what comes next,
/// unless another one has taken its place.
pub proof fn law_a_prompt_waits_for_the_run(
    typing: AppState,
    waiting: AppState,
    sent: Option<ChatSubmission>,
    before: AppState,
    after: AppState,
    event: AppEvent,
    r: Option<String>,
)
    requires
        typing.transcript.activity is Some,
        typing.debug.next_question is None,
        chat::asked(
            typing.composer.chat_input@,
            typing.composer.suggestion_selected as int,
            typing.custom_commands@,
        ) is Plain,
        chat::submits(typing, waiting, sent),
        before.transcript.queued == waiting.transcript.queued,
        reduce::applied(before, after, event, r),
        ends_run(event),
    ensures
        sent is None,
        r == Some(typing.composer.chat_input),
{
    reveal(reduce::applied);
}

/// An update that is found during a run does not take the screen.
pub proof fn law_an_update_waits_for_the_run(
    pre: AppState,
    post: AppState,
    event: AppEvent,
    r: Option<String>,
)
    requires
        pre.transcript.activity is Some,
        event is UpdateAvailable,
        reduce::applied(pre, post, event, r),
    ensures
        post.updates.pending_update == pre.updates.pending_update,
        post.updates.queued_update is Some,
{
    reveal(reduce::applied);
}

/// The update that waited takes the screen when the run is over, if no prompt stands in its way.
pub proof fn law_a_waiting_update_is_shown_after_the_run(
    pre: AppState,
    post: AppState,
    event: AppEvent,
    r: Option<String>,
)
    requires
        event is AgentCompleted,
        reduce::update_due(pre, pre.prompts.pending_permission is Some),
        reduce::applied(pre, post, event, r),
    ensures
        post.updates.pending_update == pre.updates.queued_update,
        post.updates.queued_update is None,
        !post.updates.update_selected_no,
{
    reveal(reduce::applied);
}

/// Two pieces of streamed answer that follow each other read as one.
pub proof fn law_streamed_text_joins(
    a: AppState,
    b: AppState,
    c: AppState,
    first: String,
    second: String,
)
    requires
        reduce::applied(a, b, AppEvent::AssistantTextDelta(first), None),
        reduce::applied(b, c, AppEvent::AssistantTextDelta(second), None),
    ensures
        b.transcript.entries@.len() == c.transcript.entries@.len() > 0,
        b.transcript.entries@.drop_last() == c.transcript.entries@.drop_last(),
        b.transcript.entries@.last() matches ChatEntry::Assistant(so_far) && entry::is_assistant(
            c.transcript.entries@.last(),
            so_far@ + second@,
        ),
{
    reveal(reduce::applied);
}

/// While a prompt stands over the chat screen, no event reaches the composer's text.
pub proof fn law_prompts_block_typing(
    pre: AppState,
    post: AppState,
    event: Event,
    r: Option<ChatSubmission>,
)
    requires
        pre.is_interrupted() || pre.updates.pending_update is Some || pre.screen != Screen::Chat,
        chat::chats(pre, post, event, r),
    ensures
        post == pre,
        r is None,
{
}

/// The prompt of a run that the provider failed comes back into the composer with Ctrl+R.
pub proof fn law_a_failed_prompt_comes_back(
    pre: AppState,
    failed: AppState,
    after: AppState,
    message: String,
    prompt: String,
    m: KeyModifiers,
    released: Option<String>,
    r: Option<ChatSubmission>,
)
    requires
        pre.transcript.last_submitted_prompt == Some(prompt),
        reduce::applied(pre, failed, AppEvent::ProviderFailed(message), released),
        m.control,
        chat::keyed(failed, after, KeyCode::Char('r'), m, r),
    ensures
        after.composer.chat_input@ == prompt@,
        after.composer.cursor == prompt@.len(),
        after.transcript.last_failed_prompt is None,
{
    reveal(reduce::applied);
}

proof fn lemma_last_tool_is_an_entry(a: Seq<ChatEntry>)
    ensures
        entry::last_tool(a) < a.len(),
    decreases a.len(),
{
    if a.len() > 0 && !(a.last() is Tool) {
        lemma_last_tool_is_an_entry(a.drop_last());
    }
}

proof fn lemma_last_tool_stays(a: Seq<ChatEntry>, b: Seq<ChatEntry>, i: int)
    requires
        i == entry::last_tool(a),
        0 <= i,
        b == a.update(i, b[i]),
        b[i] is Tool,
    ensures
        i < a.len(),
        entry::last_tool(b) == i,
    decreases a.len(),
{
    lemma_last_tool_is_an_entry(a);
    if !(a.last() is Tool) {
        lemma_last_tool_is_an_entry(a.drop_last());
        assert(b.drop_last() =~= a.drop_last().update(i, b[i]));
        lemma_last_tool_stays(a.drop_last(), b.drop_last(), i);
    }
}

/// Showing and hiding the last tool output leaves the transcript as it was.
pub proof fn law_toggling_output_twice_restores_it(a: AppState, b: AppState, c: AppState)
    requires
        chat::toggled(a, b),
        chat::toggled(b, c),
    ensures
        c.transcript.entries@ == a.transcript.entries@,
{
    let before = a.transcript.entries@;
    let i = entry::last_tool(before);
    if i >= 0 {
        lemma_last_tool_stays(before, b.transcript.entries@, i);
        assert(c.transcript.entries@ =~= before);
    }
}

proof fn lemma_cut_takes_its_bytes(s: Seq<char>, n: nat)
    ensures
        text::byte_cut(s, n) matches Some(kept) ==> text::byte_len(kept) == n,
    decreases s.len(),
{
    if n > 0 && s.len() > 0 && text::width(s[0]) <= n {
        let rest = (n - text::width(s[0])) as nat;
        lemma_cut_takes_its_bytes(s.skip(1), rest);
        match text::byte_cut(s.skip(1), rest) {
            Some(kept) => {
                assert((seq![s[0]] + kept).skip(1) =~= kept);
            },
            None => {},
        }
    }
}

/// However much output a call writes, its entry holds no more than the bound and the mark.
pub proof fn law_tool_output_is_bounded(output: Seq<char>, chunk: Seq<char>)
    requires
        text::byte_len(output) <= state::MAX_TOOL_OUTPUT_BYTES + text::byte_len(reduce::cut_mark()),
    ensures
        reduce::output_after(output, chunk) matches Some(after) ==> text::byte_len(after)
            <= state::MAX_TOOL_OUTPUT_BYTES + text::byte_len(reduce::cut_mark()),
{
    let whole = output + chunk;
    match text::byte_cut(whole, state::MAX_TOOL_OUTPUT_BYTES as nat) {
        Some(kept) => {
            lemma_cut_takes_its_bytes(whole, state::MAX_TOOL_OUTPUT_BYTES as nat);
            text::lemma_byte_len_add(kept, reduce::cut_mark());
        },
        None => {},
    }
}

/// A second Ctrl+C within the limit exits, if nothing is selected.
pub proof fn law_a_second_ctrl_c_exits(
    a: AppState,
    b: AppState,
    c: AppState,
    d: AppState,
    first: Event,
    second: Event,
    area: Rect,
    t0: Option<u64>,
    t1: Option<u64>,
    t2: Option<u64>,
    r1: Reaction,
    r2: Reaction,
)
    requires
        terminal::is_ctrl_c(first),
        terminal::is_ctrl_c(second),
        a.transcript.selection is None,
        c.transcript.selection is None,
        terminal::reacts(a, b, first, area, t0, t1, r1),
        !r1.leaves(),
        a.clock_ms <= c.clock_ms < a.clock_ms + DOUBLE_CTRL_C_MS,
        terminal::reacts(c, d, second, area, t1, t2, r2),
    ensures
        r2.leaves(),
        d == c,
{
}

} // verus!
