//! The `/mcp` popup: its menu, the server list, one server's detail and the "Add server" wizard.

use vstd::prelude::*;

use crate::protocol::{McpAuthConfig, McpServerEntry, McpTransportConfig};
use crate::text;
use crate::text_laws;
use crate::text::{blank, trim, words};
use crate::tui::input;
use crate::tui::input::{Event, KeyCode};
use crate::tui::state::{AppState, McpAddStep, McpPanel, McpView};

verus! {

/// Outcome of dispatching a terminal event to the `/mcp` popup.
#[derive(Debug, PartialEq, Eq)]
pub enum McpEventOutcome {
    /// The popup is not shown, or the event isn't one it cares about.
    NotHandled,
    /// The event was consumed by the popup with no further side effect.
    Handled,
    /// Connect the named configured server.
    Connect(String),
    /// Disconnect the named connected server.
    Disconnect(String),
    /// Persist and connect a newly configured server; `api_key` is set only when the wizard's
    /// authentication choice was "API key".
    AddServer { entry: McpServerEntry, api_key: Option<String> },
    /// Start the OAuth authorization flow for the named server.
    Authorize(String),
}

/// `n` less `step`, or zero.
pub open spec fn less(n: int, step: int) -> int {
    if n >= step {
        n - step
    } else {
        0
    }
}

/// `n` more `step`, up to the largest 16-bit number.
pub open spec fn more16(n: int, step: int) -> int {
    if n + step <= u16::MAX {
        n + step
    } else {
        u16::MAX as int
    }
}

/// The selection one row down in a list of `count` rows; an empty list leaves it alone.
pub open spec fn row_below(selected: int, count: int) -> int {
    if count == 0 {
        selected
    } else if selected + 1 < count {
        selected + 1
    } else {
        count - 1
    }
}

/// Moves a selection one row down.
pub fn select_below(selected: usize, count: usize) -> (r: usize)
    requires
        selected < usize::MAX,
    ensures
        r == row_below(selected as int, count as int),
        r < usize::MAX,
{
    if count == 0 {
        selected
    } else if selected + 1 < count {
        selected + 1
    } else {
        count - 1
    }
}

/// The other row of a menu with two rows.
pub open spec fn other_row(selected: int) -> int {
    if selected == 0 {
        1
    } else {
        0
    }
}

/// Moves to the other row of a menu with two rows.
pub fn select_other(selected: usize) -> (r: usize)
    ensures
        r == other_row(selected as int),
{
    if selected == 0 {
        1
    } else {
        0
    }
}

/// The scroll position after a scrolling key.
pub open spec fn scrolled(scroll: u16, code: KeyCode) -> int {
    match code {
        KeyCode::Up => less(scroll as int, 1),
        KeyCode::Down => more16(scroll as int, 1),
        KeyCode::PageUp => less(scroll as int, 5),
        KeyCode::PageDown => more16(scroll as int, 5),
        _ => scroll as int,
    }
}

/// Applies a scrolling key to a scroll position.
pub fn scroll_by(scroll: u16, code: KeyCode) -> (r: u16)
    ensures
        r == scrolled(scroll, code),
{
    match code {
        KeyCode::Up => scroll.saturating_sub(1),
        KeyCode::Down => scroll.saturating_add(1),
        KeyCode::PageUp => scroll.saturating_sub(5),
        KeyCode::PageDown => scroll.saturating_add(5),
        _ => scroll,
    }
}

/// A text field after a typing key.
pub open spec fn typed(field: Seq<char>, code: KeyCode) -> Seq<char> {
    match code {
        KeyCode::Char(c) => field.push(c),
        KeyCode::Backspace => if field.len() > 0 {
            field.drop_last()
        } else {
            field
        },
        _ => field,
    }
}

/// Applies a typing key to a text field.
pub fn type_into(field: &mut String, code: KeyCode)
    ensures
        final(field)@ == typed(old(field)@, code),
{
    match code {
        KeyCode::Char(c) => {
            field.push(c);
        },
        KeyCode::Backspace => {
            let _ = field.pop();
        },
        _ => {},
    }
}

/// Whether a key moves between two choices.
pub open spec fn is_arrow(code: KeyCode) -> bool {
    code == KeyCode::Up || code == KeyCode::Down || code == KeyCode::Left || code == KeyCode::Right
}

/// The server that a completed draft describes.
pub open spec fn drafts(p: McpPanel, entry: McpServerEntry, api_key: Option<String>) -> bool {
    let line = text::words_of(p.add_command_line@);
    &&& entry.name@ == text::trimmed(p.add_name@)
    &&& entry.enabled
    &&& entry.auth == (if p.add_api_key_auth {
        McpAuthConfig::ApiKey
    } else {
        McpAuthConfig::NoAuth
    })
    &&& match entry.transport {
        McpTransportConfig::Http { url, headers } => {
            &&& p.add_http
            &&& url@ == text::trimmed(p.add_url@)
            &&& headers@.len() == 0
        },
        McpTransportConfig::Stdio { command, args, env } => {
            &&& !p.add_http
            &&& command@ == (if line.len() > 0 {
                line[0]
            } else {
                Seq::empty()
            })
            &&& text::texts(args@) == (if line.len() > 0 {
                line.skip(1)
            } else {
                Seq::empty()
            })
            &&& env@.len() == 0
        },
    }
    &&& api_key == (if p.add_api_key_auth {
        Some(p.add_api_key)
    } else {
        None
    })
}

/// Whether an outcome asks for the server that a draft describes.
pub open spec fn adds_drafted(p: McpPanel, r: McpEventOutcome) -> bool {
    r matches McpEventOutcome::AddServer { entry, api_key } && drafts(p, entry, api_key)
}

fn command_of(line: &str) -> (r: (String, Vec<String>))
    ensures
        ({
            let all = text::words_of(line@);
            &&& r.0@ == (if all.len() > 0 {
                all[0]
            } else {
                Seq::empty()
            })
            &&& text::texts(r.1@) == (if all.len() > 0 {
                all.skip(1)
            } else {
                Seq::empty()
            })
        }),
{
    let all: Vec<String> = words(line);
    let mut args: Vec<String> = Vec::new();
    if all.len() == 0 {
        assert(text::texts(args@) =~= Seq::<Seq<char>>::empty());
        return (String::new(), args);
    }
    let mut i: usize = 1;
    while i < all.len()
        invariant
            1 <= i <= all@.len(),
            text::texts(args@) == text::texts(all@).subrange(1, i as int),
        decreases all@.len() - i,
    {
        let ghost before = text::texts(args@);
        args.push(all[i].clone());
        assert(text::texts(args@) =~= before.push(all@[i as int]@));
        i = i + 1;
        assert(text::texts(args@) =~= text::texts(all@).subrange(1, i as int));
    }
    assert(text::texts(args@) =~= text::texts(all@).skip(1));
    (all[0].clone(), args)
}

/// Builds the server entry (and, if chosen, the plaintext API key) from a completed draft.
fn build_mcp_add_server_outcome(p: &McpPanel) -> (r: McpEventOutcome)
    ensures
        adds_drafted(*p, r),
{
    let transport: McpTransportConfig = if p.add_http {
        McpTransportConfig::Http { url: trim(p.add_url.as_str()), headers: Vec::new() }
    } else {
        let (command, args) = command_of(p.add_command_line.as_str());
        McpTransportConfig::Stdio { command, args, env: Vec::new() }
    };
    let auth: McpAuthConfig = if p.add_api_key_auth {
        McpAuthConfig::ApiKey
    } else {
        McpAuthConfig::NoAuth
    };
    let entry: McpServerEntry = McpServerEntry {
        name: trim(p.add_name.as_str()),
        transport,
        auth,
        enabled: true,
    };
    let api_key: Option<String> = if p.add_api_key_auth {
        Some(p.add_api_key.clone())
    } else {
        None
    };
    McpEventOutcome::AddServer { entry, api_key }
}

/// Whether a draft is empty, at its first step.
pub open spec fn draft_is_empty(p: McpPanel) -> bool {
    &&& p.add_step == McpAddStep::Name
    &&& p.add_name@.len() == 0
    &&& !p.add_http
    &&& p.add_command_line@.len() == 0
    &&& p.add_url@.len() == 0
    &&& !p.add_api_key_auth
    &&& p.add_api_key@.len() == 0
}

/// Resets every draft field of the "Add server" wizard.
fn reset_mcp_add_form(p: &mut McpPanel)
    ensures
        draft_is_empty(*final(p)),
        *final(p) == (McpPanel {
            add_step: final(p).add_step,
            add_name: final(p).add_name,
            add_http: final(p).add_http,
            add_command_line: final(p).add_command_line,
            add_url: final(p).add_url,
            add_api_key_auth: final(p).add_api_key_auth,
            add_api_key: final(p).add_api_key,
            ..*old(p)
        }),
{
    p.add_step = McpAddStep::Name;
    p.add_name = String::new();
    p.add_http = false;
    p.add_command_line = String::new();
    p.add_url = String::new();
    p.add_api_key_auth = false;
    p.add_api_key = String::new();
}

// ---------------------------------------------------------------------------------------------
// Menu, list and detail
// ---------------------------------------------------------------------------------------------

/// What a key does on the menu.
pub open spec fn menu_key(pre: McpPanel, post: McpPanel, code: KeyCode, r: McpEventOutcome) -> bool {
    &&& r is Handled
    &&& if code == KeyCode::Up || code == KeyCode::Down {
        post == (McpPanel { selected: other_row(pre.selected as int) as usize, ..pre })
    } else if code == KeyCode::Enter && pre.selected == 0 {
        post == (McpPanel { view: McpView::ServerList, selected: 0, ..pre })
    } else if code == KeyCode::Enter {
        &&& draft_is_empty(post)
        &&& post == (McpPanel {
            view: McpView::AddServer,
            add_step: post.add_step,
            add_name: post.add_name,
            add_http: post.add_http,
            add_command_line: post.add_command_line,
            add_url: post.add_url,
            add_api_key_auth: post.add_api_key_auth,
            add_api_key: post.add_api_key,
            ..pre
        })
    } else if code == KeyCode::Esc {
        post == (McpPanel { visible: false, ..pre })
    } else {
        post == pre
    }
}

/// What a key does on the server list.
pub open spec fn list_key(pre: McpPanel, post: McpPanel, code: KeyCode, r: McpEventOutcome) -> bool {
    let count = pre.servers@.len();
    let on_row = pre.selected < count;
    let server = pre.servers@[pre.selected as int];
    match code {
        KeyCode::Up => r is Handled && post == (McpPanel {
            selected: less(pre.selected as int, 1) as usize,
            ..pre
        }),
        KeyCode::Down => r is Handled && post == (McpPanel {
            selected: row_below(pre.selected as int, count as int) as usize,
            ..pre
        }),
        KeyCode::Right => r is Handled && post == (if on_row {
            McpPanel { view: McpView::ServerDetail, detail_scroll: 0, ..pre }
        } else {
            pre
        }),
        KeyCode::Enter => post == pre && if !on_row {
            r is Handled
        } else if server.connected {
            r == McpEventOutcome::Disconnect(server.name)
        } else {
            r == McpEventOutcome::Connect(server.name)
        },
        KeyCode::Char('o') => post == pre && if on_row && server.needs_authorization {
            r == McpEventOutcome::Authorize(server.name)
        } else {
            r is Handled
        },
        KeyCode::Esc => r is Handled && post == (McpPanel {
            view: McpView::Menu,
            selected: 0,
            ..pre
        }),
        _ => r is Handled && post == pre,
    }
}

/// What a key does on a server's detail.
pub open spec fn detail_key(
    pre: McpPanel,
    post: McpPanel,
    code: KeyCode,
    r: McpEventOutcome,
) -> bool {
    &&& r is Handled
    &&& if code == KeyCode::Esc || code == KeyCode::Enter || code == KeyCode::Left {
        post == (McpPanel { view: McpView::ServerList, detail_scroll: 0, ..pre })
    } else {
        post == (McpPanel { detail_scroll: scrolled(pre.detail_scroll, code) as u16, ..pre })
    }
}

fn on_menu_key(p: &mut McpPanel, code: KeyCode) -> (r: McpEventOutcome)
    requires
        old(p).selected < usize::MAX,
    ensures
        final(p).selected < usize::MAX,
        menu_key(*old(p), *final(p), code, r),
{
    match code {
        KeyCode::Up | KeyCode::Down => {
            p.selected = select_other(p.selected);
        },
        KeyCode::Enter => {
            if p.selected == 0 {
                p.view = McpView::ServerList;
                p.selected = 0;
            } else {
                reset_mcp_add_form(p);
                p.view = McpView::AddServer;
            }
        },
        KeyCode::Esc => {
            p.visible = false;
        },
        _ => {},
    }
    McpEventOutcome::Handled
}

fn on_list_key(p: &mut McpPanel, code: KeyCode) -> (r: McpEventOutcome)
    requires
        old(p).selected < usize::MAX,
    ensures
        final(p).selected < usize::MAX,
        list_key(*old(p), *final(p), code, r),
{
    let on_row: bool = p.selected < p.servers.len();
    match code {
        KeyCode::Up => {
            p.selected = p.selected.saturating_sub(1);
        },
        KeyCode::Down => {
            p.selected = select_below(p.selected, p.servers.len());
        },
        KeyCode::Right => {
            if on_row {
                p.view = McpView::ServerDetail;
                p.detail_scroll = 0;
            }
        },
        KeyCode::Enter => {
            if on_row {
                let name: String = p.servers[p.selected].name.clone();
                if p.servers[p.selected].connected {
                    return McpEventOutcome::Disconnect(name);
                }
                return McpEventOutcome::Connect(name);
            }
        },
        KeyCode::Char('o') => {
            if on_row && p.servers[p.selected].needs_authorization {
                return McpEventOutcome::Authorize(p.servers[p.selected].name.clone());
            }
        },
        KeyCode::Esc => {
            p.view = McpView::Menu;
            p.selected = 0;
        },
        _ => {},
    }
    McpEventOutcome::Handled
}

fn on_detail_key(p: &mut McpPanel, code: KeyCode) -> (r: McpEventOutcome)
    ensures
        final(p).selected == old(p).selected,
        detail_key(*old(p), *final(p), code, r),
{
    match code {
        KeyCode::Esc | KeyCode::Enter | KeyCode::Left => {
            p.view = McpView::ServerList;
            p.detail_scroll = 0;
        },
        _ => {
            p.detail_scroll = scroll_by(p.detail_scroll, code);
        },
    }
    McpEventOutcome::Handled
}

// ---------------------------------------------------------------------------------------------
// The wizard
// ---------------------------------------------------------------------------------------------

/// The step for the address of the server: its URL or its command line.
pub open spec fn address_step(http: bool) -> McpAddStep {
    if http {
        McpAddStep::Url
    } else {
        McpAddStep::CommandLine
    }
}

/// What a key does in the wizard. A text step accepts Enter only for text that is not blank (the
/// API key: not empty); the last step of a draft hands the server out and returns to the menu.
pub open spec fn wizard_key(
    pre: McpPanel,
    post: McpPanel,
    code: KeyCode,
    r: McpEventOutcome,
) -> bool {
    let enter = code == KeyCode::Enter;
    let esc = code == KeyCode::Esc;
    let finished = McpPanel { view: McpView::Menu, selected: 0, ..pre };
    match pre.add_step {
        McpAddStep::Name => r is Handled && if enter && !text::is_blank(pre.add_name@) {
            post == (McpPanel { add_step: McpAddStep::TransportChoice, ..pre })
        } else if esc {
            post == (McpPanel { view: McpView::Menu, ..pre })
        } else {
            &&& post == (McpPanel { add_name: post.add_name, ..pre })
            &&& post.add_name@ == typed(pre.add_name@, code)
        },
        McpAddStep::TransportChoice => r is Handled && if is_arrow(code) {
            post == (McpPanel { add_http: !pre.add_http, ..pre })
        } else if enter {
            post == (McpPanel { add_step: address_step(pre.add_http), ..pre })
        } else if esc {
            post == (McpPanel { add_step: McpAddStep::Name, ..pre })
        } else {
            post == pre
        },
        McpAddStep::CommandLine => r is Handled && if enter && !text::is_blank(
            pre.add_command_line@,
        ) {
            post == (McpPanel { add_step: McpAddStep::AuthChoice, ..pre })
        } else if esc {
            post == (McpPanel { add_step: McpAddStep::TransportChoice, ..pre })
        } else {
            &&& post == (McpPanel { add_command_line: post.add_command_line, ..pre })
            &&& post.add_command_line@ == typed(pre.add_command_line@, code)
        },
        McpAddStep::Url => r is Handled && if enter && !text::is_blank(pre.add_url@) {
            post == (McpPanel { add_step: McpAddStep::AuthChoice, ..pre })
        } else if esc {
            post == (McpPanel { add_step: McpAddStep::TransportChoice, ..pre })
        } else {
            &&& post == (McpPanel { add_url: post.add_url, ..pre })
            &&& post.add_url@ == typed(pre.add_url@, code)
        },
        McpAddStep::AuthChoice => if is_arrow(code) {
            r is Handled && post == (McpPanel { add_api_key_auth: !pre.add_api_key_auth, ..pre })
        } else if enter && pre.add_api_key_auth {
            r is Handled && post == (McpPanel { add_step: McpAddStep::ApiKey, ..pre })
        } else if enter {
            adds_drafted(pre, r) && post == finished
        } else if esc {
            r is Handled && post == (McpPanel { add_step: address_step(pre.add_http), ..pre })
        } else {
            r is Handled && post == pre
        },
        McpAddStep::ApiKey => if enter && pre.add_api_key@.len() > 0 {
            adds_drafted(pre, r) && post == finished
        } else if esc {
            r is Handled && post == (McpPanel { add_step: McpAddStep::AuthChoice, ..pre })
        } else {
            &&& r is Handled
            &&& post == (McpPanel { add_api_key: post.add_api_key, ..pre })
            &&& post.add_api_key@ == typed(pre.add_api_key@, code)
        },
    }
}

fn on_wizard_key(p: &mut McpPanel, code: KeyCode) -> (r: McpEventOutcome)
    requires
        old(p).selected < usize::MAX,
    ensures
        final(p).selected < usize::MAX,
        wizard_key(*old(p), *final(p), code, r),
{
    let enter: bool = code == KeyCode::Enter;
    let esc: bool = code == KeyCode::Esc;
    let arrow: bool = code == KeyCode::Up || code == KeyCode::Down || code == KeyCode::Left || code
        == KeyCode::Right;
    match p.add_step {
        McpAddStep::Name => {
            if enter && !blank(p.add_name.as_str()) {
                p.add_step = McpAddStep::TransportChoice;
            } else if esc {
                p.view = McpView::Menu;
            } else {
                type_into(&mut p.add_name, code);
            }
        },
        McpAddStep::TransportChoice => {
            if arrow {
                p.add_http = !p.add_http;
            } else if enter {
                p.add_step = if p.add_http {
                    McpAddStep::Url
                } else {
                    McpAddStep::CommandLine
                };
            } else if esc {
                p.add_step = McpAddStep::Name;
            }
        },
        McpAddStep::CommandLine => {
            if enter && !blank(p.add_command_line.as_str()) {
                p.add_step = McpAddStep::AuthChoice;
            } else if esc {
                p.add_step = McpAddStep::TransportChoice;
            } else {
                type_into(&mut p.add_command_line, code);
            }
        },
        McpAddStep::Url => {
            if enter && !blank(p.add_url.as_str()) {
                p.add_step = McpAddStep::AuthChoice;
            } else if esc {
                p.add_step = McpAddStep::TransportChoice;
            } else {
                type_into(&mut p.add_url, code);
            }
        },
        McpAddStep::AuthChoice => {
            if arrow {
                p.add_api_key_auth = !p.add_api_key_auth;
            } else if enter && p.add_api_key_auth {
                p.add_step = McpAddStep::ApiKey;
            } else if enter {
                let outcome: McpEventOutcome = build_mcp_add_server_outcome(p);
                p.view = McpView::Menu;
                p.selected = 0;
                return outcome;
            } else if esc {
                p.add_step = if p.add_http {
                    McpAddStep::Url
                } else {
                    McpAddStep::CommandLine
                };
            }
        },
        McpAddStep::ApiKey => {
            if enter && !p.add_api_key.as_str().is_empty() {
                let outcome: McpEventOutcome = build_mcp_add_server_outcome(p);
                p.view = McpView::Menu;
                p.selected = 0;
                return outcome;
            } else if esc {
                p.add_step = McpAddStep::AuthChoice;
            } else {
                type_into(&mut p.add_api_key, code);
            }
        },
    }
    McpEventOutcome::Handled
}

/// What a key does on the popup.
pub open spec fn panel_key(
    pre: McpPanel,
    post: McpPanel,
    code: KeyCode,
    r: McpEventOutcome,
) -> bool {
    match pre.view {
        McpView::Menu => menu_key(pre, post, code, r),
        McpView::ServerList => list_key(pre, post, code, r),
        McpView::ServerDetail => detail_key(pre, post, code, r),
        McpView::AddServer => wizard_key(pre, post, code, r),
    }
}

/// What an event does on the popup: nothing unless the popup is shown and a key was pressed.
pub open spec fn mcp_reacts(
    pre: AppState,
    post: AppState,
    event: Event,
    r: McpEventOutcome,
) -> bool {
    match input::pressed(event) {
        Some((code, _)) => if pre.mcp.visible {
            &&& post == (AppState { mcp: post.mcp, ..pre })
            &&& panel_key(pre.mcp, post.mcp, code, r)
        } else {
            r is NotHandled && post == pre
        },
        None => r is NotHandled && post == pre,
    }
}

/// Drives the `/mcp` popup.
///
/// Returns `NotHandled` when the popup isn't shown or the event doesn't belong to it, so callers
/// can fall through to other handlers.
pub fn handle_mcp_event(state: &mut AppState, event: &Event) -> (r: McpEventOutcome)
    requires
        old(state).wf(),
    ensures
        final(state).wf(),
        mcp_reacts(*old(state), *final(state), *event, r),
{
    if !state.mcp.visible {
        return McpEventOutcome::NotHandled;
    }
    let code: KeyCode = match input::key_press(event) {
        Some((code, _)) => code,
        None => {
            return McpEventOutcome::NotHandled;
        },
    };
    match state.mcp.view {
        McpView::Menu => on_menu_key(&mut state.mcp, code),
        McpView::ServerList => on_list_key(&mut state.mcp, code),
        McpView::ServerDetail => on_detail_key(&mut state.mcp, code),
        McpView::AddServer => on_wizard_key(&mut state.mcp, code),
    }
}

// ---------------------------------------------------------------------------------------------
// Laws
// ---------------------------------------------------------------------------------------------

/// A configured server's list, the popup's visibility and the stored draft fields that a step
/// does not edit survive every key of the wizard; only finishing a draft asks for a server.
pub proof fn law_wizard_never_touches_the_servers(
    pre: McpPanel,
    post: McpPanel,
    code: KeyCode,
    r: McpEventOutcome,
)
    requires
        pre.view == McpView::AddServer,
        panel_key(pre, post, code, r),
    ensures
        post.servers == pre.servers,
        post.visible == pre.visible,
        r is AddServer || r is Handled,
        r is AddServer ==> code == KeyCode::Enter && post.view == McpView::Menu,
{
}

/// The wizard leaves the name step forward only with a name that is not blank.
pub proof fn law_wizard_rejects_a_blank_name(
    pre: McpPanel,
    post: McpPanel,
    code: KeyCode,
    r: McpEventOutcome,
)
    requires
        pre.view == McpView::AddServer,
        pre.add_step == McpAddStep::Name,
        text::is_blank(pre.add_name@),
        panel_key(pre, post, code, r),
    ensures
        post.add_step == McpAddStep::Name,
{
}

/// An API key leaves the popup only where key authentication was chosen, and then it does.
pub proof fn law_api_key_goes_with_its_choice(
    pre: McpPanel,
    post: McpPanel,
    code: KeyCode,
    r: McpEventOutcome,
)
    requires
        panel_key(pre, post, code, r),
        r is AddServer,
    ensures
        r->api_key is Some <==> pre.add_api_key_auth,
        r->entry.auth == McpAuthConfig::ApiKey <==> pre.add_api_key_auth,
{
}

/// A selection moves one row at a time and stays inside the list; a step down and a step up undo each
/// other where neither meets an end. So does a scroll position.
pub proof fn law_steps_down_and_up_undo_each_other(selected: int, count: int, scroll: u16)
    requires
        0 <= selected < count,
    ensures
        selected + 1 < count ==> row_below(selected, count) == selected + 1,
        selected + 1 == count ==> row_below(selected, count) == selected,
        selected > 0 ==> less(selected, 1) == selected - 1,
        less(0, 1) == 0,
        selected + 1 < count ==> less(row_below(selected, count), 1) == selected,
        other_row(other_row(0)) == 0 && other_row(0) != 0,
        scroll < u16::MAX ==> scrolled(scrolled(scroll, KeyCode::Down) as u16, KeyCode::Up)
            == scroll && scrolled(scroll, KeyCode::Down) == scroll + 1,
        scroll <= u16::MAX - 5 ==> scrolled(
            scrolled(scroll, KeyCode::PageDown) as u16,
            KeyCode::PageUp,
        ) == scroll && scrolled(scroll, KeyCode::PageDown) == scroll + 5,
        scrolled(0, KeyCode::Up) == 0 && scrolled(3, KeyCode::PageUp) == 0,
{
}

/// The wizard goes back the way it came: Escape after Enter returns to the step before, with
/// everything as it was.
pub proof fn law_the_wizard_goes_back_the_way_it_came(
    a: McpPanel,
    b: McpPanel,
    c: McpPanel,
    r1: McpEventOutcome,
    r2: McpEventOutcome,
)
    requires
        wizard_key(a, b, KeyCode::Enter, r1),
        b.view == a.view,
        b.add_step != a.add_step,
        a.add_step == McpAddStep::CommandLine ==> !a.add_http,
        a.add_step == McpAddStep::Url ==> a.add_http,
        wizard_key(b, c, KeyCode::Esc, r2),
    ensures
        c == a,
{
}

/// A chosen alternative is taken back by choosing again, and a typed character by erasing it.
pub proof fn law_the_wizard_takes_back_what_was_chosen(
    a: McpPanel,
    b: McpPanel,
    c: McpPanel,
    ch: char,
    field: Seq<char>,
    r1: McpEventOutcome,
    r2: McpEventOutcome,
)
    ensures
        (a.add_step == McpAddStep::TransportChoice || a.add_step == McpAddStep::AuthChoice)
            && wizard_key(a, b, KeyCode::Down, r1) && wizard_key(b, c, KeyCode::Up, r2) ==> c == a
            && b != a,
        typed(typed(field, KeyCode::Char(ch)), KeyCode::Backspace) == field,
        typed(field, KeyCode::Char(ch)).last() == ch,
        typed(Seq::empty(), KeyCode::Backspace).len() == 0,
{
    assert(field.push(ch).drop_last() =~= field);
}

/// A server is added as it was described: the name and the address without the white space around
/// them, and of a command line the first word as the program and the others as its arguments.
pub proof fn law_a_server_is_added_as_described(
    p: McpPanel,
    entry: McpServerEntry,
    api_key: Option<String>,
    pre: Seq<char>,
    name: Seq<char>,
    post: Seq<char>,
    url: Seq<char>,
    line: Seq<Seq<char>>,
)
    requires
        drafts(p, entry, api_key),
        text_laws::all_white(pre),
        text_laws::all_white(post),
        text_laws::is_tight(name),
        text_laws::is_tight(url),
        text_laws::are_words(line),
        line.len() > 0,
        p.add_name@ == pre + name + post,
    ensures
        entry.name@ == name,
        entry.enabled,
        p.add_http && p.add_url@ == pre + url + post ==> (entry.transport matches
            McpTransportConfig::Http { url: own, .. } && own@ == url),
        !p.add_http && p.add_command_line@ == text::joined(line, " "@) ==> (entry.transport matches
            McpTransportConfig::Stdio { command, args, .. } && command@ == line[0] && text::texts(
            args@,
        ) == line.skip(1)),
        p.add_api_key_auth ==> api_key == Some(p.add_api_key) && entry.auth
            == McpAuthConfig::ApiKey,
        !p.add_api_key_auth ==> api_key is None && entry.auth == McpAuthConfig::NoAuth,
{
    text_laws::law_trimming_takes_the_white_space_around(pre, name, post);
    text_laws::law_trimming_takes_the_white_space_around(pre, url, post);
    text_laws::law_spaced_words_are_told_apart(Seq::empty(), line, Seq::empty());
}

} // verus!
