//! The `/help`, `/skills`, `/mcp` and `/agents` popups.

use vstd::prelude::*;

use crate::protocol::{
    CustomCommand, McpServerStatus, SkillSource, SkillSummary, SubagentMessage,
    SubagentMessageRole, SubagentRecord, SubagentResult,
};
use crate::text;
use crate::text::{cat2, cat3, cat4, cat5, cut_at, join, lines, number, pad, trim_end};
use crate::tui::commands;
use crate::tui::commands::{builtin_help, builtin_title, BUILTIN_COUNT};
use crate::tui::layout;
use crate::tui::reduce;
use crate::tui::state::{AppState, HelpTab, McpAddStep, McpPanel, SkillPanel};
use crate::tui::submission;
use crate::tui::view::screens;
use crate::tui::view::screens::{masked, pointer_of, visible_rows};

verus! {

// ---------------------------------------------------------------------------------------------
// Scrolling
// ---------------------------------------------------------------------------------------------

/// How far a text of some lines can be scrolled in a viewport of some rows.
pub open spec fn scroll_limit(line_count: int, rows: int) -> int {
    layout::least(
        layout::left_over(
            line_count,
            if rows < 1 {
                1
            } else {
                rows
            },
        ),
        u16::MAX as int,
    )
}

/// The scroll offset that a popup is drawn with, and whether there is anything to scroll.
pub fn bounded_scroll(content: &str, rows: u16, scroll: u16) -> (r: (u16, bool))
    ensures
        ({
            let limit = scroll_limit(text::lines_of(content@).len() as int, rows as int);
            r.0 == layout::least(scroll as int, limit) && r.1 == (limit > 0)
        }),
{
    let all: Vec<String> = lines(content);
    assert(all@.len() == text::texts(all@).len());
    let height: usize = if rows < 1 {
        1
    } else {
        rows as usize
    };
    let left: usize = all.len().saturating_sub(height);
    let limit: u16 = if left < u16::MAX as usize {
        left as u16
    } else {
        u16::MAX
    };
    (
        if scroll < limit {
            scroll
        } else {
            limit
        },
        limit > 0,
    )
}

/// The footer of a popup that only scrolls.
pub fn scroll_footer(scrollable: bool) -> (r: &'static str)
    ensures
        r@ == (if scrollable {
            "Up/Down to scroll · Esc to go back"@
        } else {
            "Esc to go back"@
        }),
{
    if scrollable {
        "Up/Down to scroll · Esc to go back"
    } else {
        "Esc to go back"
    }
}

/// The text shown for something without a description.
pub open spec fn described(description: Seq<char>) -> Seq<char> {
    if description.len() == 0 {
        "(no description)"@
    } else {
        description
    }
}

fn describe(description: &str) -> (r: &str)
    ensures
        r@ == described(description@),
{
    if description.is_empty() {
        "(no description)"
    } else {
        description
    }
}

// ---------------------------------------------------------------------------------------------
// Help
// ---------------------------------------------------------------------------------------------

/// The first `n` built-in commands with their descriptions.
pub open spec fn builtin_table(n: int) -> Seq<char>
    decreases n,
{
    if n <= 0 {
        "Browse default commands\n\n"@
    } else {
        builtin_table(n - 1) + text::padded(commands::builtin_name(n - 1), 14) + " "@
            + commands::builtin_description(n - 1) + "\n\n"@
    }
}

/// The first `n` custom commands with their descriptions.
pub open spec fn custom_table(list: Seq<CustomCommand>, n: int) -> Seq<char>
    decreases n,
{
    if n <= 0 {
        "Project commands (.gocode/commands/)\n\n"@
    } else {
        custom_table(list, n - 1) + text::padded("/"@ + list[n - 1].name@, 14) + " "@ + described(
            list[n - 1].description@,
        ) + "\n\n"@
    }
}

/// The body of a tab of the `/help` popup.
pub open spec fn help_body(s: AppState, tab: HelpTab) -> Seq<char> {
    match tab {
        HelpTab::General => "Gocode understands your codebase, makes edits with your permission, and executes commands — right from your terminal.\n\nShortcuts\nTab             autocomplete a suggestion\nShift+Tab / F2  cycle permission mode\nCtrl+J          insert a newline\nAlt/Shift+Enter insert a newline\nUp/Down         browse prompt history\nPageUp/PageDown scroll the conversation\nCtrl+O          expand/collapse tool output\nCtrl+R          recall the last failed prompt\nCtrl+C, Ctrl+C  exit Gocode\nDrag + Ctrl+C   copy the selection"@,
        HelpTab::Commands => text::trimmed_end(builtin_table(BUILTIN_COUNT as int)),
        HelpTab::Custom => if s.custom_commands@.len() == 0 {
            "No custom commands found\n\nAdd Markdown files under .gocode/commands/ to define project-local slash commands."@
        } else {
            text::trimmed_end(custom_table(s.custom_commands@, s.custom_commands@.len() as int))
        },
    }
}

/// Builds the body text shown under a `/help` tab.
pub fn help_tab_content(s: &AppState, tab: HelpTab) -> (r: String)
    ensures
        r@ == help_body(*s, tab),
{
    match tab {
        HelpTab::General => "Gocode understands your codebase, makes edits with your permission, and executes commands — right from your terminal.\n\nShortcuts\nTab             autocomplete a suggestion\nShift+Tab / F2  cycle permission mode\nCtrl+J          insert a newline\nAlt/Shift+Enter insert a newline\nUp/Down         browse prompt history\nPageUp/PageDown scroll the conversation\nCtrl+O          expand/collapse tool output\nCtrl+R          recall the last failed prompt\nCtrl+C, Ctrl+C  exit Gocode\nDrag + Ctrl+C   copy the selection".to_owned(),
        HelpTab::Commands => {
            let mut content: String = "Browse default commands\n\n".to_owned();
            let mut i: usize = 0;
            while i < BUILTIN_COUNT
                invariant
                    i <= BUILTIN_COUNT,
                    content@ == builtin_table(i as int),
                decreases BUILTIN_COUNT - i,
            {
                let name: String = pad(builtin_title(i), 14);
                content.append(name.as_str());
                content.append(" ");
                content.append(builtin_help(i));
                content.append("\n\n");
                i = i + 1;
            }
            trim_end(content.as_str())
        },
        HelpTab::Custom => {
            if s.custom_commands.len() == 0 {
                return "No custom commands found\n\nAdd Markdown files under .gocode/commands/ to define project-local slash commands.".to_owned();
            }
            let mut content: String = "Project commands (.gocode/commands/)\n\n".to_owned();
            let mut i: usize = 0;
            while i < s.custom_commands.len()
                invariant
                    i <= s.custom_commands@.len(),
                    content@ == custom_table(s.custom_commands@, i as int),
                decreases s.custom_commands@.len() - i,
            {
                let typed: String = cat2("/", s.custom_commands[i].name.as_str());
                let name: String = pad(typed.as_str(), 14);
                content.append(name.as_str());
                content.append(" ");
                content.append(describe(s.custom_commands[i].description.as_str()));
                content.append("\n\n");
                i = i + 1;
            }
            trim_end(content.as_str())
        },
    }
}

/// The height of the `/help` popup: its text, the tabs, the footer and the borders, at most 40.
pub fn help_height(content: &str) -> (r: u16)
    ensures
        r == layout::least(text::lines_of(content@).len() as int + 5, 40),
{
    let all: Vec<String> = lines(content);
    assert(all@.len() == text::texts(all@).len());
    if all.len() < 35 {
        (all.len() + 5) as u16
    } else {
        40
    }
}

/// The footer of the `/help` popup.
pub fn help_footer(scrollable: bool) -> (r: &'static str)
    ensures
        r@ == (if scrollable {
            "Tab/Shift+Tab to switch tabs · Up/Down to scroll · Esc/Enter to close"@
        } else {
            "Tab/Shift+Tab to switch tabs · Esc/Enter to close"@
        }),
{
    if scrollable {
        "Tab/Shift+Tab to switch tabs · Up/Down to scroll · Esc/Enter to close"
    } else {
        "Tab/Shift+Tab to switch tabs · Esc/Enter to close"
    }
}

// ---------------------------------------------------------------------------------------------
// Menus
// ---------------------------------------------------------------------------------------------

/// One row of a popup's menu of actions.
pub open spec fn menu_row(row: int, selected: bool, label: Seq<char>, about: Seq<char>) -> Seq<char> {
    screens::pointer(selected) + " "@ + text::decimal(row as nat) + ". "@ + label + " — "@ + about
        + "\n"@
}

fn append_menu_row(content: &mut String, row: u64, selected: bool, label: &str, about: &str)
    ensures
        final(content)@ == old(content)@ + menu_row(row as int, selected, label@, about@),
{
    let n: String = number(row);
    let mut line: String = cat4(pointer_of(selected), " ", n.as_str(), ". ");
    line.append(label);
    line.append(" — ");
    line.append(about);
    line.append("\n");
    content.append(line.as_str());
}

/// The text of the `/skills` menu.
pub open spec fn skills_menu(selected: int) -> Seq<char> {
    "Skills are extra capabilities the model can read on demand to handle specific tasks.\n\nChoose an action\n\n"@
        + menu_row(1, selected == 0, "List skills"@, "Show every discovered skill."@) + menu_row(
        2,
        selected == 1,
        "Enable/Disable Skills"@,
        "Turn skills on or off for this project."@,
    ) + "\nEnter to select · Esc to close"@
}

/// The text of the `/skills` menu.
pub fn skills_menu_text(selected: usize) -> (r: String)
    ensures
        r@ == skills_menu(selected as int),
{
    let mut r: String = "Skills are extra capabilities the model can read on demand to handle specific tasks.\n\nChoose an action\n\n".to_owned();
    append_menu_row(&mut r, 1, selected == 0, "List skills", "Show every discovered skill.");
    append_menu_row(
        &mut r,
        2,
        selected == 1,
        "Enable/Disable Skills",
        "Turn skills on or off for this project.",
    );
    r.append("\nEnter to select · Esc to close");
    r
}

/// The text of the `/mcp` menu.
pub open spec fn mcp_menu(selected: int) -> Seq<char> {
    "Choose an action\n\n"@ + menu_row(
        1,
        selected == 0,
        "Servers"@,
        "List configured MCP servers, connect/disconnect, and inspect their tools."@,
    ) + menu_row(
        2,
        selected == 1,
        "Add server"@,
        "Configure a new MCP server and save it to this project."@,
    ) + "\nEnter to select · Esc to close"@
}

/// The text of the `/mcp` menu.
pub fn mcp_menu_text(selected: usize) -> (r: String)
    ensures
        r@ == mcp_menu(selected as int),
{
    let mut r: String = "Choose an action\n\n".to_owned();
    append_menu_row(
        &mut r,
        1,
        selected == 0,
        "Servers",
        "List configured MCP servers, connect/disconnect, and inspect their tools.",
    );
    append_menu_row(
        &mut r,
        2,
        selected == 1,
        "Add server",
        "Configure a new MCP server and save it to this project.",
    );
    r.append("\nEnter to select · Esc to close");
    r
}

// ---------------------------------------------------------------------------------------------
// Skills
// ---------------------------------------------------------------------------------------------

/// The first `n` skills, each with its description and where it comes from.
pub open spec fn skill_entries(skills: Seq<SkillSummary>, n: int) -> Seq<char>
    decreases n,
{
    if n <= 0 {
        Seq::empty()
    } else {
        let skill = skills[n - 1];
        skill_entries(skills, n - 1) + skill.name@ + " — "@ + described(skill.description@) + " ("@
            + (match skill.source {
            SkillSource::Global => "global"@,
            SkillSource::Project => "project"@,
        }) + ")"@ + (if skill.enabled {
            ""@
        } else {
            " (disabled)"@
        }) + "\n\n"@
    }
}

/// What the `/skills` list shows.
pub open spec fn skill_listing(skills: Seq<SkillSummary>) -> Seq<char> {
    if skills.len() == 0 {
        "None found in ~/.agents/skills or the project's skills directory."@
    } else {
        skill_entries(skills, skills.len() as int)
    }
}

/// The body of the `/skills` list.
pub fn skills_list_text(skills: &Vec<SkillSummary>) -> (r: String)
    ensures
        r@ == skill_listing(skills@),
{
    if skills.len() == 0 {
        return "None found in ~/.agents/skills or the project's skills directory.".to_owned();
    }
    let mut content: String = String::new();
    let mut i: usize = 0;
    while i < skills.len()
        invariant
            i <= skills@.len(),
            content@ == skill_entries(skills@, i as int),
        decreases skills@.len() - i,
    {
        let source: &str = match skills[i].source {
            SkillSource::Global => "global",
            SkillSource::Project => "project",
        };
        let status: &str = if skills[i].enabled {
            ""
        } else {
            " (disabled)"
        };
        content.append(skills[i].name.as_str());
        content.append(" — ");
        content.append(describe(skills[i].description.as_str()));
        content.append(" (");
        content.append(source);
        content.append(")");
        content.append(status);
        content.append("\n\n");
        i = i + 1;
    }
    content
}

/// One row of the skill checkboxes.
pub open spec fn skill_row(skill: SkillSummary, selected: bool) -> Seq<char> {
    screens::pointer(selected) + " "@ + (if skill.enabled {
        "[x]"@
    } else {
        "[ ]"@
    }) + " "@ + skill.name@ + " — "@ + described(skill.description@)
}

fn format_skill_row(skill: &SkillSummary, selected: bool) -> (r: String)
    ensures
        r@ == skill_row(*skill, selected),
{
    let checkbox: &str = if skill.enabled {
        "[x]"
    } else {
        "[ ]"
    };
    let mut r: String = cat5(pointer_of(selected), " ", checkbox, " ", skill.name.as_str());
    r.append(" — ");
    r.append(describe(skill.description.as_str()));
    r
}

/// The visible skill checkboxes.
pub open spec fn skill_rows(p: SkillPanel, rows: int) -> Seq<Seq<char>> {
    let (first, shown) = screens::visible(p.skills@.len() as int, p.selected as int, rows);
    Seq::new(
        shown as nat,
        |i: int| skill_row(p.skills@[first + i], first + i == p.selected),
    )
}

/// What the skill checkboxes show.
pub open spec fn skill_boxes(p: SkillPanel, rows: int) -> Seq<char> {
    if p.skills@.len() == 0 {
        "None found in ~/.agents/skills or the project's skills directory."@
    } else {
        text::joined(skill_rows(p, rows), "\n"@)
    }
}

/// The body of the enable/disable screen, in a viewport of some rows.
pub fn skills_toggle_text(p: &SkillPanel, rows: u16) -> (r: String)
    ensures
        r@ == skill_boxes(*p, rows as int),
{
    if p.skills.len() == 0 {
        return "None found in ~/.agents/skills or the project's skills directory.".to_owned();
    }
    let (first, shown) = visible_rows(p.skills.len(), p.selected, rows as usize);
    let ghost all = skill_rows(*p, rows as int);
    let mut list: Vec<String> = Vec::new();
    let mut i: usize = 0;
    while i < shown
        invariant
            i <= shown,
            first + shown <= p.skills.len() || shown == 0,
            all == skill_rows(*p, rows as int),
            all.len() == shown,
            first == screens::visible(
                p.skills@.len() as int,
                p.selected as int,
                rows as int,
            ).0,
            list@.len() == i,
            forall|j: int| 0 <= j < i ==> (#[trigger] list@[j])@ == all[j],
        decreases shown - i,
    {
        let at: usize = first + i;
        list.push(format_skill_row(&p.skills[at], at == p.selected));
        assert(list@[i as int]@ == all[i as int]);
        i = i + 1;
    }
    assert(text::texts(list@) =~= all);
    join(&list, "\n")
}

// ---------------------------------------------------------------------------------------------
// MCP servers
// ---------------------------------------------------------------------------------------------

/// One row of the server list: cursor, name, transport, and live status.
pub open spec fn server_row(server: McpServerStatus, selected: bool) -> Seq<char> {
    let status = match server.error {
        Some(error) => "Error: "@ + error@,
        None => if server.connected {
            "Connected ("@ + text::decimal(server.tool_count as nat) + " tools)"@
        } else {
            "Disconnected"@
        },
    };
    let hint = if server.needs_authorization && !server.connected {
        " [press o to authorize]"@
    } else {
        ""@
    };
    screens::pointer(selected) + " "@ + server.name@ + " ("@ + server.transport@ + ") — "@ + status
        + hint
}

/// One row of the `/mcp` server list.
pub fn mcp_server_row(server: &McpServerStatus, selected: bool) -> (r: String)
    ensures
        r@ == server_row(*server, selected),
{
    let status: String = match &server.error {
        Some(error) => cat2("Error: ", error.as_str()),
        None => {
            if server.connected {
                let n: String = number(server.tool_count as u64);
                cat3("Connected (", n.as_str(), " tools)")
            } else {
                "Disconnected".to_owned()
            }
        },
    };
    let hint: &str = if server.needs_authorization && !server.connected {
        " [press o to authorize]"
    } else {
        ""
    };
    let mut r: String = cat5(
        pointer_of(selected),
        " ",
        server.name.as_str(),
        " (",
        server.transport.as_str(),
    );
    r.append(") — ");
    r.append(status.as_str());
    r.append(hint);
    r
}

/// The visible rows of the server list.
pub open spec fn server_rows(p: McpPanel, rows: int) -> Seq<Seq<char>> {
    let (first, shown) = screens::visible(p.servers@.len() as int, p.selected as int, rows);
    Seq::new(
        shown as nat,
        |i: int| server_row(p.servers@[first + i], first + i == p.selected),
    )
}

/// What the server list shows.
pub open spec fn server_listing(p: McpPanel, rows: int) -> Seq<char> {
    if p.servers@.len() == 0 {
        "None configured. Add one to ~/.config/gocode/mcp.toml or .gocode/mcp.toml, then reopen /mcp."@
    } else {
        text::joined(server_rows(p, rows), "\n"@)
    }
}

/// The body of the `/mcp` server list, in a viewport of some rows.
pub fn mcp_server_list_text(p: &McpPanel, rows: u16) -> (r: String)
    ensures
        r@ == server_listing(*p, rows as int),
{
    if p.servers.len() == 0 {
        return "None configured. Add one to ~/.config/gocode/mcp.toml or .gocode/mcp.toml, then reopen /mcp.".to_owned();
    }
    let (first, shown) = visible_rows(p.servers.len(), p.selected, rows as usize);
    let ghost all = server_rows(*p, rows as int);
    let mut list: Vec<String> = Vec::new();
    let mut i: usize = 0;
    while i < shown
        invariant
            i <= shown,
            first + shown <= p.servers.len() || shown == 0,
            all == server_rows(*p, rows as int),
            all.len() == shown,
            first == screens::visible(
                p.servers@.len() as int,
                p.selected as int,
                rows as int,
            ).0,
            list@.len() == i,
            forall|j: int| 0 <= j < i ==> (#[trigger] list@[j])@ == all[j],
        decreases shown - i,
    {
        let at: usize = first + i;
        list.push(mcp_server_row(&p.servers[at], at == p.selected));
        assert(list@[i as int]@ == all[i as int]);
        i = i + 1;
    }
    assert(text::texts(list@) =~= all);
    join(&list, "\n")
}

/// The title of the server detail screen.
pub open spec fn server_title(p: McpPanel) -> Seq<char> {
    if p.selected < p.servers@.len() {
        "Gocode · MCP · "@ + p.servers@[p.selected as int].name@
    } else {
        "Gocode · MCP Server"@
    }
}

/// The title of the `/mcp` server detail screen.
pub fn mcp_server_title(p: &McpPanel) -> (r: String)
    ensures
        r@ == server_title(*p),
{
    if p.selected < p.servers.len() {
        cat2("Gocode · MCP · ", p.servers[p.selected].name.as_str())
    } else {
        "Gocode · MCP Server".to_owned()
    }
}

/// The first `n` tools, one a line.
pub open spec fn tool_lines(tools: Seq<Seq<char>>, n: int) -> Seq<char>
    decreases n,
{
    if n <= 0 {
        "Tools:\n"@
    } else {
        tool_lines(tools, n - 1) + "  - "@ + tools[n - 1] + "\n"@
    }
}

/// What the server detail screen shows.
pub open spec fn server_detail(p: McpPanel) -> Seq<char> {
    if p.selected < p.servers@.len() {
        let server = p.servers@[p.selected as int];
        let status = match server.error {
            Some(error) => "Error: "@ + error@,
            None => if server.connected {
                "Connected"@
            } else {
                "Disconnected"@
            },
        };
        let head = "Transport: "@ + server.transport@ + "\nStatus: "@ + status + "\n\n"@;
        let tools = text::texts(server.tool_names@);
        if tools.len() == 0 {
            head + "No tools discovered yet. Connect this server to list them."@
        } else {
            head + tool_lines(tools, tools.len() as int)
        }
    } else {
        "This server is no longer configured."@
    }
}

fn format_tools(tools: &Vec<String>) -> (r: String)
    ensures
        r@ == tool_lines(text::texts(tools@), tools@.len() as int),
{
    let mut r: String = "Tools:\n".to_owned();
    let mut i: usize = 0;
    while i < tools.len()
        invariant
            i <= tools@.len(),
            r@ == tool_lines(text::texts(tools@), i as int),
        decreases tools@.len() - i,
    {
        assert(text::texts(tools@)[i as int] == tools@[i as int]@);
        r.append("  - ");
        r.append(tools[i].as_str());
        r.append("\n");
        i = i + 1;
    }
    r
}

/// The body of the `/mcp` server detail screen.
pub fn mcp_server_detail_text(p: &McpPanel) -> (r: String)
    ensures
        r@ == server_detail(*p),
{
    if p.selected >= p.servers.len() {
        return "This server is no longer configured.".to_owned();
    }
    let server: &McpServerStatus = &p.servers[p.selected];
    let status: String = match &server.error {
        Some(error) => cat2("Error: ", error.as_str()),
        None => {
            if server.connected {
                "Connected".to_owned()
            } else {
                "Disconnected".to_owned()
            }
        },
    };
    let mut r: String = cat5(
        "Transport: ",
        server.transport.as_str(),
        "\nStatus: ",
        status.as_str(),
        "\n\n",
    );
    assert(server.tool_names@.len() == text::texts(server.tool_names@).len());
    if server.tool_names.len() == 0 {
        r.append("No tools discovered yet. Connect this server to list them.");
    } else {
        let tools: String = format_tools(&server.tool_names);
        r.append(tools.as_str());
    }
    r
}

/// Two choices, the first or the second of which is pointed at.
pub open spec fn two_choices(second: bool, a: Seq<char>, b: Seq<char>) -> Seq<char> {
    screens::pointer(!second) + a + "\n"@ + screens::pointer(second) + b
}

/// What a step of the "Add server" wizard asks for, what was entered, and what the keys do.
pub open spec fn wizard_parts(p: McpPanel) -> (Seq<char>, Seq<char>, Seq<char>) {
    match p.add_step {
        McpAddStep::Name => (
            "Server name"@,
            p.add_name@ + "_"@,
            "Enter to continue · Esc to cancel"@,
        ),
        McpAddStep::TransportChoice => (
            "Transport"@,
            two_choices(p.add_http, " stdio (local command)"@, " http (remote server)"@),
            "Up/Down to choose · Enter to continue · Esc to go back"@,
        ),
        McpAddStep::CommandLine => (
            "Command, with args (e.g. npx -y @modelcontextprotocol/server-filesystem /path)"@,
            p.add_command_line@ + "_"@,
            "Enter to continue · Esc to go back"@,
        ),
        McpAddStep::Url => (
            "Server URL (e.g. https://mcp.example.com/mcp)"@,
            p.add_url@ + "_"@,
            "Enter to continue · Esc to go back"@,
        ),
        McpAddStep::AuthChoice => (
            "Authentication"@,
            two_choices(p.add_api_key_auth, " None"@, " API key"@),
            "Up/Down to choose · Enter to continue · Esc to go back"@,
        ),
        McpAddStep::ApiKey => (
            "API key (stored in your OS keyring, never written to mcp.toml)"@,
            screens::hidden(p.add_api_key@) + "_"@,
            "Enter to save · Esc to go back"@,
        ),
    }
}

/// What the "Add server" wizard shows; an API key is masked.
pub open spec fn wizard(p: McpPanel) -> Seq<char> {
    let (asked, entered, keys) = wizard_parts(p);
    "Add MCP server\n\n"@ + asked + "\n\n"@ + entered + "\n\n"@ + keys
}

fn format_choices(second: bool, a: &str, b: &str) -> (r: String)
    ensures
        r@ == two_choices(second, a@, b@),
{
    cat5(pointer_of(!second), a, "\n", pointer_of(second), b)
}

/// The text of the "Add server" wizard.
pub fn mcp_add_server_text(p: &McpPanel) -> (r: String)
    ensures
        r@ == wizard(*p),
{
    let (asked, entered, keys): (&str, String, &str) = match p.add_step {
        McpAddStep::Name => (
            "Server name",
            cat2(p.add_name.as_str(), "_"),
            "Enter to continue · Esc to cancel",
        ),
        McpAddStep::TransportChoice => (
            "Transport",
            format_choices(p.add_http, " stdio (local command)", " http (remote server)"),
            "Up/Down to choose · Enter to continue · Esc to go back",
        ),
        McpAddStep::CommandLine => (
            "Command, with args (e.g. npx -y @modelcontextprotocol/server-filesystem /path)",
            cat2(p.add_command_line.as_str(), "_"),
            "Enter to continue · Esc to go back",
        ),
        McpAddStep::Url => (
            "Server URL (e.g. https://mcp.example.com/mcp)",
            cat2(p.add_url.as_str(), "_"),
            "Enter to continue · Esc to go back",
        ),
        McpAddStep::AuthChoice => (
            "Authentication",
            format_choices(p.add_api_key_auth, " None", " API key"),
            "Up/Down to choose · Enter to continue · Esc to go back",
        ),
        McpAddStep::ApiKey => {
            let dots: String = masked(p.add_api_key.as_str());
            (
                "API key (stored in your OS keyring, never written to mcp.toml)",
                cat2(dots.as_str(), "_"),
                "Enter to save · Esc to go back",
            )
        },
    };
    let mut r: String = cat5("Add MCP server\n\n", asked, "\n\n", entered.as_str(), "\n\n");
    r.append(keys);
    r
}

/// What the wizard shows of an API key depends on nothing but its length.
pub proof fn law_wizard_hides_the_api_key(a: McpPanel, b: McpPanel)
    requires
        a == (McpPanel { add_api_key: a.add_api_key, ..b }),
        a.add_api_key@.len() == b.add_api_key@.len(),
    ensures
        wizard(a) == wizard(b),
{
}

// ---------------------------------------------------------------------------------------------
// Subagents
// ---------------------------------------------------------------------------------------------

/// The first eight bytes of an id where they are whole characters, else the id.
pub open spec fn brief(id: Seq<char>) -> Seq<char> {
    match text::byte_cut(id, 8) {
        Some(head) => head,
        None => id,
    }
}

/// Shortens an id for display.
pub fn abbreviate(id: &str) -> (r: String)
    ensures
        r@ == brief(id@),
{
    match cut_at(id, 8) {
        Some(head) => head,
        None => id.to_owned(),
    }
}

/// One row of the subagent list: cursor, id, mode, task, status, elapsed time, model, worktree.
pub open spec fn record_row(record: SubagentRecord, selected: bool) -> Seq<char> {
    let nesting = if record.parent_subagent_id is Some {
        "↳ "@
    } else {
        ""@
    };
    let worktree = match record.worktree_path {
        Some(path) => ", worktree "@ + path@,
        None => ""@,
    };
    screens::pointer(selected) + " "@ + nesting + brief(record.id@) + " ["@ + record.mode@
        + "] "@ + record.task_summary@ + " — "@ + record.status@ + " ("@ + text::decimal(
        record.elapsed_seconds as nat,
    ) + "s, model "@ + record.model@ + worktree + ")"@
}

/// One row of the `/agents` list.
pub fn agent_row(record: &SubagentRecord, selected: bool) -> (r: String)
    ensures
        r@ == record_row(*record, selected),
{
    let nesting: &str = if record.parent_subagent_id.is_some() {
        "↳ "
    } else {
        ""
    };
    let id: String = abbreviate(record.id.as_str());
    let worktree: String = match &record.worktree_path {
        Some(path) => cat2(", worktree ", path.as_str()),
        None => "".to_owned(),
    };
    let elapsed: String = number(record.elapsed_seconds);
    let mut r: String = cat5(pointer_of(selected), " ", nesting, id.as_str(), " [");
    r.append(record.mode.as_str());
    r.append("] ");
    r.append(record.task_summary.as_str());
    r.append(" — ");
    r.append(record.status.as_str());
    r.append(" (");
    r.append(elapsed.as_str());
    r.append("s, model ");
    r.append(record.model.as_str());
    r.append(worktree.as_str());
    r.append(")");
    r
}

/// The visible rows of the subagent list.
pub open spec fn record_rows(s: AppState, rows: int) -> Seq<Seq<char>> {
    let agents = s.agent_panel.agents@;
    let selected = s.agent_panel.selected as int;
    let (first, shown) = screens::visible(agents.len() as int, selected, rows);
    Seq::new(shown as nat, |i: int| record_row(agents[first + i], first + i == selected))
}

/// What the subagent list shows.
pub open spec fn record_listing(s: AppState, rows: int) -> Seq<char> {
    if s.agent_panel.agents@.len() == 0 {
        "None yet. Use `/agent spawn <task>` to create one."@
    } else {
        text::joined(record_rows(s, rows), "\n"@)
    }
}

/// The body of the `/agents` list, in a viewport of some rows.
pub fn agents_list_text(s: &AppState, rows: u16) -> (r: String)
    ensures
        r@ == record_listing(*s, rows as int),
{
    if s.agent_panel.agents.len() == 0 {
        return "None yet. Use `/agent spawn <task>` to create one.".to_owned();
    }
    let (first, shown) = visible_rows(
        s.agent_panel.agents.len(),
        s.agent_panel.selected,
        rows as usize,
    );
    let ghost all = record_rows(*s, rows as int);
    let mut list: Vec<String> = Vec::new();
    let mut i: usize = 0;
    while i < shown
        invariant
            i <= shown,
            first + shown <= s.agent_panel.agents.len() || shown == 0,
            all == record_rows(*s, rows as int),
            all.len() == shown,
            first == screens::visible(
                s.agent_panel.agents@.len() as int,
                s.agent_panel.selected as int,
                rows as int,
            ).0,
            list@.len() == i,
            forall|j: int| 0 <= j < i ==> (#[trigger] list@[j])@ == all[j],
        decreases shown - i,
    {
        let at: usize = first + i;
        list.push(agent_row(&s.agent_panel.agents[at], at == s.agent_panel.selected));
        assert(list@[i as int]@ == all[i as int]);
        i = i + 1;
    }
    assert(text::texts(list@) =~= all);
    join(&list, "\n")
}

/// The footer of the subagent detail screen.
pub open spec fn detail_footer(scrollable: bool, has_next_steps: bool) -> Seq<char> {
    if scrollable && has_next_steps {
        "Up/Down to scroll · n to spawn a next step · r to refresh · Esc to go back"@
    } else if scrollable {
        "Up/Down to scroll · r to refresh · Esc to go back"@
    } else if has_next_steps {
        "n to spawn a next step · r to refresh · Esc to go back"@
    } else {
        "r to refresh · Esc to go back"@
    }
}

/// The `/agents` detail screen's footer hint, by whether there is anything to scroll and whether
/// the result has next steps.
pub fn agents_detail_footer(scrollable: bool, has_next_steps: bool) -> (r: &'static str)
    ensures
        r@ == detail_footer(scrollable, has_next_steps),
{
    if scrollable && has_next_steps {
        "Up/Down to scroll · n to spawn a next step · r to refresh · Esc to go back"
    } else if scrollable {
        "Up/Down to scroll · r to refresh · Esc to go back"
    } else if has_next_steps {
        "n to spawn a next step · r to refresh · Esc to go back"
    } else {
        "r to refresh · Esc to go back"
    }
}

/// Whether the subagent shown in detail has next steps.
pub fn has_next_steps(detail: &Option<SubagentRecord>) -> (r: bool)
    ensures
        r == (match *detail {
            Some(record) => match record.result {
                Some(result) => result.next_steps@.len() > 0,
                None => false,
            },
            None => false,
        }),
{
    match detail {
        Some(record) => match &record.result {
            Some(result) => result.next_steps.len() > 0,
            None => false,
        },
        None => false,
    }
}

/// The title of the subagent detail screen.
pub fn agents_detail_title(detail: &Option<SubagentRecord>) -> (r: String)
    ensures
        r@ == (match *detail {
            Some(record) => "Gocode · Subagent · "@ + brief(record.id@),
            None => "Gocode · Subagent"@,
        }),
{
    match detail {
        Some(record) => {
            let id: String = abbreviate(record.id.as_str());
            cat2("Gocode · Subagent · ", id.as_str())
        },
        None => "Gocode · Subagent".to_owned(),
    }
}

/// The first `n` messages of a subagent's conversation.
pub open spec fn message_lines(messages: Seq<SubagentMessage>, n: int) -> Seq<char>
    decreases n,
{
    if n <= 0 {
        "\nMessages:\n"@
    } else {
        message_lines(messages, n - 1) + "  ["@ + (match messages[n - 1].role {
            SubagentMessageRole::Supervisor => "you"@,
            SubagentMessageRole::Subagent => "subagent"@,
        }) + "] "@ + messages[n - 1].text@ + "\n"@
    }
}

/// A titled list of a result, or nothing where it is empty.
pub open spec fn section(title: Seq<char>, items: Seq<String>) -> Seq<char> {
    if items.len() == 0 {
        ""@
    } else {
        "  "@ + title + ": "@ + text::joined(text::texts(items), "; "@) + "\n"@
    }
}

/// What is shown of a subagent's result.
pub open spec fn result_lines(result: SubagentResult) -> Seq<char> {
    "\nResult:\n  "@ + result.summary@ + "\n"@ + section("Findings"@, result.findings@) + section(
        "Files changed"@,
        result.files_changed@,
    ) + section("Risks"@, result.risks@) + section("Next steps"@, result.next_steps@) + (
    match result.error {
        Some(error) => "  Error: "@ + error@ + "\n"@,
        None => ""@,
    })
}

/// What the subagent detail screen shows of a record.
pub open spec fn record_detail(record: SubagentRecord) -> Seq<char> {
    "Task: "@ + record.task_summary@ + "\nMode: "@ + record.mode@ + "   Status: "@
        + record.status@ + "   Elapsed: "@ + text::decimal(record.elapsed_seconds as nat)
        + "s\nModel: "@ + record.model@ + "\n"@ + (match record.parent_subagent_id {
        Some(parent) => "Depth: "@ + text::decimal(record.depth as nat) + " (spawned by "@ + brief(
            parent@,
        ) + ")\n"@,
        None => ""@,
    }) + (match record.worktree_path {
        Some(path) => "Worktree: "@ + path@ + " (branch "@ + (match record.branch {
            Some(branch) => branch@,
            None => "?"@,
        }) + ")\n"@,
        None => ""@,
    }) + (if record.messages@.len() > 0 {
        message_lines(record.messages@, record.messages@.len() as int)
    } else {
        ""@
    }) + (match record.result {
        Some(result) => result_lines(result),
        None => "\nNo result yet."@,
    })
}

fn format_section(title: &str, items: &Vec<String>) -> (r: String)
    ensures
        r@ == section(title@, items@),
{
    if items.len() == 0 {
        "".to_owned()
    } else {
        let list: String = join(items, "; ");
        cat5("  ", title, ": ", list.as_str(), "\n")
    }
}

fn format_result(result: &SubagentResult) -> (r: String)
    ensures
        r@ == result_lines(*result),
{
    let findings: String = format_section("Findings", &result.findings);
    let files: String = format_section("Files changed", &result.files_changed);
    let risks: String = format_section("Risks", &result.risks);
    let steps: String = format_section("Next steps", &result.next_steps);
    let error: String = match &result.error {
        Some(e) => cat3("  Error: ", e.as_str(), "\n"),
        None => "".to_owned(),
    };
    let mut r: String = cat3("\nResult:\n  ", result.summary.as_str(), "\n");
    r.append(findings.as_str());
    r.append(files.as_str());
    r.append(risks.as_str());
    r.append(steps.as_str());
    r.append(error.as_str());
    r
}

fn format_messages(messages: &Vec<SubagentMessage>) -> (r: String)
    ensures
        r@ == message_lines(messages@, messages@.len() as int),
{
    let mut r: String = "\nMessages:\n".to_owned();
    let mut i: usize = 0;
    while i < messages.len()
        invariant
            i <= messages@.len(),
            r@ == message_lines(messages@, i as int),
        decreases messages@.len() - i,
    {
        let role: &str = match messages[i].role {
            SubagentMessageRole::Supervisor => "you",
            SubagentMessageRole::Subagent => "subagent",
        };
        r.append("  [");
        r.append(role);
        r.append("] ");
        r.append(messages[i].text.as_str());
        r.append("\n");
        i = i + 1;
    }
    r
}

fn format_origin(record: &SubagentRecord) -> (r: String)
    ensures
        r@ == (match record.parent_subagent_id {
            Some(parent) => "Depth: "@ + text::decimal(record.depth as nat) + " (spawned by "@
                + brief(parent@) + ")\n"@,
            None => ""@,
        }),
{
    match &record.parent_subagent_id {
        Some(parent) => {
            let depth: String = number(record.depth as u64);
            let id: String = abbreviate(parent.as_str());
            cat5("Depth: ", depth.as_str(), " (spawned by ", id.as_str(), ")\n")
        },
        None => "".to_owned(),
    }
}

fn format_worktree(record: &SubagentRecord) -> (r: String)
    ensures
        r@ == (match record.worktree_path {
            Some(path) => "Worktree: "@ + path@ + " (branch "@ + (match record.branch {
                Some(branch) => branch@,
                None => "?"@,
            }) + ")\n"@,
            None => ""@,
        }),
{
    match &record.worktree_path {
        Some(path) => {
            let branch: &str = match &record.branch {
                Some(b) => b.as_str(),
                None => "?",
            };
            cat5("Worktree: ", path.as_str(), " (branch ", branch, ")\n")
        },
        None => "".to_owned(),
    }
}

/// The body of the `/agents` detail screen.
pub fn agents_detail_text(detail: &Option<SubagentRecord>) -> (r: String)
    ensures
        r@ == (match *detail {
            Some(record) => record_detail(record),
            None => "This subagent is no longer listed."@,
        }),
{
    let record: &SubagentRecord = match detail {
        Some(record) => record,
        None => {
            return "This subagent is no longer listed.".to_owned();
        },
    };
    let elapsed: String = number(record.elapsed_seconds);
    let origin: String = format_origin(record);
    let worktree: String = format_worktree(record);
    let messages: String = if record.messages.len() > 0 {
        format_messages(&record.messages)
    } else {
        "".to_owned()
    };
    let result: String = match &record.result {
        Some(result) => format_result(result),
        None => "\nNo result yet.".to_owned(),
    };
    let mut r: String = cat5(
        "Task: ",
        record.task_summary.as_str(),
        "\nMode: ",
        record.mode.as_str(),
        "   Status: ",
    );
    r.append(record.status.as_str());
    r.append("   Elapsed: ");
    r.append(elapsed.as_str());
    r.append("s\nModel: ");
    r.append(record.model.as_str());
    r.append("\n");
    r.append(origin.as_str());
    r.append(worktree.as_str());
    r.append(messages.as_str());
    r.append(result.as_str());
    r
}

/// A text can be scrolled until its last line is shown, and not at all where it fits.
pub proof fn law_scrolling_ends_with_the_last_line(line_count: int, rows: int)
    requires
        0 <= line_count <= u16::MAX,
        rows >= 1,
    ensures
        line_count <= rows ==> scroll_limit(line_count, rows) == 0,
        line_count > rows ==> scroll_limit(line_count, rows) + rows == line_count,
{
}

/// A list points at the selected row and at no other: at its place while it is among the first, and
/// on the last row once the list has moved on.
pub proof fn law_a_list_points_at_the_selected_row(
    skills: SkillPanel,
    servers: McpPanel,
    s: AppState,
    rows: int,
    i: int,
)
    requires
        rows >= 1,
        skills.selected < skills.skills@.len(),
        servers.selected < servers.servers@.len(),
        s.agent_panel.selected < s.agent_panel.agents@.len(),
    ensures
        0 <= i < skill_rows(skills, rows).len() ==> (skill_rows(skills, rows)[i][0] == '>' <==> i
            == (if skills.selected < rows {
            skills.selected as int
        } else {
            rows - 1
        })),
        0 <= i < server_rows(servers, rows).len() ==> (server_rows(servers, rows)[i][0] == '>' <==> i
            == (if servers.selected < rows {
            servers.selected as int
        } else {
            rows - 1
        })),
        0 <= i < record_rows(s, rows).len() ==> (record_rows(s, rows)[i][0] == '>' <==> i == (
        if s.agent_panel.selected < rows {
            s.agent_panel.selected as int
        } else {
            rows - 1
        })),
        skill_rows(skills, rows).len() <= rows && skill_rows(skills, rows).len() > 0,
{
    reveal_strlit(">");
    reveal_strlit(" ");
    screens::law_a_list_fills_its_rows(skills.skills@.len() as int, skills.selected as int, rows);
    screens::law_a_list_fills_its_rows(
        servers.servers@.len() as int,
        servers.selected as int,
        rows,
    );
    screens::law_a_list_fills_its_rows(
        s.agent_panel.agents@.len() as int,
        s.agent_panel.selected as int,
        rows,
    );
}

/// A subagent is shown by the first eight characters of its id, as in the other lists.
pub proof fn law_a_subagent_is_shown_by_eight_characters(id: Seq<char>)
    requires
        submission::is_plain_id(id),
    ensures
        id.len() >= 8 ==> brief(id) == id.take(8),
        id.len() < 8 ==> brief(id) == id,
{
    submission::lemma_plain_id(id, 8);
    if id.len() < 8 {
        reduce::lemma_cut_is_a_beginning(id, 8);
        match text::byte_cut(id, 8) {
            Some(head) => {
                submission::lemma_plain_id(id, 8);
                assert(head =~= id.subrange(0, head.len() as int));
                assert(submission::is_plain_id(head)) by {
                    assert forall|i: int| 0 <= i < head.len() implies (#[trigger] head[i]) as u32
                        <= 127 by {
                        assert(head[i] == id[i]);
                    }
                }
                submission::lemma_plain_id(head, 8);
            },
            None => {},
        }
    }
}

} // verus!
