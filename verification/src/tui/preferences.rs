//! The `/keymap`, `/theme` and `/personality` commands.

use vstd::prelude::*;

use crate::protocol;
use crate::protocol::{
    is_bound_once, AppCommand, KeyAction, KeyBinding, PersonalityName, Preferences, ThemeName,
};
use crate::text;
use crate::text_laws;
use crate::text::{
    cat3, cat5, eq_ignore_ascii_case, join, same_text, to_ascii_lowercase, words,
};
use crate::tui::entry;
use crate::tui::keys;
use crate::tui::keys::find_binding;
use crate::tui::reduce::{note, report, warn};
use crate::tui::requests::ModeEntry;
use crate::tui::state::{AppState, Transcript};

verus! {

// ---------------------------------------------------------------------------------------------
// The catalog
// ---------------------------------------------------------------------------------------------

/// An action that can be bound: how it is shown, and the shortcut it has to begin with.
#[derive(Debug, PartialEq, Eq)]
pub struct ActionEntry {
    pub action: KeyAction,
    pub label: String,
    pub shortcut: String,
}

/// A palette that can be chosen.
#[derive(Debug, PartialEq, Eq)]
pub struct ThemeEntry {
    pub theme: ThemeName,
    pub label: String,
}

/// A response style that can be chosen.
#[derive(Debug, PartialEq, Eq)]
pub struct PersonalityEntry {
    pub personality: PersonalityName,
    pub label: String,
}

/// What the product offers to choose from, in display order.
#[derive(Debug, PartialEq, Eq)]
pub struct Catalog {
    /// The version of the product.
    pub version: String,
    pub actions: Vec<ActionEntry>,
    pub themes: Vec<ThemeEntry>,
    pub personalities: Vec<PersonalityEntry>,
    /// The number of input tokens at which a conversation is compacted.
    pub compact_threshold: u64,
}

/// What the product reads in the words of a command.
#[derive(Debug, PartialEq, Eq)]
pub struct Reading {
    /// The action that the word of `requested_name` names.
    pub action: Option<KeyAction>,
    /// The theme that the word of `requested_name` names.
    pub theme: Option<ThemeName>,
    /// The personality that the word of `requested_name` names.
    pub personality: Option<PersonalityName>,
    /// Whether the shortcut of `requested_shortcut` is one.
    pub shortcut_valid: bool,
    /// The words that name a mode of subagents.
    pub modes: Vec<ModeEntry>,
}

/// The first entry at or after `from` for an action, or -1.
pub open spec fn action_row(list: Seq<ActionEntry>, action: KeyAction, from: int) -> int
    decreases list.len() - from,
{
    if from >= list.len() {
        -1
    } else if list[from].action == action {
        from
    } else {
        action_row(list, action, from + 1)
    }
}

/// The first entry at or after `from` for a theme, or -1.
pub open spec fn theme_row(list: Seq<ThemeEntry>, theme: ThemeName, from: int) -> int
    decreases list.len() - from,
{
    if from >= list.len() {
        -1
    } else if list[from].theme == theme {
        from
    } else {
        theme_row(list, theme, from + 1)
    }
}

/// The first entry at or after `from` for a personality, or -1.
pub open spec fn personality_row(
    list: Seq<PersonalityEntry>,
    personality: PersonalityName,
    from: int,
) -> int
    decreases list.len() - from,
{
    if from >= list.len() {
        -1
    } else if list[from].personality == personality {
        from
    } else {
        personality_row(list, personality, from + 1)
    }
}

impl Catalog {
    /// How an action is shown; nothing for one that is not listed.
    pub open spec fn action_label(self, action: KeyAction) -> Seq<char> {
        let i = action_row(self.actions@, action, 0);
        if i >= 0 {
            self.actions@[i].label@
        } else {
            Seq::empty()
        }
    }

    /// How a theme is shown; nothing for one that is not listed.
    pub open spec fn theme_label(self, theme: ThemeName) -> Seq<char> {
        let i = theme_row(self.themes@, theme, 0);
        if i >= 0 {
            self.themes@[i].label@
        } else {
            Seq::empty()
        }
    }

    /// How a personality is shown; nothing for one that is not listed.
    pub open spec fn personality_label(self, personality: PersonalityName) -> Seq<char> {
        let i = personality_row(self.personalities@, personality, 0);
        if i >= 0 {
            self.personalities@[i].label@
        } else {
            Seq::empty()
        }
    }

    /// The bindings that the product begins with.
    pub open spec fn defaults(self) -> Seq<KeyBinding> {
        Seq::new(
            self.actions@.len(),
            |i: int|
                KeyBinding { action: self.actions@[i].action, shortcut: self.actions@[i].shortcut },
        )
    }

    /// No action is listed twice.
    pub open spec fn wf(self) -> bool {
        protocol::binds_once(self.defaults())
    }

    /// Whether an action is listed.
    pub open spec fn lists(self, action: KeyAction) -> bool {
        action_row(self.actions@, action, 0) >= 0
    }

    /// Whether a keymap binds every listed action.
    pub open spec fn is_bound_by(self, keymap: Seq<KeyBinding>) -> bool {
        forall|i: int|
            0 <= i < self.actions@.len() ==> keys::binding_row(
                keymap,
                (#[trigger] self.actions@[i]).action,
                0,
            ) >= 0
    }

    /// Whether a keymap binds every listed action, and nothing else.
    pub open spec fn covers(self, keymap: Seq<KeyBinding>) -> bool {
        &&& self.is_bound_by(keymap)
        &&& forall|i: int|
            0 <= i < keymap.len() ==> action_row(
                self.actions@,
                (#[trigger] keymap[i]).action,
                0,
            ) >= 0
    }

    fn find_action(&self, action: KeyAction) -> (r: Option<usize>)
        ensures
            match r {
                Some(i) => i < self.actions@.len() && action_row(self.actions@, action, 0) == i,
                None => action_row(self.actions@, action, 0) == -1,
            },
    {
        let mut i: usize = 0;
        while i < self.actions.len()
            invariant
                i <= self.actions@.len(),
                action_row(self.actions@, action, 0) == action_row(self.actions@, action, i as int),
            decreases self.actions@.len() - i,
        {
            if self.actions[i].action == action {
                return Some(i);
            }
            i = i + 1;
        }
        None
    }

    /// How an action is shown.
    pub fn label_of_action(&self, action: KeyAction) -> (r: String)
        ensures
            r@ == self.action_label(action),
    {
        match self.find_action(action) {
            Some(i) => self.actions[i].label.clone(),
            None => String::new(),
        }
    }

    /// How a theme is shown.
    pub fn label_of_theme(&self, theme: ThemeName) -> (r: String)
        ensures
            r@ == self.theme_label(theme),
    {
        let mut i: usize = 0;
        while i < self.themes.len()
            invariant
                i <= self.themes@.len(),
                theme_row(self.themes@, theme, 0) == theme_row(self.themes@, theme, i as int),
            decreases self.themes@.len() - i,
        {
            if self.themes[i].theme == theme {
                return self.themes[i].label.clone();
            }
            i = i + 1;
        }
        String::new()
    }

    /// How a personality is shown.
    pub fn label_of_personality(&self, personality: PersonalityName) -> (r: String)
        ensures
            r@ == self.personality_label(personality),
    {
        let mut i: usize = 0;
        while i < self.personalities.len()
            invariant
                i <= self.personalities@.len(),
                personality_row(self.personalities@, personality, 0) == personality_row(
                    self.personalities@,
                    personality,
                    i as int,
                ),
            decreases self.personalities@.len() - i,
        {
            if self.personalities[i].personality == personality {
                return self.personalities[i].label.clone();
            }
            i = i + 1;
        }
        String::new()
    }

    /// Tells whether an action is listed.
    pub fn lists_action(&self, action: KeyAction) -> (r: bool)
        ensures
            r == self.lists(action),
    {
        self.find_action(action).is_some()
    }

    /// Tells whether no action is listed twice.
    pub fn is_sound(&self) -> (r: bool)
        ensures
            r == self.wf(),
    {
        is_bound_once(&self.default_keymap())
    }

    /// Tells whether a keymap binds every listed action.
    pub fn is_complete_in(&self, keymap: &Vec<KeyBinding>) -> (r: bool)
        ensures
            r == self.is_bound_by(keymap@),
    {
        let mut i: usize = 0;
        while i < self.actions.len()
            invariant
                i <= self.actions@.len(),
                forall|j: int|
                    0 <= j < i ==> keys::binding_row(
                        keymap@,
                        (#[trigger] self.actions@[j]).action,
                        0,
                    ) >= 0,
            decreases self.actions@.len() - i,
        {
            if find_binding(keymap, self.actions[i].action).is_none() {
                return false;
            }
            i = i + 1;
        }
        true
    }

    /// The bindings that the product begins with.
    pub fn default_keymap(&self) -> (r: Vec<KeyBinding>)
        ensures
            r@ == self.defaults(),
    {
        let mut r: Vec<KeyBinding> = Vec::new();
        let mut i: usize = 0;
        while i < self.actions.len()
            invariant
                i <= self.actions@.len(),
                r@ == self.defaults().take(i as int),
            decreases self.actions@.len() - i,
        {
            let row: KeyBinding = KeyBinding {
                action: self.actions[i].action,
                shortcut: self.actions[i].shortcut.clone(),
            };
            assert(row == self.defaults()[i as int]);
            r.push(row);
            i = i + 1;
            assert(r@ =~= self.defaults().take(i as int));
        }
        assert(r@ =~= self.defaults());
        r
    }
}

/// Finding an action's row, where there is one, finds that action.
proof fn lemma_action_row(list: Seq<ActionEntry>, action: KeyAction, from: int)
    requires
        0 <= from,
    ensures
        action_row(list, action, from) >= 0 ==> action_row(list, action, from) < list.len()
            && list[action_row(list, action, from)].action == action,
        action_row(list, action, from) >= -1,
        forall|i: int|
            from <= i < list.len() && (#[trigger] list[i]).action == action ==> action_row(
                list,
                action,
                from,
            ) >= 0,
    decreases list.len() - from,
{
    if from < list.len() && list[from].action != action {
        lemma_action_row(list, action, from + 1);
    }
}

/// Finding a binding's row, where there is one, finds that action.
proof fn lemma_binding_row(keymap: Seq<KeyBinding>, action: KeyAction, from: int)
    requires
        0 <= from,
    ensures
        keys::binding_row(keymap, action, from) >= 0 ==> keys::binding_row(keymap, action, from)
            < keymap.len() && keymap[keys::binding_row(keymap, action, from)].action == action,
        keys::binding_row(keymap, action, from) >= -1,
        forall|i: int|
            from <= i < keymap.len() && (#[trigger] keymap[i]).action == action
                ==> keys::binding_row(keymap, action, from) >= 0,
    decreases keymap.len() - from,
{
    if from < keymap.len() && keymap[from].action != action {
        lemma_binding_row(keymap, action, from + 1);
    }
}

// ---------------------------------------------------------------------------------------------
// The keymap
// ---------------------------------------------------------------------------------------------

/// The labels of the other actions among the first `n` bindings that have the same shortcut.
pub open spec fn rivals(
    catalog: Catalog,
    keymap: Seq<KeyBinding>,
    action: KeyAction,
    shortcut: Seq<char>,
    n: int,
) -> Seq<Seq<char>>
    decreases n,
{
    if n <= 0 {
        Seq::empty()
    } else {
        let before = rivals(catalog, keymap, action, shortcut, n - 1);
        let row = keymap[n - 1];
        if row.action != action && text::lowered(row.shortcut@) == text::lowered(shortcut) {
            before.push(catalog.action_label(row.action))
        } else {
            before
        }
    }
}

/// One line of the keymap table: the action, its shortcut, where that comes from and with what it
/// clashes.
pub open spec fn keymap_line(catalog: Catalog, keymap: Seq<KeyBinding>, row: int) -> Seq<char> {
    let e = catalog.actions@[row];
    let shortcut = match keys::bound(keymap, e.action) {
        Some(s) => s,
        None => Seq::empty(),
    };
    let clashes = rivals(catalog, keymap, e.action, shortcut, keymap.len() as int);
    let origin = if e.shortcut@ == shortcut {
        "default"@
    } else {
        "custom"@
    };
    let conflict = if clashes.len() == 0 {
        Seq::empty()
    } else {
        " · conflict: "@ + text::joined(clashes, ", "@)
    };
    e.label@ + " · "@ + shortcut + " · "@ + origin + conflict
}

/// The first `n` lines of the keymap table, under its heading.
pub open spec fn keymap_table(catalog: Catalog, keymap: Seq<KeyBinding>, n: int) -> Seq<char>
    decreases n,
{
    if n <= 0 {
        "Keymap (action · shortcut · origin)\n"@
    } else {
        keymap_table(catalog, keymap, n - 1) + keymap_line(catalog, keymap, n - 1) + "\n"@
    }
}

fn find_rivals(
    catalog: &Catalog,
    keymap: &Vec<KeyBinding>,
    action: KeyAction,
    shortcut: &str,
) -> (r: Vec<String>)
    ensures
        text::texts(r@) == rivals(*catalog, keymap@, action, shortcut@, keymap@.len() as int),
{
    let mut r: Vec<String> = Vec::new();
    let mut i: usize = 0;
    assert(text::texts(r@) =~= Seq::<Seq<char>>::empty());
    while i < keymap.len()
        invariant
            i <= keymap@.len(),
            text::texts(r@) == rivals(*catalog, keymap@, action, shortcut@, i as int),
        decreases keymap@.len() - i,
    {
        let other: KeyAction = keymap[i].action;
        if other != action && eq_ignore_ascii_case(keymap[i].shortcut.as_str(), shortcut) {
            let ghost before = text::texts(r@);
            r.push(catalog.label_of_action(other));
            assert(text::texts(r@) =~= before.push(catalog.action_label(other)));
        }
        i = i + 1;
    }
    r
}

fn format_keymap_line(catalog: &Catalog, keymap: &Vec<KeyBinding>, row: usize) -> (r: String)
    requires
        row < catalog.actions@.len(),
    ensures
        r@ == keymap_line(*catalog, keymap@, row as int),
{
    let e: &ActionEntry = &catalog.actions[row];
    let shortcut: String = match find_binding(keymap, e.action) {
        Some(i) => keymap[i].shortcut.clone(),
        None => String::new(),
    };
    let clashes: Vec<String> = find_rivals(catalog, keymap, e.action, shortcut.as_str());
    let origin: &str = if same_text(e.shortcut.as_str(), shortcut.as_str()) {
        "default"
    } else {
        "custom"
    };
    let mut line: String = cat5(e.label.as_str(), " · ", shortcut.as_str(), " · ", origin);
    if clashes.len() > 0 {
        assert(text::texts(clashes@).len() > 0);
        let list: String = join(&clashes, ", ");
        line.append(" · conflict: ");
        line.append(list.as_str());
    }
    assert(keys::bound(keymap@, e.action) is None ==> shortcut@ =~= Seq::<char>::empty());
    assert(line@ =~= keymap_line(*catalog, keymap@, row as int));
    line
}

fn format_keymap(catalog: &Catalog, keymap: &Vec<KeyBinding>) -> (r: String)
    ensures
        r@ == keymap_table(*catalog, keymap@, catalog.actions@.len() as int),
{
    let mut body: String = "Keymap (action · shortcut · origin)\n".to_owned();
    let mut i: usize = 0;
    while i < catalog.actions.len()
        invariant
            i <= catalog.actions@.len(),
            body@ == keymap_table(*catalog, keymap@, i as int),
        decreases catalog.actions@.len() - i,
    {
        let line: String = format_keymap_line(catalog, keymap, i);
        body.append(line.as_str());
        body.append("\n");
        i = i + 1;
    }
    body
}

/// A keymap with one action bound to a shortcut.
pub open spec fn rebound(keymap: Seq<KeyBinding>, action: KeyAction, shortcut: String) -> Seq<
    KeyBinding,
> {
    let i = keys::binding_row(keymap, action, 0);
    if i >= 0 {
        keymap.update(i, KeyBinding { action, shortcut })
    } else {
        keymap.push(KeyBinding { action, shortcut })
    }
}

fn rebind(keymap: &mut Vec<KeyBinding>, action: KeyAction, shortcut: String)
    ensures
        final(keymap)@ == rebound(old(keymap)@, action, shortcut),
{
    match find_binding(keymap, action) {
        Some(i) => {
            keymap.set(i, KeyBinding { action, shortcut });
        },
        None => {
            keymap.push(KeyBinding { action, shortcut });
        },
    }
}

proof fn lemma_rebound_once(keymap: Seq<KeyBinding>, action: KeyAction, shortcut: String)
    ensures
        protocol::binds_once(keymap) ==> protocol::binds_once(rebound(keymap, action, shortcut)),
{
    lemma_binding_row(keymap, action, 0);
}

/// Whether another action has a shortcut, in any case.
pub open spec fn is_taken(keymap: Seq<KeyBinding>, action: KeyAction, shortcut: Seq<char>) -> bool {
    exists|i: int|
        0 <= i < keymap.len() && (#[trigger] keymap[i]).action != action && text::lowered(
            keymap[i].shortcut@,
        ) == text::lowered(shortcut)
}

fn find_taken(keymap: &Vec<KeyBinding>, action: KeyAction, shortcut: &str) -> (r: bool)
    ensures
        r == is_taken(keymap@, action, shortcut@),
{
    let mut i: usize = 0;
    while i < keymap.len()
        invariant
            i <= keymap@.len(),
            forall|j: int|
                0 <= j < i ==> !((#[trigger] keymap@[j]).action != action && text::lowered(
                    keymap@[j].shortcut@,
                ) == text::lowered(shortcut@)),
        decreases keymap@.len() - i,
    {
        if keymap[i].action != action && eq_ignore_ascii_case(
            keymap[i].shortcut.as_str(),
            shortcut,
        ) {
            return true;
        }
        i = i + 1;
    }
    false
}

/// A keymap in which every other action that has a shortcut is back at its own default, where it has
/// one.
pub open spec fn released(
    catalog: Catalog,
    keymap: Seq<KeyBinding>,
    action: KeyAction,
    shortcut: Seq<char>,
) -> Seq<KeyBinding> {
    Seq::new(
        keymap.len(),
        |i: int|
            if keymap[i].action != action && text::lowered(keymap[i].shortcut@) == text::lowered(
                shortcut,
            ) && action_row(catalog.actions@, keymap[i].action, 0) >= 0 {
                KeyBinding {
                    shortcut: catalog.actions@[action_row(
                        catalog.actions@,
                        keymap[i].action,
                        0,
                    )].shortcut,
                    ..keymap[i]
                }
            } else {
                keymap[i]
            },
    )
}

fn release(catalog: &Catalog, keymap: &mut Vec<KeyBinding>, action: KeyAction, shortcut: &str)
    ensures
        final(keymap)@ == released(*catalog, old(keymap)@, action, shortcut@),
{
    let ghost start = keymap@;
    let ghost goal = released(*catalog, start, action, shortcut@);
    let mut i: usize = 0;
    while i < keymap.len()
        invariant
            i <= keymap@.len(),
            keymap@.len() == start.len(),
            goal == released(*catalog, start, action, shortcut@),
            forall|j: int| i <= j < start.len() ==> #[trigger] keymap@[j] == start[j],
            forall|j: int| 0 <= j < i ==> #[trigger] keymap@[j] == goal[j],
        decreases keymap@.len() - i,
    {
        assert(keymap@[i as int] == start[i as int]);
        let other: KeyAction = keymap[i].action;
        if other != action && eq_ignore_ascii_case(keymap[i].shortcut.as_str(), shortcut) {
            match catalog.find_action(other) {
                Some(k) => {
                    let standard: String = catalog.actions[k].shortcut.clone();
                    keymap.set(i, KeyBinding { action: other, shortcut: standard });
                },
                None => {},
            }
        }
        assert(keymap@[i as int] == goal[i as int]);
        i = i + 1;
    }
    assert(keymap@ =~= goal);
}

// ---------------------------------------------------------------------------------------------
// The commands
// ---------------------------------------------------------------------------------------------

/// Whether nothing changed but the keymap and the transcript's entries.
pub open spec fn only_keymap(pre: AppState, post: AppState) -> bool {
    post == (AppState {
        preferences: Preferences { keymap: post.preferences.keymap, ..pre.preferences },
        transcript: Transcript { entries: post.transcript.entries, ..pre.transcript },
        ..pre
    })
}

/// Whether the commands hand the preferences to the runtime, and do nothing else.
pub open spec fn saves(commands: Seq<AppCommand>, preferences: Preferences) -> bool {
    &&& commands.len() == 1
    &&& commands[0] matches AppCommand::SetPreferences(p)
    &&& protocol::same_preferences(p, preferences)
}

/// Whether a request only wrote a message.
pub open spec fn only_tells(
    pre: AppState,
    post: AppState,
    commands: Seq<AppCommand>,
) -> bool {
    &&& commands.len() == 0
    &&& post == (AppState {
        transcript: Transcript { entries: post.transcript.entries, ..pre.transcript },
        ..pre
    })
}

/// Whether a shortcut may be set: an essential one, or one that is taken, only by force.
pub open spec fn needs_force(
    keymap: Seq<KeyBinding>,
    action: KeyAction,
    shortcut: Seq<char>,
) -> bool {
    action == KeyAction::InterruptExecution || is_taken(keymap, action, shortcut)
}

/// What `/keymap` does with its arguments, given the action that the second of them names and whether
/// the shortcut asked for is one.
pub open spec fn keymap_asked(
    pre: AppState,
    post: AppState,
    arguments: Seq<char>,
    catalog: Catalog,
    named: Option<KeyAction>,
    valid: bool,
    commands: Seq<AppCommand>,
) -> bool {
    let w = text::words_of(arguments);
    let forced = w.contains("--force"@);
    let keymap = pre.preferences.keymap@;
    let before = pre.transcript.entries@;
    let after = post.transcript.entries@;
    if w.len() == 0 {
        &&& only_tells(pre, post, commands)
        &&& entry::adds_info(
            before,
            after,
            keymap_table(catalog, keymap, catalog.actions@.len() as int),
        )
    } else if w[0] == "reset-all"@ {
        if forced {
            &&& only_keymap(pre, post)
            &&& post.preferences.keymap@ == catalog.defaults()
            &&& saves(commands, post.preferences)
            &&& entry::adds_info(before, after, "All shortcuts restored to defaults."@)
        } else {
            &&& only_tells(pre, post, commands)
            &&& entry::adds_warning(before, after, "Confirm with `/keymap reset-all --force`."@)
        }
    } else if w[0] == "reset"@ && w.len() == 2 {
        match named {
            None => {
                &&& only_tells(pre, post, commands)
                &&& entry::adds_error(before, after, "Unknown keymap action."@)
            },
            Some(action) => {
                &&& only_keymap(pre, post)
                &&& post.preferences.keymap@ == rebound(
                    keymap,
                    action,
                    catalog.actions@[action_row(catalog.actions@, action, 0)].shortcut,
                )
                &&& saves(commands, post.preferences)
                &&& entry::adds_info(before, after, "Reset "@ + catalog.action_label(action) + "."@)
            },
        }
    } else if w[0] == "set"@ && w.len() >= 3 {
        let shortcut = text::lowered(w[2]);
        match named {
            None => {
                &&& only_tells(pre, post, commands)
                &&& entry::adds_error(before, after, "Unknown keymap action."@)
            },
            Some(action) => if !valid {
                &&& only_tells(pre, post, commands)
                &&& entry::adds_error(before, after, "Invalid shortcut. Example: ctrl+enter."@)
            } else if needs_force(keymap, action, shortcut) && !forced {
                &&& only_tells(pre, post, commands)
                &&& entry::adds_warning(
                    before,
                    after,
                    "This changes an essential shortcut or replaces a conflict. Repeat with `--force`."@,
                )
            } else {
                &&& only_keymap(pre, post)
                &&& binds(catalog, keymap, post.preferences.keymap@, action, shortcut)
                &&& saves(commands, post.preferences)
                &&& entry::adds_info(
                    before,
                    after,
                    catalog.action_label(action) + " bound to "@ + shortcut + "."@,
                )
            },
        }
    } else {
        &&& only_tells(pre, post, commands)
        &&& entry::adds_info(
            before,
            after,
            "Usage: /keymap [set <action> <shortcut> [--force] | reset <action> | reset-all --force]"@,
        )
    }
}

/// Whether `post` is `pre` with an action bound to a shortcut, and every other action that had it
/// back at its own default.
pub open spec fn binds(
    catalog: Catalog,
    pre: Seq<KeyBinding>,
    post: Seq<KeyBinding>,
    action: KeyAction,
    shortcut: Seq<char>,
) -> bool {
    exists|s: String|
        s@ == shortcut && post == #[trigger] rebound(
            released(catalog, pre, action, shortcut),
            action,
            s,
        )
}

/// The second word of a command's arguments, where there is one.
pub open spec fn name_asked(arguments: Seq<char>) -> Option<Seq<char>> {
    let w = text::words_of(arguments);
    if w.len() >= 2 {
        Some(w[1])
    } else {
        None
    }
}

/// Reads the second word of a command's arguments, which names an action, a theme or a personality.
pub fn requested_name(arguments: &str) -> (r: Option<String>)
    ensures
        text::opt_text(r) == name_asked(arguments@),
{
    let args: Vec<String> = words(arguments);
    assert(args@.len() >= 2 ==> text::words_of(arguments@)[1] == args@[1]@);
    if args.len() >= 2 {
        Some(args[1].clone())
    } else {
        None
    }
}

/// The shortcut that `/keymap set` asks for, in lower case, where it asks for one.
pub open spec fn shortcut_asked(arguments: Seq<char>) -> Option<Seq<char>> {
    let w = text::words_of(arguments);
    if w.len() >= 3 && w[0] == "set"@ {
        Some(text::lowered(w[2]))
    } else {
        None
    }
}

/// Reads the shortcut that `/keymap set` asks for.
pub fn requested_shortcut(arguments: &str) -> (r: Option<String>)
    ensures
        text::opt_text(r) == shortcut_asked(arguments@),
{
    let args: Vec<String> = words(arguments);
    let ghost w = text::words_of(arguments@);
    assert(args@.len() > 0 ==> w[0] == args@[0]@);
    assert(args@.len() >= 3 ==> w[2] == args@[2]@);
    if args.len() >= 3 && same_text(args[0].as_str(), "set") {
        Some(to_ascii_lowercase(args[2].as_str()))
    } else {
        None
    }
}

fn has_word(args: &Vec<String>, word: &str) -> (r: bool)
    ensures
        r == text::texts(args@).contains(word@),
{
    let mut i: usize = 0;
    while i < args.len()
        invariant
            i <= args@.len(),
            forall|j: int| 0 <= j < i ==> #[trigger] text::texts(args@)[j] != word@,
        decreases args@.len() - i,
    {
        assert(text::texts(args@)[i as int] == args@[i as int]@);
        if same_text(args[i].as_str(), word) {
            return true;
        }
        i = i + 1;
    }
    false
}

/// Hands the preferences to the runtime.
fn save(preferences: &Preferences) -> (r: Vec<AppCommand>)
    ensures
        saves(r@, *preferences),
{
    let mut r: Vec<AppCommand> = Vec::new();
    r.push(AppCommand::SetPreferences(preferences.clone()));
    r
}

/// Carries out `/keymap`. `named` is the action that the word of `requested_name` names, and
/// `shortcut_valid` says whether the shortcut that `requested_shortcut` reads is one.
pub fn run_keymap(
    state: &mut AppState,
    arguments: &str,
    catalog: &Catalog,
    named: Option<KeyAction>,
    shortcut_valid: bool,
) -> (r: Vec<AppCommand>)
    requires
        text::words_of(arguments@).len() == 0 ==> catalog.is_bound_by(
            old(state).preferences.keymap@,
        ),
        named matches Some(action) ==> catalog.lists(action),
    ensures
        keymap_asked(*old(state), *final(state), arguments@, *catalog, named, shortcut_valid, r@),
        old(state).wf() && catalog.wf() ==> final(state).wf(),
{
    let args: Vec<String> = words(arguments);
    let ghost w = text::words_of(arguments@);
    assert(args@.len() > 0 ==> w[0] == args@[0]@);
    assert(args@.len() > 1 ==> w[1] == args@[1]@);
    assert(args@.len() > 2 ==> w[2] == args@[2]@);
    if args.len() == 0 {
        let table: String = format_keymap(catalog, &state.preferences.keymap);
        note(&mut state.transcript.entries, table);
        return Vec::new();
    }
    if same_text(args[0].as_str(), "reset-all") {
        if !has_word(&args, "--force") {
            warn(
                &mut state.transcript.entries,
                "Confirm with `/keymap reset-all --force`.".to_owned(),
            );
            return Vec::new();
        }
        state.preferences.keymap = catalog.default_keymap();
        note(&mut state.transcript.entries, "All shortcuts restored to defaults.".to_owned());
        return save(&state.preferences);
    }
    if same_text(args[0].as_str(), "reset") && args.len() == 2 {
        match named {
            Some(action) => {
                match catalog.find_action(action) {
                    Some(k) => {
                        proof {
                            lemma_rebound_once(
                                state.preferences.keymap@,
                                action,
                                catalog.actions@[k as int].shortcut,
                            );
                        }
                        rebind(
                            &mut state.preferences.keymap,
                            action,
                            catalog.actions[k].shortcut.clone(),
                        );
                    },
                    None => {},
                }
                let label: String = catalog.label_of_action(action);
                note(&mut state.transcript.entries, cat3("Reset ", label.as_str(), "."));
                return save(&state.preferences);
            },
            None => {
                report(&mut state.transcript.entries, "Unknown keymap action.".to_owned());
                return Vec::new();
            },
        }
    }
    if same_text(args[0].as_str(), "set") && args.len() >= 3 {
        return set_shortcut(state, &args, catalog, named, shortcut_valid, Ghost(arguments@));
    }
    note(
        &mut state.transcript.entries,
        "Usage: /keymap [set <action> <shortcut> [--force] | reset <action> | reset-all --force]".to_owned(),
    );
    Vec::new()
}

fn set_shortcut(
    state: &mut AppState,
    args: &Vec<String>,
    catalog: &Catalog,
    named: Option<KeyAction>,
    shortcut_valid: bool,
    Ghost(arguments): Ghost<Seq<char>>,
) -> (r: Vec<AppCommand>)
    requires
        text::texts(args@) == text::words_of(arguments),
        args@.len() >= 3,
        args@[0]@ == "set"@,
    ensures
        keymap_asked(*old(state), *final(state), arguments, *catalog, named, shortcut_valid, r@),
        old(state).wf() ==> final(state).wf(),
{
    proof {
        let w = text::words_of(arguments);
        assert(w[0] == args@[0]@);
        assert(w[1] == args@[1]@);
        assert(w[2] == args@[2]@);
        reveal_strlit("set");
        reveal_strlit("reset-all");
        reveal_strlit("reset");
        assert("set"@.len() == 3 && "reset-all"@.len() == 9 && "reset"@.len() == 5);
    }
    let action: KeyAction = match named {
        Some(action) => action,
        None => {
            report(&mut state.transcript.entries, "Unknown keymap action.".to_owned());
            return Vec::new();
        },
    };
    if !shortcut_valid {
        report(
            &mut state.transcript.entries,
            "Invalid shortcut. Example: ctrl+enter.".to_owned(),
        );
        return Vec::new();
    }
    let shortcut: String = to_ascii_lowercase(args[2].as_str());
    let taken: bool = find_taken(&state.preferences.keymap, action, shortcut.as_str());
    if (action == KeyAction::InterruptExecution || taken) && !has_word(args, "--force") {
        warn(
            &mut state.transcript.entries,
            "This changes an essential shortcut or replaces a conflict. Repeat with `--force`.".to_owned(),
        );
        return Vec::new();
    }
    proof {
        let mid = released(*catalog, state.preferences.keymap@, action, shortcut@);
        assert(forall|i: int|
            0 <= i < mid.len() ==> (#[trigger] mid[i]).action == state.preferences.keymap@[i].action);
        lemma_rebound_once(mid, action, shortcut);
    }
    release(catalog, &mut state.preferences.keymap, action, shortcut.as_str());
    let label: String = catalog.label_of_action(action);
    let told: String = text::cat4(label.as_str(), " bound to ", shortcut.as_str(), ".");
    rebind(&mut state.preferences.keymap, action, shortcut);
    note(&mut state.transcript.entries, told);
    save(&state.preferences)
}

/// The labels of the themes, in order.
pub open spec fn theme_labels(list: Seq<ThemeEntry>) -> Seq<Seq<char>> {
    Seq::new(list.len(), |i: int| list[i].label@)
}

/// The labels of the personalities, in order.
pub open spec fn personality_labels(list: Seq<PersonalityEntry>) -> Seq<Seq<char>> {
    Seq::new(list.len(), |i: int| list[i].label@)
}

/// Whether nothing changed but the theme and the transcript's entries.
pub open spec fn only_theme(pre: AppState, post: AppState, theme: ThemeName) -> bool {
    post == (AppState {
        preferences: Preferences { theme, ..pre.preferences },
        transcript: Transcript { entries: post.transcript.entries, ..pre.transcript },
        ..pre
    })
}

/// What `/theme` does with its arguments, given the theme that the second of them names.
pub open spec fn theme_asked(
    pre: AppState,
    post: AppState,
    arguments: Seq<char>,
    catalog: Catalog,
    named: Option<ThemeName>,
    commands: Seq<AppCommand>,
) -> bool {
    let w = text::words_of(arguments);
    let before = pre.transcript.entries@;
    let after = post.transcript.entries@;
    if w.len() == 0 {
        &&& only_tells(pre, post, commands)
        &&& entry::adds_info(
            before,
            after,
            "Themes: "@ + text::joined(theme_labels(catalog.themes@), ", "@) + ". Active: "@
                + catalog.theme_label(pre.preferences.theme) + "."@,
        )
    } else if w.len() == 1 && w[0] == "current"@ {
        &&& only_tells(pre, post, commands)
        &&& entry::adds_info(
            before,
            after,
            "Active theme: "@ + catalog.theme_label(pre.preferences.theme) + "."@,
        )
    } else if w.len() == 1 && w[0] == "reset"@ {
        &&& only_theme(pre, post, ThemeName::System)
        &&& after == before
        &&& saves(commands, post.preferences)
    } else if w.len() == 2 && w[0] == "set"@ {
        match named {
            None => {
                &&& only_tells(pre, post, commands)
                &&& entry::adds_error(before, after, "Unknown theme."@)
            },
            Some(theme) => {
                &&& only_theme(pre, post, theme)
                &&& saves(commands, post.preferences)
                &&& entry::adds_info(
                    before,
                    after,
                    "Theme set to "@ + catalog.theme_label(theme) + "."@,
                )
            },
        }
    } else {
        &&& only_tells(pre, post, commands)
        &&& entry::adds_info(before, after, "Usage: /theme [current | set <name> | reset]"@)
    }
}

/// Carries out `/theme`. `named` is the theme that the word of `requested_name` names.
pub fn run_theme(
    state: &mut AppState,
    arguments: &str,
    catalog: &Catalog,
    named: Option<ThemeName>,
) -> (r: Vec<AppCommand>)
    ensures
        theme_asked(*old(state), *final(state), arguments@, *catalog, named, r@),
        old(state).wf() ==> final(state).wf(),
{
    let args: Vec<String> = words(arguments);
    let ghost w = text::words_of(arguments@);
    assert(args@.len() > 0 ==> w[0] == args@[0]@);
    assert(args@.len() > 1 ==> w[1] == args@[1]@);
    let active: String = catalog.label_of_theme(state.preferences.theme);
    if args.len() == 0 {
        let mut labels: Vec<String> = Vec::new();
        let mut i: usize = 0;
        let ghost all = theme_labels(catalog.themes@);
        assert(text::texts(labels@) =~= all.take(0));
        while i < catalog.themes.len()
            invariant
                i <= catalog.themes@.len(),
                all == theme_labels(catalog.themes@),
                text::texts(labels@) == all.take(i as int),
            decreases catalog.themes@.len() - i,
        {
            let ghost before = text::texts(labels@);
            labels.push(catalog.themes[i].label.clone());
            assert(text::texts(labels@) =~= before.push(all[i as int]));
            i = i + 1;
            assert(text::texts(labels@) =~= all.take(i as int));
        }
        assert(text::texts(labels@) =~= all);
        let list: String = join(&labels, ", ");
        note(
            &mut state.transcript.entries,
            cat5("Themes: ", list.as_str(), ". Active: ", active.as_str(), "."),
        );
        return Vec::new();
    }
    if args.len() == 1 && same_text(args[0].as_str(), "current") {
        note(&mut state.transcript.entries, cat3("Active theme: ", active.as_str(), "."));
        return Vec::new();
    }
    if args.len() == 1 && same_text(args[0].as_str(), "reset") {
        state.preferences.theme = ThemeName::System;
        return save(&state.preferences);
    }
    if args.len() == 2 && same_text(args[0].as_str(), "set") {
        match named {
            Some(theme) => {
                state.preferences.theme = theme;
                let label: String = catalog.label_of_theme(theme);
                note(&mut state.transcript.entries, cat3("Theme set to ", label.as_str(), "."));
                return save(&state.preferences);
            },
            None => {
                report(&mut state.transcript.entries, "Unknown theme.".to_owned());
                return Vec::new();
            },
        }
    }
    note(
        &mut state.transcript.entries,
        "Usage: /theme [current | set <name> | reset]".to_owned(),
    );
    Vec::new()
}

/// What `/personality` does with its arguments, given the personality that the second of them names.
pub open spec fn personality_asked(
    pre: AppState,
    post: AppState,
    arguments: Seq<char>,
    catalog: Catalog,
    named: Option<PersonalityName>,
    commands: Seq<AppCommand>,
) -> bool {
    let w = text::words_of(arguments);
    let before = pre.transcript.entries@;
    let after = post.transcript.entries@;
    let standard = PersonalityName { id: 0 };
    if w.len() == 0 {
        &&& only_tells(pre, post, commands)
        &&& entry::adds_info(
            before,
            after,
            "Personalities: "@ + text::joined(personality_labels(catalog.personalities@), ", "@)
                + ". Active: "@ + catalog.personality_label(pre.active_personality) + "."@,
        )
    } else if w.len() == 1 && w[0] == "reset"@ {
        &&& post == (AppState { active_personality: standard, ..pre })
        &&& commands == seq![AppCommand::SetSessionPersonality(standard)]
    } else if w.len() == 2 && (w[0] == "set"@ || w[0] == "default"@) {
        if named is None {
            &&& only_tells(pre, post, commands)
            &&& entry::adds_error(before, after, "Unknown personality."@)
        } else {
            let chosen = named->Some_0;
            &&& post == (AppState {
                active_personality: chosen,
                preferences: if w[0] == "default"@ {
                    Preferences { personality: chosen, ..pre.preferences }
                } else {
                    pre.preferences
                },
                transcript: Transcript { entries: post.transcript.entries, ..pre.transcript },
                ..pre
            })
            &&& if w[0] == "default"@ {
                &&& commands.len() == 2
                &&& saves(commands.take(1), post.preferences)
                &&& commands[1] == AppCommand::SetSessionPersonality(chosen)
            } else {
                commands == seq![AppCommand::SetSessionPersonality(chosen)]
            }
            &&& entry::adds_info(
                before,
                after,
                "Personality set to "@ + catalog.personality_label(chosen) + "."@,
            )
        }
    } else {
        &&& only_tells(pre, post, commands)
        &&& entry::adds_info(
            before,
            after,
            "Usage: /personality [set <name> | default <name> | reset]"@,
        )
    }
}

/// Carries out `/personality`. `named` is the personality that the word of `requested_name` names.
pub fn run_personality(
    state: &mut AppState,
    arguments: &str,
    catalog: &Catalog,
    named: Option<PersonalityName>,
) -> (r: Vec<AppCommand>)
    ensures
        personality_asked(*old(state), *final(state), arguments@, *catalog, named, r@),
        old(state).wf() ==> final(state).wf(),
{
    let args: Vec<String> = words(arguments);
    let ghost w = text::words_of(arguments@);
    assert(args@.len() > 0 ==> w[0] == args@[0]@);
    assert(args@.len() > 1 ==> w[1] == args@[1]@);
    if args.len() == 0 {
        let active: String = catalog.label_of_personality(state.active_personality);
        let mut labels: Vec<String> = Vec::new();
        let mut i: usize = 0;
        let ghost all = personality_labels(catalog.personalities@);
        assert(text::texts(labels@) =~= all.take(0));
        while i < catalog.personalities.len()
            invariant
                i <= catalog.personalities@.len(),
                all == personality_labels(catalog.personalities@),
                text::texts(labels@) == all.take(i as int),
            decreases catalog.personalities@.len() - i,
        {
            let ghost before = text::texts(labels@);
            labels.push(catalog.personalities[i].label.clone());
            assert(text::texts(labels@) =~= before.push(all[i as int]));
            i = i + 1;
            assert(text::texts(labels@) =~= all.take(i as int));
        }
        assert(text::texts(labels@) =~= all);
        let list: String = join(&labels, ", ");
        note(
            &mut state.transcript.entries,
            cat5("Personalities: ", list.as_str(), ". Active: ", active.as_str(), "."),
        );
        return Vec::new();
    }
    let mut commands: Vec<AppCommand> = Vec::new();
    if args.len() == 1 && same_text(args[0].as_str(), "reset") {
        state.active_personality = PersonalityName { id: 0 };
        commands.push(AppCommand::SetSessionPersonality(state.active_personality));
        return commands;
    }
    let fixes: bool = same_text(args[0].as_str(), "default");
    if args.len() == 2 && (same_text(args[0].as_str(), "set") || fixes) {
        match named {
            Some(chosen) => {
                if fixes {
                    state.preferences.personality = chosen;
                    commands = save(&state.preferences);
                }
                state.active_personality = chosen;
                commands.push(AppCommand::SetSessionPersonality(chosen));
                let label: String = catalog.label_of_personality(chosen);
                note(
                    &mut state.transcript.entries,
                    cat3("Personality set to ", label.as_str(), "."),
                );
                return commands;
            },
            None => {
                report(&mut state.transcript.entries, "Unknown personality.".to_owned());
                return Vec::new();
            },
        }
    }
    note(
        &mut state.transcript.entries,
        "Usage: /personality [set <name> | default <name> | reset]".to_owned(),
    );
    Vec::new()
}

// ---------------------------------------------------------------------------------------------
// Laws
// ---------------------------------------------------------------------------------------------

/// The bindings that the product begins with are one for every listed action and no other.
pub proof fn law_the_first_keymap_is_complete(catalog: Catalog)
    ensures
        catalog.covers(catalog.defaults()),
        catalog.wf() ==> protocol::binds_once(catalog.defaults()),
{
    let first = catalog.defaults();
    assert forall|i: int| 0 <= i < catalog.actions@.len() implies keys::binding_row(
        first,
        (#[trigger] catalog.actions@[i]).action,
        0,
    ) >= 0 by {
        lemma_binding_row(first, catalog.actions@[i].action, 0);
        assert(first[i].action == catalog.actions@[i].action);
    }
    assert forall|i: int| 0 <= i < first.len() implies action_row(
        catalog.actions@,
        (#[trigger] first[i]).action,
        0,
    ) >= 0 by {
        lemma_action_row(catalog.actions@, first[i].action, 0);
        assert(first[i].action == catalog.actions@[i].action);
    }
}

/// Binding an action leaves the keymap with a binding for every listed action and no other.
pub proof fn law_binding_keeps_the_keymap_complete(
    catalog: Catalog,
    pre: Seq<KeyBinding>,
    post: Seq<KeyBinding>,
    action: KeyAction,
    shortcut: Seq<char>,
)
    requires
        catalog.covers(pre),
        action_row(catalog.actions@, action, 0) >= 0,
        binds(catalog, pre, post, action, shortcut),
    ensures
        catalog.covers(post),
{
    let mid = released(catalog, pre, action, shortcut);
    let s = choose|s: String| s@ == shortcut && post == #[trigger] rebound(mid, action, s);
    lemma_binding_row(mid, action, 0);
    assert forall|i: int| 0 <= i < catalog.actions@.len() implies keys::binding_row(
        post,
        (#[trigger] catalog.actions@[i]).action,
        0,
    ) >= 0 by {
        let a = catalog.actions@[i].action;
        lemma_binding_row(pre, a, 0);
        lemma_binding_row(post, a, 0);
        let k = keys::binding_row(pre, a, 0);
        assert(mid[k].action == a);
        assert(post[k].action == a);
    }
    assert forall|i: int| 0 <= i < post.len() implies action_row(
        catalog.actions@,
        (#[trigger] post[i]).action,
        0,
    ) >= 0 by {
        if i < pre.len() {
            assert(post[i].action == pre[i].action);
            assert(action_row(catalog.actions@, pre[i].action, 0) >= 0);
        }
    }
}

/// After an action was bound to a shortcut, the shortcut is what the action is bound to.
pub proof fn law_binding_takes_effect(
    catalog: Catalog,
    pre: Seq<KeyBinding>,
    post: Seq<KeyBinding>,
    action: KeyAction,
    shortcut: Seq<char>,
)
    requires
        binds(catalog, pre, post, action, shortcut),
    ensures
        keys::bound(post, action) == Some(shortcut),
{
    let mid = released(catalog, pre, action, shortcut);
    let s = choose|s: String| s@ == shortcut && post == #[trigger] rebound(mid, action, s);
    lemma_binding_row(mid, action, 0);
    let k = keys::binding_row(mid, action, 0);
    if k >= 0 {
        lemma_binding_row_after(mid, post, action, 0, k);
    } else {
        lemma_binding_row_after(mid, post, action, 0, mid.len() as int);
    }
}

/// The row of an action is found where it stands, past rows that have other actions.
proof fn lemma_binding_row_after(
    pre: Seq<KeyBinding>,
    post: Seq<KeyBinding>,
    action: KeyAction,
    from: int,
    k: int,
)
    requires
        0 <= from <= k < post.len(),
        k == pre.len() || keys::binding_row(pre, action, from) == k,
        k == pre.len() ==> keys::binding_row(pre, action, from) == -1,
        k <= pre.len(),
        forall|i: int| from <= i < k ==> #[trigger] post[i] == pre[i],
        post[k].action == action,
    ensures
        keys::binding_row(post, action, from) == k,
    decreases k - from,
{
    if from < k {
        assert(post[from] == pre[from]);
        lemma_binding_row(pre, action, from);
        lemma_binding_row_after(pre, post, action, from + 1, k);
    }
}

/// Binding an action leaves every other action as it was, but for those that had the same shortcut,
/// in whatever case: these are back at the shortcut that the product begins with.
pub proof fn law_binding_touches_only_rivals(
    catalog: Catalog,
    pre: Seq<KeyBinding>,
    post: Seq<KeyBinding>,
    action: KeyAction,
    shortcut: Seq<char>,
    i: int,
    row: int,
)
    requires
        binds(catalog, pre, post, action, shortcut),
        0 <= i < pre.len(),
        pre[i].action != action,
        0 <= row < catalog.actions@.len(),
        catalog.actions@[row].action == pre[i].action,
        forall|j: int| 0 <= j < row ==> (#[trigger] catalog.actions@[j]).action != pre[i].action,
    ensures
        i < post.len(),
        post[i].action == pre[i].action,
        post[i].shortcut == (if text::lowered(pre[i].shortcut@) == text::lowered(shortcut) {
            catalog.actions@[row].shortcut
        } else {
            pre[i].shortcut
        }),
{
    let mid = released(catalog, pre, action, shortcut);
    let s = choose|s: String| s@ == shortcut && post == #[trigger] rebound(mid, action, s);
    lemma_binding_row(mid, action, 0);
    lemma_action_found(catalog.actions@, pre[i].action, 0, row);
    assert(mid[i].action == pre[i].action);
}

proof fn lemma_action_found(list: Seq<ActionEntry>, action: KeyAction, from: int, at: int)
    requires
        0 <= from <= at < list.len(),
        forall|j: int| from <= j < at ==> (#[trigger] list[j]).action != action,
        list[at].action == action,
    ensures
        action_row(list, action, from) == at,
    decreases at - from,
{
    if from < at {
        lemma_action_found(list, action, from + 1, at);
    }
}

proof fn lemma_rivals(
    catalog: Catalog,
    keymap: Seq<KeyBinding>,
    action: KeyAction,
    shortcut: Seq<char>,
    n: int,
)
    requires
        0 <= n <= keymap.len(),
    ensures
        rivals(catalog, keymap, action, shortcut, n).len() == 0 <==> !(exists|i: int|
            0 <= i < n && (#[trigger] keymap[i]).action != action && text::lowered(
                keymap[i].shortcut@,
            ) == text::lowered(shortcut)),
    decreases n,
{
    if n > 0 {
        lemma_rivals(catalog, keymap, action, shortcut, n - 1);
        let last = keymap[n - 1];
        if rivals(catalog, keymap, action, shortcut, n - 1).len() > 0 {
            let i = choose|i: int|
                0 <= i < n - 1 && (#[trigger] keymap[i]).action != action && text::lowered(
                    keymap[i].shortcut@,
                ) == text::lowered(shortcut);
            assert(keymap[i].action != action);
        }
    }
}

/// A clash is told of an action just where another one has its shortcut.
pub proof fn law_a_clash_is_told_where_a_shortcut_is_taken(
    catalog: Catalog,
    keymap: Seq<KeyBinding>,
    action: KeyAction,
    shortcut: Seq<char>,
    i: int,
)
    ensures
        rivals(catalog, keymap, action, shortcut, keymap.len() as int).len() > 0 <==> is_taken(
            keymap,
            action,
            shortcut,
        ),
        0 <= i < keymap.len() && keymap[i].action != action && keymap[i].shortcut@ == shortcut
            ==> is_taken(keymap, action, shortcut),
{
    lemma_rivals(catalog, keymap, action, shortcut, keymap.len() as int);
}

/// `/keymap` changes the shortcuts just where it says so. Setting one binds the action to it; one
/// that another action has, or that stops a run, is set by force only. Resetting an action gives it
/// the shortcut that the product begins with; resetting all takes force.
pub proof fn law_shortcuts_are_changed_as_asked(
    pre: AppState,
    post: AppState,
    catalog: Catalog,
    words: Seq<Seq<char>>,
    named: Option<KeyAction>,
    valid: bool,
    commands: Seq<AppCommand>,
)
    requires
        text_laws::are_words(words),
        keymap_asked(pre, post, text::joined(words, " "@), catalog, named, valid, commands),
    ensures
        ({
            let kept = post.preferences == pre.preferences && commands.len() == 0;
            let keymap = post.preferences.keymap@;
            let essential = named == Some(KeyAction::InterruptExecution);
            &&& words.len() == 0 ==> kept
            &&& words.len() == 3 && words[0] == "set"@ && words[1] != "--force"@ && words[2]
                != "--force"@ ==> match named {
                None => kept,
                Some(action) => if !valid || essential || is_taken(
                    pre.preferences.keymap@,
                    action,
                    text::lowered(words[2]),
                ) {
                    kept
                } else {
                    keys::bound(keymap, action) == Some(text::lowered(words[2]))
                },
            }
            &&& words.len() == 4 && words[0] == "set"@ && words[3] == "--force"@ ==> match named {
                None => kept,
                Some(action) => if valid {
                    keys::bound(keymap, action) == Some(text::lowered(words[2]))
                } else {
                    kept
                },
            }
            &&& words == seq!["reset-all"@] ==> kept
            &&& words == seq!["reset-all"@, "--force"@] ==> keymap.len()
                == catalog.actions@.len() && forall|i: int|
                0 <= i < keymap.len() ==> (#[trigger] keymap[i]).action
                    == catalog.actions@[i].action && keymap[i].shortcut
                    == catalog.actions@[i].shortcut
        }),
{
    text_laws::law_spaced_words_are_told_apart(Seq::empty(), words, Seq::empty());
    reveal_strlit("reset-all");
    reveal_strlit("reset");
    reveal_strlit("set");
    reveal_strlit("--force");
    assert("reset-all"@.len() == 9 && "reset"@.len() == 5 && "set"@.len() == 3);
    assert("--force"@.len() == 7);
    if words.len() == 3 && words[0] == "set"@ && words[1] != "--force"@ && words[2]
        != "--force"@ {
        assert(!words.contains("--force"@));
    }
    if words.len() == 4 && words[3] == "--force"@ {
        assert(words.contains("--force"@));
    }
    if words == seq!["reset-all"@, "--force"@] {
        assert(words[1] == "--force"@);
    }
    if words == seq!["reset-all"@] {
        assert(!words.contains("--force"@));
    }
    if words.len() >= 3 && words[0] == "set"@ && named is Some {
        let action = named->0;
        let shortcut = text::lowered(words[2]);
        if binds(catalog, pre.preferences.keymap@, post.preferences.keymap@, action, shortcut) {
            law_binding_takes_effect(
                catalog,
                pre.preferences.keymap@,
                post.preferences.keymap@,
                action,
                shortcut,
            );
        }
    }
}

/// `/theme set` takes the theme that was named and `/theme reset` that of the system; anything else
/// changes no preference. What is changed is saved.
pub proof fn law_the_theme_is_changed_as_asked(
    pre: AppState,
    post: AppState,
    catalog: Catalog,
    words: Seq<Seq<char>>,
    named: Option<ThemeName>,
    commands: Seq<AppCommand>,
)
    requires
        text_laws::are_words(words),
        theme_asked(pre, post, text::joined(words, " "@), catalog, named, commands),
    ensures
        words.len() == 2 && words[0] == "set"@ && named is Some ==> post.preferences.theme
            == named->0 && saves(commands, post.preferences),
        words == seq!["reset"@] ==> post.preferences.theme == ThemeName::System && saves(
            commands,
            post.preferences,
        ),
        words.len() == 0 || words.len() > 2 || words == seq!["current"@] || (words.len() == 2
            && named is None) ==> post.preferences == pre.preferences && commands.len() == 0,
        post.preferences.keymap == pre.preferences.keymap,
{
    text_laws::law_spaced_words_are_told_apart(Seq::empty(), words, Seq::empty());
    reveal_strlit("current");
    reveal_strlit("reset");
    reveal_strlit("set");
    assert("current"@.len() == 7 && "reset"@.len() == 5 && "set"@.len() == 3);
}

/// `/personality set` changes the personality for the session, `default` for the sessions to come as
/// well, and `reset` returns to the standard one of the session. Anything else changes none.
pub proof fn law_the_personality_is_changed_as_asked(
    pre: AppState,
    post: AppState,
    catalog: Catalog,
    words: Seq<Seq<char>>,
    named: Option<PersonalityName>,
    commands: Seq<AppCommand>,
)
    requires
        text_laws::are_words(words),
        personality_asked(pre, post, text::joined(words, " "@), catalog, named, commands),
    ensures
        words.len() == 2 && words[0] == "set"@ && named is Some ==> post.active_personality
            == named->0 && post.preferences == pre.preferences && commands.len() == 1,
        words.len() == 2 && words[0] == "default"@ && named is Some ==> post.active_personality
            == named->0 && post.preferences.personality == named->0 && commands.len() == 2,
        words == seq!["reset"@] ==> post.preferences == pre.preferences && commands.len() == 1
            && post.active_personality.id == 0,
        words.len() == 0 || words.len() > 2 || (words.len() == 2 && named is None)
            ==> post.active_personality == pre.active_personality && post.preferences
            == pre.preferences && commands.len() == 0,
{
    text_laws::law_spaced_words_are_told_apart(Seq::empty(), words, Seq::empty());
    reveal_strlit("default");
    reveal_strlit("reset");
    reveal_strlit("set");
    assert("default"@.len() == 7 && "reset"@.len() == 5 && "set"@.len() == 3);
}

} // verus!
