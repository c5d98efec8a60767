//! Keyboard shortcuts.

use vstd::prelude::*;

use crate::protocol::{KeyAction, KeyBinding, Preferences};
use crate::text;
use crate::text_laws;
use crate::text::{same_text, split, to_ascii_lowercase};
use crate::tui::input::{KeyCode, KeyModifiers};

verus! {

/// The first binding at or after `from` of an action, or -1.
pub open spec fn binding_row(keymap: Seq<KeyBinding>, action: KeyAction, from: int) -> int
    decreases keymap.len() - from,
{
    if from >= keymap.len() {
        -1
    } else if keymap[from].action == action {
        from
    } else {
        binding_row(keymap, action, from + 1)
    }
}

/// The shortcut bound to an action.
pub open spec fn bound(keymap: Seq<KeyBinding>, action: KeyAction) -> Option<Seq<char>> {
    let i = binding_row(keymap, action, 0);
    if i >= 0 {
        Some(keymap[i].shortcut@)
    } else {
        None
    }
}

/// Finds the binding of an action.
pub fn find_binding(keymap: &Vec<KeyBinding>, action: KeyAction) -> (r: Option<usize>)
    ensures
        match r {
            Some(i) => i < keymap@.len() && binding_row(keymap@, action, 0) == i
                && keymap@[i as int].action == action,
            None => binding_row(keymap@, action, 0) == -1,
        },
{
    let mut i: usize = 0;
    while i < keymap.len()
        invariant
            i <= keymap@.len(),
            binding_row(keymap@, action, 0) == binding_row(keymap@, action, i as int),
        decreases keymap@.len() - i,
    {
        if keymap[i].action == action {
            return Some(i);
        }
        i = i + 1;
    }
    None
}

/// Whether the last part of a shortcut names a key.
pub open spec fn names_key(name: Seq<char>, code: KeyCode) -> bool {
    if name == "enter"@ {
        code == KeyCode::Enter
    } else if name == "esc"@ {
        code == KeyCode::Esc
    } else if name == "tab"@ {
        code == KeyCode::Tab
    } else if name == "up"@ {
        code == KeyCode::Up
    } else if name == "down"@ {
        code == KeyCode::Down
    } else if name == "left"@ {
        code == KeyCode::Left
    } else if name == "right"@ {
        code == KeyCode::Right
    } else if name == "f1"@ {
        code == KeyCode::F(1)
    } else if name == "f2"@ {
        code == KeyCode::F(2)
    } else if name == "f3"@ {
        code == KeyCode::F(3)
    } else if name == "f4"@ {
        code == KeyCode::F(4)
    } else {
        name.len() == 1 && code == KeyCode::Char(name[0])
    }
}

/// Whether a shortcut such as `ctrl+enter` is the key pressed: its modifiers are exactly those of
/// Control, Alt and Shift that are held, and its last part names the key. Case does not matter.
pub open spec fn shortcut_is(shortcut: Seq<char>, code: KeyCode, modifiers: KeyModifiers) -> bool {
    let parts = text::split_on(text::lowered(shortcut), '+');
    let held = parts.drop_last();
    &&& modifiers.control == held.contains("ctrl"@)
    &&& modifiers.alt == held.contains("alt"@)
    &&& modifiers.shift == held.contains("shift"@)
    &&& names_key(parts.last(), code)
}

/// Whether a key press triggers an action.
pub open spec fn triggers(
    keymap: Seq<KeyBinding>,
    action: KeyAction,
    code: KeyCode,
    modifiers: KeyModifiers,
) -> bool {
    bound(keymap, action) matches Some(shortcut) && shortcut_is(shortcut, code, modifiers)
}

fn is_named_key(name: &str, code: KeyCode) -> (r: bool)
    ensures
        r == names_key(name@, code),
{
    if same_text(name, "enter") {
        code == KeyCode::Enter
    } else if same_text(name, "esc") {
        code == KeyCode::Esc
    } else if same_text(name, "tab") {
        code == KeyCode::Tab
    } else if same_text(name, "up") {
        code == KeyCode::Up
    } else if same_text(name, "down") {
        code == KeyCode::Down
    } else if same_text(name, "left") {
        code == KeyCode::Left
    } else if same_text(name, "right") {
        code == KeyCode::Right
    } else if same_text(name, "f1") {
        code == KeyCode::F(1)
    } else if same_text(name, "f2") {
        code == KeyCode::F(2)
    } else if same_text(name, "f3") {
        code == KeyCode::F(3)
    } else if same_text(name, "f4") {
        code == KeyCode::F(4)
    } else {
        name.unicode_len() == 1 && code == KeyCode::Char(name.get_char(0))
    }
}

/// Whether one of the first `n` texts is the given one.
fn among(parts: &Vec<String>, n: usize, word: &str) -> (r: bool)
    requires
        n <= parts@.len(),
    ensures
        r == text::texts(parts@).take(n as int).contains(word@),
{
    let mut i: usize = 0;
    while i < n
        invariant
            i <= n <= parts@.len(),
            forall|j: int| 0 <= j < i ==> parts@[j]@ != word@,
        decreases n - i,
    {
        if same_text(parts[i].as_str(), word) {
            assert(text::texts(parts@).take(n as int)[i as int] == word@);
            return true;
        }
        i = i + 1;
    }
    false
}

/// Tests whether a shortcut is the key pressed.
pub fn shortcut_matches(shortcut: &str, code: KeyCode, modifiers: KeyModifiers) -> (r: bool)
    ensures
        r == shortcut_is(shortcut@, code, modifiers),
{
    let normalized: String = to_ascii_lowercase(shortcut);
    let parts: Vec<String> = split(normalized.as_str(), '+');
    let n: usize = parts.len() - 1;
    assert(text::texts(parts@).take(n as int) =~= text::texts(parts@).drop_last());
    if modifiers.control != among(&parts, n, "ctrl") || modifiers.alt != among(&parts, n, "alt")
        || modifiers.shift != among(&parts, n, "shift") {
        return false;
    }
    is_named_key(parts[n].as_str(), code)
}

/// Tests whether a key press triggers an action.
pub fn key_action_matches(
    preferences: &Preferences,
    action: KeyAction,
    code: KeyCode,
    modifiers: KeyModifiers,
) -> (r: bool)
    ensures
        r == triggers(preferences.keymap@, action, code, modifiers),
{
    match find_binding(&preferences.keymap, action) {
        Some(i) => shortcut_matches(preferences.keymap[i].shortcut.as_str(), code, modifiers),
        None => false,
    }
}

/// The name of a key in a shortcut, for the keys that have one.
pub open spec fn key_name(code: KeyCode) -> Option<Seq<char>> {
    match code {
        KeyCode::Enter => Some("enter"@),
        KeyCode::Esc => Some("esc"@),
        KeyCode::Tab => Some("tab"@),
        KeyCode::Up => Some("up"@),
        KeyCode::Down => Some("down"@),
        KeyCode::Left => Some("left"@),
        KeyCode::Right => Some("right"@),
        KeyCode::F(n) => if n == 1 {
            Some("f1"@)
        } else if n == 2 {
            Some("f2"@)
        } else if n == 3 {
            Some("f3"@)
        } else if n == 4 {
            Some("f4"@)
        } else {
            None
        },
        KeyCode::Char(c) => if c != '+' && !(65 <= c as int <= 90) {
            Some(seq![c])
        } else {
            None
        },
        _ => None,
    }
}

/// Whether a text names a modifier.
pub open spec fn is_modifier(name: Seq<char>) -> bool {
    name == "ctrl"@ || name == "alt"@ || name == "shift"@
}

proof fn lemma_key_name(code: KeyCode, pressed: KeyCode)
    requires
        key_name(code) is Some,
    ensures
        text_laws::lacks(key_name(code)->0, '+'),
        text::lowered(key_name(code)->0) == key_name(code)->0,
        names_key(key_name(code)->0, pressed) <==> pressed == code,
{
    reveal_strlit("enter");
    reveal_strlit("esc");
    reveal_strlit("tab");
    reveal_strlit("up");
    reveal_strlit("down");
    reveal_strlit("left");
    reveal_strlit("right");
    reveal_strlit("f1");
    reveal_strlit("f2");
    reveal_strlit("f3");
    reveal_strlit("f4");
    assert("enter"@.len() == 5 && "right"@.len() == 5 && "esc"@.len() == 3 && "tab"@.len() == 3);
    assert("enter"@[0] == 'e' && "right"@[0] == 'r' && "esc"@[0] == 'e' && "tab"@[0] == 't');
    assert("down"@[0] == 'd' && "left"@[0] == 'l' && "down"@.len() == 4 && "left"@.len() == 4);
    assert("up"@[1] == 'p' && "f1"@[1] == '1' && "f2"@[1] == '2' && "f3"@[1] == '3');
    assert("f4"@[1] == '4' && "up"@.len() == 2 && "f1"@.len() == 2 && "f2"@.len() == 2);
    assert("f3"@.len() == 2 && "f4"@.len() == 2);
    let name = key_name(code)->0;
    assert(text::lowered(name) =~= name);
    if code is Char {
        assert(name.len() == 1);
        assert(name[0] == code->Char_0);
    }
}

proof fn lemma_modifier(name: Seq<char>)
    requires
        is_modifier(name),
    ensures
        text_laws::lacks(name, '+'),
        text::lowered(name) == name,
{
    reveal_strlit("ctrl");
    reveal_strlit("alt");
    reveal_strlit("shift");
    assert(text::lowered(name) =~= name);
}

proof fn lemma_lowered_joined(parts: Seq<Seq<char>>)
    requires
        forall|i: int| 0 <= i < parts.len() ==> text::lowered(#[trigger] parts[i]) == parts[i],
    ensures
        text::lowered(text::joined(parts, seq!['+'])) == text::joined(parts, seq!['+']),
    decreases parts.len(),
{
    let whole = text::joined(parts, seq!['+']);
    if parts.len() == 0 {
        assert(text::lowered(whole) =~= whole);
    } else {
        let before = parts.drop_last();
        let last = parts.last();
        assert forall|i: int| 0 <= i < before.len() implies text::lowered(#[trigger] before[i])
            == before[i] by {
            assert(before[i] == parts[i]);
        }
        lemma_lowered_joined(before);
        assert(last == parts[parts.len() - 1]);
        assert(text::lowered(last) == last);
        text_laws::law_joining_puts_the_separator_between(before, seq![last], last, seq!['+']);
        assert(before + seq![last] =~= parts);
        let short = text::joined(before, seq!['+']);
        assert forall|i: int| 0 <= i < whole.len() implies text::lower(#[trigger] whole[i])
            == whole[i] by {
            if parts.len() > 1 {
                if i < short.len() {
                    assert(text::lowered(short)[i] == short[i]);
                    assert(whole[i] == short[i]);
                } else if i > short.len() {
                    assert(text::lowered(last)[i - short.len() - 1] == last[i - short.len() - 1]);
                    assert(whole[i] == last[i - short.len() - 1]);
                }
            } else {
                assert(parts =~= seq![last]);
                assert(text::lowered(last)[i] == last[i]);
            }
        }
        assert(text::lowered(whole) =~= whole);
    }
}

/// A shortcut is written as the modifiers that are held and the name of the key, with a plus sign
/// between each two; it is that key with just those modifiers, and no other. Whether it is written in
/// capitals does not matter.
pub proof fn law_a_shortcut_is_read_part_by_part(
    held: Seq<Seq<char>>,
    code: KeyCode,
    pressed: KeyCode,
    modifiers: KeyModifiers,
    shortcut: Seq<char>,
)
    requires
        forall|i: int| 0 <= i < held.len() ==> is_modifier(#[trigger] held[i]),
        key_name(code) is Some,
        text::lowered(shortcut) == text::joined(held.push(key_name(code)->0), seq!['+']),
    ensures
        shortcut_is(shortcut, pressed, modifiers) <==> {
            &&& pressed == code
            &&& modifiers.control <==> exists|i: int|
                0 <= i < held.len() && #[trigger] held[i] == "ctrl"@
            &&& modifiers.alt <==> exists|i: int|
                0 <= i < held.len() && #[trigger] held[i] == "alt"@
            &&& modifiers.shift <==> exists|i: int|
                0 <= i < held.len() && #[trigger] held[i] == "shift"@
        },
        text::lowered(text::lowered(shortcut)) == text::lowered(shortcut),
        shortcut_is(text::lowered(shortcut), pressed, modifiers) == shortcut_is(
            shortcut,
            pressed,
            modifiers,
        ),
{
    let parts = held.push(key_name(code)->0);
    assert forall|i: int| 0 <= i < parts.len() implies text_laws::lacks(#[trigger] parts[i], '+')
        && text::lowered(parts[i]) == parts[i] by {
        if i < held.len() {
            assert(parts[i] == held[i]);
            lemma_modifier(held[i]);
        } else {
            lemma_key_name(code, pressed);
        }
    }
    lemma_key_name(code, pressed);
    lemma_lowered_joined(parts);
    text_laws::law_pieces_make_the_text(shortcut, parts, '+');
    assert(parts.drop_last() =~= held);
    assert(parts.last() == key_name(code)->0);
}

/// An action has the shortcut of its first binding, and none where it has no binding.
pub proof fn law_an_action_has_its_first_binding(
    keymap: Seq<KeyBinding>,
    action: KeyAction,
    at: int,
)
    requires
        0 <= at <= keymap.len(),
        forall|j: int| 0 <= j < at ==> (#[trigger] keymap[j]).action != action,
        at < keymap.len() ==> keymap[at].action == action,
    ensures
        bound(keymap, action) == (if at < keymap.len() {
            Some(keymap[at].shortcut@)
        } else {
            None
        }),
{
    lemma_binding_found(keymap, action, 0, at);
}

proof fn lemma_binding_found(keymap: Seq<KeyBinding>, action: KeyAction, from: int, at: int)
    requires
        0 <= from <= at <= keymap.len(),
        forall|j: int| from <= j < at ==> (#[trigger] keymap[j]).action != action,
        at < keymap.len() ==> keymap[at].action == action,
    ensures
        binding_row(keymap, action, from) == (if at < keymap.len() {
            at
        } else {
            -1
        }),
    decreases at - from,
{
    if from < at {
        lemma_binding_found(keymap, action, from + 1, at);
    }
}

} // verus!
