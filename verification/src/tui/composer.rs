//! The chat composer: editing, cursor movement and prompt recall.

use vstd::prelude::*;

use crate::protocol::CustomCommand;
use crate::text;
use crate::text_laws;
use crate::text::{chars_of, same_text, split, text_of};
use crate::tui::commands;
use crate::tui::commands::slash_suggestions;
use crate::tui::state::{Composer, MAX_PROMPT_HISTORY};

verus! {

/// What a composer holds.
#[verifier::ext_equal]
pub struct ComposerView {
    pub text: Seq<char>,
    pub cursor: int,
    pub suggestion: int,
    pub history: Seq<Seq<char>>,
    pub browsing: Option<int>,
    pub draft: Option<Seq<char>>,
}

impl View for Composer {
    type V = ComposerView;

    open spec fn view(&self) -> ComposerView {
        ComposerView {
            text: self.chat_input@,
            cursor: self.cursor as int,
            suggestion: self.suggestion_selected as int,
            history: text::texts(self.prompt_history@),
            browsing: match self.history_cursor {
                Some(i) => Some(i as int),
                None => None,
            },
            draft: text::opt_text(self.draft_before_history),
        }
    }
}

impl ComposerView {
    /// The cursor stands inside the text, and the browsed prompt is one of those remembered.
    pub open spec fn wf(self) -> bool {
        &&& 0 <= self.cursor <= self.text.len()
        &&& self.history.len() <= MAX_PROMPT_HISTORY
        &&& self.browsing matches Some(i) ==> 0 <= i < self.history.len()
    }

    /// The composer with other text, the cursor at its end.
    pub open spec fn placed(self, t: Seq<char>) -> ComposerView {
        ComposerView {
            text: t,
            cursor: t.len() as int,
            suggestion: 0,
            browsing: None,
            draft: None,
            ..self
        }
    }

    /// The empty composer.
    pub open spec fn cleared(self) -> ComposerView {
        ComposerView { text: Seq::empty(), cursor: 0, suggestion: 0, ..self }
    }

    /// The composer with text inserted at the cursor, which moves past it.
    pub open spec fn inserted(self, t: Seq<char>) -> ComposerView {
        ComposerView {
            text: self.text.take(self.cursor) + t + self.text.skip(self.cursor),
            cursor: self.cursor + t.len(),
            suggestion: 0,
            browsing: None,
            draft: None,
            ..self
        }
    }

    /// The composer without the character before the cursor, if there is one.
    pub open spec fn erased(self) -> ComposerView {
        if self.cursor == 0 {
            self
        } else {
            ComposerView {
                text: self.text.take(self.cursor - 1) + self.text.skip(self.cursor),
                cursor: self.cursor - 1,
                suggestion: 0,
                browsing: None,
                draft: None,
                ..self
            }
        }
    }

    /// The composer after a prompt was submitted: it is remembered unless it is empty or repeats
    /// the last one, and the oldest prompt is forgotten where there are too many.
    pub open spec fn remembered(self, prompt: Seq<char>) -> ComposerView {
        let repeats = self.history.len() > 0 && self.history.last() == prompt;
        let grown = if prompt.len() == 0 || repeats {
            self.history
        } else {
            self.history.push(prompt)
        };
        ComposerView {
            history: if grown.len() > MAX_PROMPT_HISTORY {
                grown.skip(1)
            } else {
                grown
            },
            browsing: None,
            draft: None,
            ..self
        }
    }

    /// One prompt further back. The first step sets the text being typed aside; there is nothing
    /// before the oldest prompt.
    pub open spec fn recalled(self) -> ComposerView {
        if self.history.len() == 0 || self.browsing == Some(0int) {
            self
        } else {
            let target = match self.browsing {
                Some(i) => i - 1,
                None => self.history.len() - 1,
            };
            ComposerView {
                browsing: Some(target),
                draft: if self.browsing is None {
                    Some(self.text)
                } else {
                    self.draft
                },
                ..self.placed(self.history[target])
            }
        }
    }

    /// One prompt forward; past the newest one, the text set aside comes back.
    pub open spec fn advanced(self) -> ComposerView {
        match self.browsing {
            Some(i) => if i + 1 < self.history.len() {
                ComposerView {
                    browsing: Some(i + 1),
                    draft: self.draft,
                    ..self.placed(self.history[i + 1])
                }
            } else {
                self.placed(
                    match self.draft {
                        Some(d) => d,
                        None => Seq::empty(),
                    },
                )
            },
            None => self,
        }
    }

    /// The cursor on the line `step` below, in the same column or at that line's end.
    pub open spec fn stepped(self, step: int) -> ComposerView {
        let lines = text::split_on(self.text, '\n');
        let (line, col) = line_col(lines, 0, self.cursor);
        let target = line + step;
        if 0 <= target < lines.len() {
            ComposerView { cursor: char_index(lines, target, col), ..self }
        } else {
            self
        }
    }
}

// ---------------------------------------------------------------------------------------------
// Lines and columns
// ---------------------------------------------------------------------------------------------

/// Characters before line `n`, counting one line break after each line.
pub open spec fn offset(lines: Seq<Seq<char>>, n: int) -> int
    decreases n,
{
    if n <= 0 {
        0
    } else {
        offset(lines, n - 1) + lines[n - 1].len() + 1
    }
}

/// The line and column of a cursor that stands `remaining` characters into line `from`.
pub open spec fn line_col(lines: Seq<Seq<char>>, from: int, remaining: int) -> (int, int)
    decreases lines.len() - from,
{
    if from >= lines.len() {
        if lines.len() == 0 {
            (0, 0)
        } else {
            (lines.len() - 1, lines.last().len() as int)
        }
    } else if remaining <= lines[from].len() {
        (from, remaining)
    } else {
        line_col(lines, from + 1, remaining - lines[from].len() - 1)
    }
}

/// The cursor at a line and column; a column past the line's end counts as its end.
pub open spec fn char_index(lines: Seq<Seq<char>>, line: int, col: int) -> int {
    let n = if line <= lines.len() {
        line
    } else {
        lines.len() as int
    };
    let length = if 0 <= line < lines.len() {
        lines[line].len() as int
    } else {
        0
    };
    offset(lines, n) + if col <= length {
        col
    } else {
        length
    }
}

/// Lines come in order: a later line begins after an earlier one ends.
pub proof fn lemma_offset_grows(lines: Seq<Seq<char>>, a: int, b: int)
    requires
        0 <= a < b <= lines.len(),
    ensures
        offset(lines, a) + lines[a].len() + 1 <= offset(lines, b),
    decreases b - a,
{
    if a + 1 < b {
        lemma_offset_grows(lines, a, b - 1);
    }
}

proof fn lemma_offset_of_prefix(a: Seq<Seq<char>>, b: Seq<Seq<char>>, n: int)
    requires
        0 <= n <= a.len(),
        n <= b.len(),
        forall|i: int| 0 <= i < n ==> a[i] == b[i],
    ensures
        offset(a, n) == offset(b, n),
    decreases n,
{
    if n > 0 {
        lemma_offset_of_prefix(a, b, n - 1);
    }
}

/// The lines of a text account for each of its characters.
pub proof fn lemma_offset_of_split(s: Seq<char>, sep: char)
    ensures
        offset(text::split_on(s, sep), text::split_on(s, sep).len() as int) == s.len() + 1,
        text::split_on(s, sep).len() >= 1,
    decreases s.len(),
{
    if s.len() > 0 {
        let before = text::split_on(s.drop_last(), sep);
        let after = text::split_on(s, sep);
        lemma_offset_of_split(s.drop_last(), sep);
        lemma_offset_of_prefix(before, after, before.len() - 1);
        if s.last() == sep {
            lemma_offset_of_prefix(before, after, before.len() as int);
        }
    } else {
        assert(offset(seq![Seq::<char>::empty()], 0) == 0);
        assert(offset(text::split_on(s, sep), 1) == 1);
    }
}

proof fn lemma_line_col_from(lines: Seq<Seq<char>>, from: int, remaining: int)
    requires
        0 <= from < lines.len(),
        0 <= remaining,
        offset(lines, from) + remaining < offset(lines, lines.len() as int),
    ensures
        ({
            let (line, col) = line_col(lines, from, remaining);
            &&& from <= line < lines.len()
            &&& 0 <= col <= lines[line].len()
            &&& offset(lines, line) + col == offset(lines, from) + remaining
        }),
    decreases lines.len() - from,
{
    if remaining > lines[from].len() {
        assert(offset(lines, from + 1) == offset(lines, from) + lines[from].len() + 1);
        lemma_line_col_from(lines, from + 1, remaining - lines[from].len() - 1);
    }
}

/// Going from a cursor to its line and column and back returns the cursor, for any cursor inside
/// the text that the lines make up.
/// The line and the column of a cursor stand for the cursor.
pub proof fn lemma_line_and_column_return(lines: Seq<Seq<char>>, cursor: int)
    requires
        lines.len() > 0,
        0 <= cursor < offset(lines, lines.len() as int),
    ensures
        ({
            let (line, col) = line_col(lines, 0, cursor);
            &&& 0 <= line < lines.len()
            &&& 0 <= col <= lines[line].len()
            &&& char_index(lines, line, col) == cursor
        }),
{
    lemma_line_col_from(lines, 0, cursor);
}

proof fn lemma_line_col_at(lines: Seq<Seq<char>>, from: int, line: int, col: int)
    requires
        0 <= from <= line < lines.len(),
        0 <= col <= lines[line].len(),
    ensures
        line_col(lines, from, offset(lines, line) + col - offset(lines, from)) == (line, col),
    decreases line - from,
{
    if from < line {
        lemma_offset_grows(lines, from, line);
        assert(offset(lines, from + 1) == offset(lines, from) + lines[from].len() + 1);
        lemma_line_col_at(lines, from + 1, line, col);
    }
}

/// Going from a line and column to a cursor and back returns the line and column, and the cursor
/// stands inside the text that the lines make up.
proof fn lemma_cursor_returns(lines: Seq<Seq<char>>, line: int, col: int)
    requires
        0 <= line < lines.len(),
        0 <= col <= lines[line].len(),
    ensures
        line_col(lines, 0, char_index(lines, line, col)) == (line, col),
        0 <= char_index(lines, line, col) < offset(lines, lines.len() as int),
{
    lemma_line_col_at(lines, 0, line, col);
    lemma_offset_grows(lines, line, lines.len() as int);
    if line > 0 {
        lemma_offset_grows(lines, 0, line);
    }
}

/// Characters of the first `n` lines, without the line breaks between them.
pub open spec fn characters(lines: Seq<Seq<char>>, n: int) -> int
    decreases n,
{
    if n <= 0 {
        0
    } else {
        characters(lines, n - 1) + lines[n - 1].len()
    }
}

proof fn lemma_offset_counts_breaks(lines: Seq<Seq<char>>, n: int)
    requires
        0 <= n <= lines.len(),
    ensures
        offset(lines, n) == characters(lines, n) + n,
    decreases n,
{
    if n > 0 {
        lemma_offset_counts_breaks(lines, n - 1);
    }
}

/// A cursor and its line and column stand for each other. Of lines that make up a text, one line
/// break between two of them: a cursor no further than the text's end is the cursor of its own
/// line and column, and a line with a column no further than its end is the line and column of
/// its own cursor, which stands no further than the text's end and so fits a machine word where
/// the text's length does.
pub proof fn law_cursors_and_line_columns_are_inverse(
    lines: Seq<Seq<char>>,
    cursor: int,
    line: int,
    col: int,
)
    requires
        lines.len() > 0,
        0 <= cursor <= characters(lines, lines.len() as int) + lines.len() - 1,
        0 <= line < lines.len(),
        0 <= col <= lines[line].len(),
    ensures
        ({
            let (l, c) = line_col(lines, 0, cursor);
            &&& 0 <= l < lines.len()
            &&& 0 <= c <= lines[l].len()
            &&& char_index(lines, l, c) == cursor
        }),
        line_col(lines, 0, char_index(lines, line, col)) == (line, col),
        0 <= char_index(lines, line, col) <= characters(lines, lines.len() as int) + lines.len()
            - 1,
{
    lemma_offset_counts_breaks(lines, lines.len() as int);
    lemma_line_and_column_return(lines, cursor);
    lemma_cursor_returns(lines, line, col);
}

/// Resolves a character-index cursor to its zero-based line and column within the lines.
pub fn cursor_line_col(lines: &Vec<String>, cursor: usize) -> (r: (usize, usize))
    ensures
        (r.0 as int, r.1 as int) == line_col(text::texts(lines@), 0, cursor as int),
{
    let ghost all = text::texts(lines@);
    let mut remaining: usize = cursor;
    let mut i: usize = 0;
    while i < lines.len()
        invariant
            i <= lines@.len(),
            all == text::texts(lines@),
            line_col(all, 0, cursor as int) == line_col(all, i as int, remaining as int),
        decreases lines@.len() - i,
    {
        let length: usize = lines[i].as_str().unicode_len();
        assert(all[i as int] == lines@[i as int]@);
        if remaining <= length {
            return (i, remaining);
        }
        remaining = remaining - length - 1;
        i = i + 1;
    }
    if lines.len() == 0 {
        (0, 0)
    } else {
        let last: usize = lines.len() - 1;
        (last, lines[last].as_str().unicode_len())
    }
}

/// The inverse of `cursor_line_col`: the character-index cursor position at a line and column.
pub fn char_index_from_line_col(lines: &Vec<String>, line: usize, col: usize) -> (r: usize)
    requires
        char_index(text::texts(lines@), line as int, col as int) <= usize::MAX,
    ensures
        r == char_index(text::texts(lines@), line as int, col as int),
{
    let ghost all = text::texts(lines@);
    let n: usize = if line <= lines.len() {
        line
    } else {
        lines.len()
    };
    let mut index: usize = 0;
    let mut i: usize = 0;
    while i < n
        invariant
            i <= n <= lines@.len(),
            all == text::texts(lines@),
            index == offset(all, i as int),
            offset(all, n as int) <= usize::MAX,
        decreases n - i,
    {
        let length: usize = lines[i].as_str().unicode_len();
        proof {
            assert(all[i as int] == lines@[i as int]@);
            lemma_offset_grows(all, i as int, n as int);
        }
        index = index + length + 1;
        i = i + 1;
    }
    let length: usize = if line < lines.len() {
        assert(all[line as int] == lines@[line as int]@);
        lines[line].as_str().unicode_len()
    } else {
        0
    };
    index + if col <= length {
        col
    } else {
        length
    }
}

// ---------------------------------------------------------------------------------------------
// Editing
// ---------------------------------------------------------------------------------------------

impl Composer {
    /// Replaces the composer's text wholesale, moving the cursor to its end.
    pub fn set_chat_input(&mut self, t: String)
        requires
            old(self).wf(),
        ensures
            final(self).wf(),
            final(self)@ == old(self)@.placed(t@),
    {
        self.cursor = t.as_str().unicode_len();
        self.chat_input = t;
        self.suggestion_selected = 0;
        self.history_cursor = None;
        self.draft_before_history = None;
    }

    /// Empties the composer and resets the cursor to the start.
    pub fn clear_chat_input(&mut self)
        requires
            old(self).wf(),
        ensures
            final(self).wf(),
            final(self)@ == old(self)@.cleared(),
    {
        self.chat_input = String::new();
        self.cursor = 0;
        self.suggestion_selected = 0;
    }

    /// Inserts text at the cursor and advances the cursor past it.
    pub fn insert_at_cursor(&mut self, t: &str)
        requires
            old(self).wf(),
        ensures
            final(self).wf(),
            final(self)@ == old(self)@.inserted(t@),
    {
        let v: Vec<char> = chars_of(self.chat_input.as_str());
        let mut whole: String = text_of(&v, 0, self.cursor);
        let tail: String = text_of(&v, self.cursor, v.len());
        whole.append(t);
        whole.append(tail.as_str());
        let length: usize = whole.as_str().unicode_len();
        let added: usize = t.unicode_len();
        proof {
            let c = self.cursor as int;
            assert(v@.subrange(0, c) =~= v@.take(c));
            assert(v@.subrange(c, v@.len() as int) =~= v@.skip(c));
            assert(length == v@.len() + added);
        }
        self.chat_input = whole;
        self.cursor = self.cursor + added;
        self.suggestion_selected = 0;
        self.history_cursor = None;
        self.draft_before_history = None;
    }

    /// Removes the character immediately before the cursor, if any.
    pub fn backspace_at_cursor(&mut self)
        requires
            old(self).wf(),
        ensures
            final(self).wf(),
            final(self)@ == old(self)@.erased(),
    {
        if self.cursor == 0 {
            return ;
        }
        let v: Vec<char> = chars_of(self.chat_input.as_str());
        let mut whole: String = text_of(&v, 0, self.cursor - 1);
        let tail: String = text_of(&v, self.cursor, v.len());
        whole.append(tail.as_str());
        proof {
            let c = self.cursor as int;
            assert(v@.subrange(0, c - 1) =~= v@.take(c - 1));
            assert(v@.subrange(c, v@.len() as int) =~= v@.skip(c));
        }
        self.chat_input = whole;
        self.cursor = self.cursor - 1;
        self.suggestion_selected = 0;
        self.history_cursor = None;
        self.draft_before_history = None;
    }

    /// Records a submitted prompt for Up/Down recall, skipping an immediate repeat of the last
    /// entry.
    pub fn remember_prompt(&mut self, prompt: &str)
        requires
            old(self).wf(),
        ensures
            final(self).wf(),
            final(self)@ == old(self)@.remembered(prompt@),
    {
        let n: usize = self.prompt_history.len();
        let repeats: bool = n > 0 && same_text(self.prompt_history[n - 1].as_str(), prompt);
        let ghost before = text::texts(self.prompt_history@);
        if !prompt.is_empty() && !repeats {
            self.prompt_history.push(prompt.to_owned());
            assert(text::texts(self.prompt_history@) =~= before.push(prompt@));
            if self.prompt_history.len() > MAX_PROMPT_HISTORY {
                let ghost grown = text::texts(self.prompt_history@);
                self.prompt_history.remove(0);
                assert(text::texts(self.prompt_history@) =~= grown.skip(1));
            }
        }
        self.history_cursor = None;
        self.draft_before_history = None;
    }

    /// Walks one entry further back (older) in prompt history, setting the in-progress draft
    /// aside on the first press. Nothing happens at the oldest entry.
    pub fn recall_previous_prompt(&mut self)
        requires
            old(self).wf(),
        ensures
            final(self).wf(),
            final(self)@ == old(self)@.recalled(),
    {
        if self.prompt_history.len() == 0 {
            return ;
        }
        let target: usize = match self.history_cursor {
            None => self.prompt_history.len() - 1,
            Some(i) => {
                if i == 0 {
                    return ;
                }
                i - 1
            },
        };
        if self.history_cursor.is_none() {
            self.draft_before_history = Some(self.chat_input.clone());
        }
        let draft: Option<String> = self.draft_before_history.take();
        let prompt: String = self.prompt_history[target].clone();
        self.set_chat_input(prompt);
        self.history_cursor = Some(target);
        self.draft_before_history = draft;
    }

    /// Walks one entry forward (newer) in prompt history, restoring the draft set aside once past
    /// the newest entry. Nothing happens when not browsing.
    pub fn recall_next_prompt(&mut self)
        requires
            old(self).wf(),
        ensures
            final(self).wf(),
            final(self)@ == old(self)@.advanced(),
    {
        match self.history_cursor {
            None => {},
            Some(i) => {
                let draft: Option<String> = self.draft_before_history.take();
                if i + 1 < self.prompt_history.len() {
                    let prompt: String = self.prompt_history[i + 1].clone();
                    self.set_chat_input(prompt);
                    self.history_cursor = Some(i + 1);
                    self.draft_before_history = draft;
                } else {
                    let restored: String = match draft {
                        Some(d) => d,
                        None => String::new(),
                    };
                    self.set_chat_input(restored);
                }
            },
        }
    }

    /// Moves the cursor one character left, clamped to the start.
    pub fn move_cursor_left(&mut self)
        requires
            old(self).wf(),
        ensures
            final(self).wf(),
            *final(self) == (Composer { cursor: final(self).cursor, ..*old(self) }),
            final(self).cursor == (if old(self).cursor > 0 {
                old(self).cursor - 1
            } else {
                0
            }),
    {
        self.cursor = self.cursor.saturating_sub(1);
    }

    /// Moves the cursor one character right, clamped to the end.
    pub fn move_cursor_right(&mut self)
        requires
            old(self).wf(),
        ensures
            final(self).wf(),
            *final(self) == (Composer { cursor: final(self).cursor, ..*old(self) }),
            final(self).cursor == (if old(self).cursor < old(self).chat_input@.len() {
                old(self).cursor + 1
            } else {
                old(self).cursor as int
            }),
    {
        let end: usize = self.chat_input.as_str().unicode_len();
        if self.cursor < end {
            self.cursor = self.cursor + 1;
        }
    }

    /// Moves the cursor to the same column on the line above or below, clamped to that line's
    /// length. Nothing happens past the first or last line.
    pub fn move_cursor_vertical(&mut self, down: bool)
        requires
            old(self).wf(),
        ensures
            final(self).wf(),
            final(self)@ == old(self)@.stepped(
                if down {
                    1
                } else {
                    -1
                },
            ),
    {
        let lines: Vec<String> = split(self.chat_input.as_str(), '\n');
        let (line, col) = cursor_line_col(&lines, self.cursor);
        let ghost all = text::texts(lines@);
        let target: usize = if down {
            if line >= lines.len() - 1 {
                assert(line + 1 >= lines@.len());
                return ;
            }
            line + 1
        } else {
            if line == 0 {
                return ;
            }
            line - 1
        };
        proof {
            lemma_offset_of_split(self.chat_input@, '\n');
            lemma_line_and_column_return(all, self.cursor as int);
            lemma_offset_grows(all, target as int, all.len() as int);
        }
        let end: usize = self.chat_input.as_str().unicode_len();
        assert(char_index(all, target as int, col as int) <= end);
        self.cursor = char_index_from_line_col(&lines, target, col);
    }

    /// Completes the highlighted suggestion, if there is one.
    pub fn autocomplete(&mut self, custom_commands: &Vec<CustomCommand>)
        requires
            old(self).wf(),
        ensures
            final(self).wf(),
            ({
                let offered = commands::suggestions(old(self).chat_input@, custom_commands@);
                let row = chosen_row(offered.len() as int, old(self).suggestion_selected as int);
                final(self)@ == (if offered.len() == 0 {
                    old(self)@
                } else {
                    old(self)@.placed(offered[row].0)
                })
            }),
    {
        let offered: Vec<(String, String)> = slash_suggestions(
            self.chat_input.as_str(),
            custom_commands,
        );
        if offered.len() == 0 {
            return ;
        }
        let row: usize = if self.suggestion_selected < offered.len() {
            self.suggestion_selected
        } else {
            offered.len() - 1
        };
        let name: String = offered[row].0.clone();
        assert(commands::pairs(offered@)[row as int].0 == name@);
        self.set_chat_input(name);
    }
}

/// The selected row, or the last one where the selection is past the end.
pub open spec fn chosen_row(count: int, selected: int) -> int {
    if selected < count {
        selected
    } else {
        count - 1
    }
}

// ---------------------------------------------------------------------------------------------
// Laws
// ---------------------------------------------------------------------------------------------

/// Typing one character and erasing it leaves the text and the cursor as they were.
pub proof fn law_erasing_undoes_typing(v: ComposerView, c: char)
    requires
        v.wf(),
    ensures
        v.inserted(seq![c]).erased().text == v.text,
        v.inserted(seq![c]).erased().cursor == v.cursor,
{
    let w = v.inserted(seq![c]);
    assert(w.text.take(w.cursor - 1) =~= v.text.take(v.cursor));
    assert(w.text.skip(w.cursor) =~= v.text.skip(v.cursor));
    assert(v.text.take(v.cursor) + v.text.skip(v.cursor) =~= v.text);
}

/// Every edit and every recall keeps the composer well formed.
pub proof fn law_editing_keeps_the_composer_well_formed(v: ComposerView, t: Seq<char>)
    requires
        v.wf(),
    ensures
        v.placed(t).wf(),
        v.cleared().wf(),
        v.inserted(t).wf(),
        v.erased().wf(),
        v.remembered(t).wf(),
        v.recalled().wf(),
        v.advanced().wf(),
{
}

/// Typing, or setting the text, leaves history browsing; the remembered prompts stay as they are.
pub proof fn law_typing_leaves_the_history_alone(v: ComposerView, t: Seq<char>)
    ensures
        v.inserted(t).history == v.history,
        v.inserted(t).browsing is None,
        v.erased().history == v.history,
        v.recalled().history == v.history,
        v.advanced().history == v.history,
{
}

/// A recall followed by a step forward brings the draft back, cursor at its end, when no history
/// was being browsed.
pub proof fn law_recall_then_advance_restores_the_draft(v: ComposerView)
    requires
        v.wf(),
        v.browsing is None,
        v.history.len() > 0,
    ensures
        v.recalled().text == v.history.last(),
        v.recalled().advanced().text == v.text,
        v.recalled().advanced().cursor == v.text.len(),
        v.recalled().advanced().browsing is None,
{
}

/// While browsing, a step back and a step forward return to the prompt that was shown.
pub proof fn law_recall_then_advance_returns_while_browsing(v: ComposerView, i: int)
    requires
        v.wf(),
        v.browsing == Some(i),
        0 < i,
    ensures
        v.recalled().advanced().text == v.history[i],
        v.recalled().advanced().browsing == Some(i),
        v.recalled().advanced().draft == v.draft,
{
}

/// `n` steps back from the draft, and `n` forward.
pub open spec fn walked_back(v: ComposerView, n: nat) -> ComposerView
    decreases n,
{
    if n == 0 {
        v
    } else {
        walked_back(v, (n - 1) as nat).recalled()
    }
}

/// `n` steps forward.
pub open spec fn walked_forward(v: ComposerView, n: nat) -> ComposerView
    decreases n,
{
    if n == 0 {
        v
    } else {
        walked_forward(v.advanced(), (n - 1) as nat)
    }
}

proof fn lemma_walked_back(v: ComposerView, n: nat)
    requires
        v.wf(),
        v.browsing is None,
        0 < n <= v.history.len(),
    ensures
        walked_back(v, n).browsing == Some(v.history.len() - n),
        walked_back(v, n).text == v.history[v.history.len() - n],
        walked_back(v, n).draft == Some(v.text),
        walked_back(v, n).history == v.history,
    decreases n,
{
    if n > 1 {
        lemma_walked_back(v, (n - 1) as nat);
    } else {
        assert(walked_back(v, 0) == v);
    }
}

proof fn lemma_walked_forward(v: ComposerView, n: nat)
    requires
        v.history.len() >= n > 0,
        v.browsing == Some(v.history.len() - n),
    ensures
        walked_forward(v, n).text == (match v.draft {
            Some(d) => d,
            None => Seq::empty(),
        }),
        walked_forward(v, n).browsing is None,
    decreases n,
{
    if n > 1 {
        lemma_walked_forward(v.advanced(), (n - 1) as nat);
    } else {
        assert(walked_forward(v.advanced(), 0) == v.advanced());
    }
}

/// However far back one walks in the history, the same number of steps forward restores the
/// draft.
pub proof fn law_walking_the_history_restores_the_draft(v: ComposerView, n: nat)
    requires
        v.wf(),
        v.browsing is None,
        0 < n <= v.history.len(),
    ensures
        walked_back(v, n).text == v.history[v.history.len() - n],
        walked_forward(walked_back(v, n), n).text == v.text,
        walked_forward(walked_back(v, n), n).browsing is None,
{
    lemma_walked_back(v, n);
    lemma_walked_forward(walked_back(v, n), n);
}

/// A submitted prompt is the first one recalled, unless it is empty.
pub proof fn law_submitted_prompt_is_recalled_first(v: ComposerView, prompt: Seq<char>)
    requires
        v.wf(),
        prompt.len() > 0,
    ensures
        v.remembered(prompt).recalled().text == prompt,
{
}

/// What is typed goes where the cursor stands, and the cursor goes behind it. Erasing takes the
/// character before the cursor.
pub proof fn law_typing_goes_where_the_cursor_stands(
    v: ComposerView,
    before: Seq<char>,
    t: Seq<char>,
    c: char,
    behind: Seq<char>,
)
    ensures
        v.text == before + behind && v.cursor == before.len() ==> v.inserted(t).text == before + t
            + behind && v.inserted(t).cursor == before.len() + t.len(),
        v.text == before.push(c) + behind && v.cursor == before.len() + 1 ==> v.erased().text
            == before + behind && v.erased().cursor == before.len(),
        v.text == behind && v.cursor == 0 ==> v.erased().text == behind,
{
    if v.text == before + behind && v.cursor == before.len() {
        assert(v.text.take(v.cursor) =~= before);
        assert(v.text.skip(v.cursor) =~= behind);
    }
    if v.text == before.push(c) + behind && v.cursor == before.len() + 1 {
        assert(v.text.take(v.cursor - 1) =~= before);
        assert(v.text.skip(v.cursor) =~= behind);
    }
}

/// Prompts are remembered in the order in which they were submitted, the last 200 of them. One that
/// repeats the last one, or is empty, is not remembered again.
pub proof fn law_prompts_are_remembered_in_order(v: ComposerView, prompt: Seq<char>)
    requires
        v.wf(),
    ensures
        prompt.len() == 0 ==> v.remembered(prompt).history == v.history,
        v.history.len() > 0 && prompt == v.history.last() ==> v.remembered(prompt).history
            == v.history,
        prompt.len() > 0 && (v.history.len() == 0 || prompt != v.history.last()) ==> v.remembered(
            prompt,
        ).history == (if v.history.len() < 200 {
            v.history.push(prompt)
        } else {
            v.history.skip(1).push(prompt)
        }),
        v.remembered(prompt).text == v.text,
{
    if prompt.len() > 0 && v.history.len() >= 200 {
        assert(v.history.push(prompt).skip(1) =~= v.history.skip(1).push(prompt));
    }
}

/// Where a column of a line stands in a text of several lines.
pub open spec fn place(lines: Seq<Seq<char>>, line: int, col: int) -> int {
    if line == 0 {
        col
    } else {
        text::joined(lines.take(line), seq!['\n']).len() + 1 + col
    }
}

proof fn lemma_place(lines: Seq<Seq<char>>, n: int)
    requires
        0 < n <= lines.len(),
    ensures
        offset(lines, n) == text::joined(lines.take(n), seq!['\n']).len() + 1,
    decreases n,
{
    let head = lines.take(n);
    let last = lines[n - 1];
    if n == 1 {
        assert(head =~= seq![last]);
        text_laws::law_joining_puts_the_separator_between(
            Seq::empty(),
            Seq::empty(),
            last,
            seq!['\n'],
        );
        assert(offset(lines, 0) == 0);
    } else {
        lemma_place(lines, n - 1);
        assert(head =~= lines.take(n - 1) + seq![last]);
        text_laws::law_joining_puts_the_separator_between(
            lines.take(n - 1),
            seq![last],
            last,
            seq!['\n'],
        );
    }
}

/// A step up or down puts the cursor on the line above or below, in the same column, or at that
/// line's end where it is shorter. Where there is no such line the cursor stays.
pub proof fn law_a_step_keeps_the_column(
    v: ComposerView,
    lines: Seq<Seq<char>>,
    line: int,
    col: int,
    step: int,
)
    requires
        text_laws::all_lack(lines, '\n'),
        0 <= line < lines.len(),
        0 <= col <= lines[line].len(),
        v.text == text::joined(lines, seq!['\n']),
        v.cursor == place(lines, line, col),
    ensures
        v.stepped(step).text == v.text,
        0 <= line + step < lines.len() ==> v.stepped(step).cursor == place(
            lines,
            line + step,
            if col <= lines[line + step].len() {
                col
            } else {
                lines[line + step].len() as int
            },
        ),
        !(0 <= line + step < lines.len()) ==> v.stepped(step).cursor == v.cursor,
{
    text_laws::law_pieces_make_the_text(v.text, lines, '\n');
    if line > 0 {
        lemma_place(lines, line);
    }
    lemma_cursor_returns(lines, line, col);
    if 0 < line + step < lines.len() {
        lemma_place(lines, line + step);
    }
}

} // verus!
