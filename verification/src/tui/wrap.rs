//! Word wrapping, the visible part of the transcript, and mouse selections in it.

use std::collections::hash_map::DefaultHasher;
use std::hash::Hasher;

use vstd::prelude::*;
use vstd::std_specs::hash::DefaultHasherAdditionalSpecFns;

use crate::text;
use crate::text_laws;
use crate::text::{chars_of, feed_text, join, same_text, text_of, trim_end_of};
use crate::tui::state::{Selection, SelectionPoint};

verus! {

/// How a line of the transcript is painted: the user's own messages get a highlighted background,
/// everything else is plain.
#[derive(Clone, Copy, Debug, PartialEq, Eq, Structural)]
pub enum LineKind {
    Normal,
    User,
}

/// Lines by their text, each with its kind.
pub open spec fn tagged(lines: Seq<(String, LineKind)>) -> Seq<(Seq<char>, LineKind)> {
    Seq::new(lines.len(), |i: int| (lines[i].0@, lines[i].1))
}

// ---------------------------------------------------------------------------------------------
// Wrapping
// ---------------------------------------------------------------------------------------------

/// The last blank of a text in `[from, to)`, or `from - 1` where there is none.
pub open spec fn last_blank(s: Seq<char>, from: int, to: int) -> int
    decreases to - from,
{
    if to <= from {
        from - 1
    } else if s[to - 1] == ' ' {
        to - 1
    } else {
        last_blank(s, from, to - 1)
    }
}

/// Where the row that begins at `start` ends: after `width` characters, or after the last blank
/// before that where the text goes on; a blank at the very start of the row is no place to break.
pub open spec fn row_end(s: Seq<char>, start: int, width: int) -> int {
    let limit = if start + width < s.len() {
        start + width
    } else {
        s.len() as int
    };
    let blank = last_blank(s, start, limit);
    if limit < s.len() && blank > start {
        blank + 1
    } else {
        limit
    }
}

/// Where the row after the one that begins at `start` begins: one blank is passed over.
pub open spec fn next_row(s: Seq<char>, start: int, width: int) -> int {
    let end = row_end(s, start, width);
    if end < s.len() && s[end] == ' ' {
        end + 1
    } else {
        end
    }
}

proof fn lemma_last_blank(s: Seq<char>, from: int, to: int)
    requires
        0 <= from <= to <= s.len(),
    ensures
        from - 1 <= last_blank(s, from, to) < to,
        last_blank(s, from, to) >= from ==> s[last_blank(s, from, to)] == ' ',
    decreases to - from,
{
    if from < to && s[to - 1] != ' ' {
        lemma_last_blank(s, from, to - 1);
    }
}

/// A row holds at least one character and at most `width`.
pub proof fn lemma_row_end(s: Seq<char>, start: int, width: int)
    requires
        0 <= start < s.len(),
        width >= 1,
    ensures
        start < row_end(s, start, width) <= s.len(),
        row_end(s, start, width) <= start + width,
        start < next_row(s, start, width) <= s.len(),
{
    let limit = if start + width < s.len() {
        start + width
    } else {
        s.len() as int
    };
    lemma_last_blank(s, start, limit);
}

/// The rows of a text from `start` on.
pub open spec fn rows_from(s: Seq<char>, start: int, width: int) -> Seq<Seq<char>>
    decreases s.len() - start,
{
    if start < 0 || start >= s.len() || width < 1 {
        Seq::empty()
    } else {
        proof {
            lemma_row_end(s, start, width);
        }
        seq![text::trimmed_end_of(s.subrange(start, row_end(s, start, width)), ' ')] + rows_from(
            s,
            next_row(s, start, width),
            width,
        )
    }
}

/// The rows of one line; an empty line is one empty row.
pub open spec fn wrapped_line(s: Seq<char>, width: int) -> Seq<Seq<char>> {
    if s.len() == 0 {
        seq![Seq::empty()]
    } else {
        rows_from(
            s,
            0,
            if width < 1 {
                1
            } else {
                width
            },
        )
    }
}

/// The rows of a line, each with its kind.
pub open spec fn tag_rows(rows: Seq<Seq<char>>, kind: LineKind) -> Seq<(Seq<char>, LineKind)> {
    Seq::new(rows.len(), |i: int| (rows[i], kind))
}

/// The rows of the first `n` lines.
pub open spec fn wrapped(lines: Seq<(Seq<char>, LineKind)>, width: int, n: int) -> Seq<
    (Seq<char>, LineKind),
>
    decreases n,
{
    if n <= 0 {
        Seq::empty()
    } else {
        wrapped(lines, width, n - 1) + tag_rows(
            wrapped_line(lines[n - 1].0, width),
            lines[n - 1].1,
        )
    }
}

fn find_row_end(chars: &Vec<char>, start: usize, width: usize) -> (r: usize)
    requires
        start < chars@.len(),
        width >= 1,
    ensures
        r == row_end(chars@, start as int, width as int),
        start < r <= chars@.len(),
{
    let n: usize = chars.len();
    let limit: usize = if width < n - start {
        start + width
    } else {
        n
    };
    proof {
        lemma_row_end(chars@, start as int, width as int);
    }
    if limit == n {
        return n;
    }
    let mut i: usize = limit;
    while i > start + 1
        invariant
            start + 1 <= i <= limit,
            limit < chars@.len(),
            limit == start + width,
            last_blank(chars@, start as int, limit as int) == last_blank(
                chars@,
                start as int,
                i as int,
            ),
        decreases i,
    {
        if chars[i - 1] == ' ' {
            return i;
        }
        i = i - 1;
    }
    proof {
        lemma_last_blank(chars@, start as int, i as int);
    }
    limit
}

/// Word-wraps every logical line to `width` columns so that the resulting rows match one for one
/// what is drawn: the same rows serve for finding what the mouse points at. Each row keeps the
/// kind of the line it was split from.
pub fn wrap_lines_tagged(lines: &Vec<(String, LineKind)>, width: usize) -> (r: Vec<
    (String, LineKind),
>)
    ensures
        tagged(r@) == wrapped(tagged(lines@), width as int, lines@.len() as int),
{
    let columns: usize = if width < 1 {
        1
    } else {
        width
    };
    let ghost source = tagged(lines@);
    let mut rows: Vec<(String, LineKind)> = Vec::new();
    let mut i: usize = 0;
    assert(tagged(rows@) =~= wrapped(source, width as int, 0));
    while i < lines.len()
        invariant
            i <= lines@.len(),
            source == tagged(lines@),
            columns >= 1,
            columns == (if width < 1 {
                1int
            } else {
                width as int
            }),
            tagged(rows@) == wrapped(source, width as int, i as int),
        decreases lines@.len() - i,
    {
        let kind: LineKind = lines[i].1;
        let chars: Vec<char> = chars_of(lines[i].0.as_str());
        let ghost before = tagged(rows@);
        let ghost line = source[i as int].0;
        assert(line == chars@);
        if chars.len() == 0 {
            rows.push((String::new(), kind));
            assert(wrapped_line(line, width as int) =~= seq![Seq::<char>::empty()]);
            assert(tagged(rows@) =~= before + tag_rows(wrapped_line(line, width as int), kind));
        } else {
            let mut start: usize = 0;
            let ghost mut done: Seq<Seq<char>> = Seq::empty();
            assert(tagged(rows@) =~= before + tag_rows(done, kind));
            assert(done + rows_from(chars@, 0, columns as int) =~= rows_from(
                chars@,
                0,
                columns as int,
            ));
            while start < chars.len()
                invariant
                    start <= chars@.len(),
                    columns >= 1,
                    tagged(rows@) == before + tag_rows(done, kind),
                    done + rows_from(chars@, start as int, columns as int) == rows_from(
                        chars@,
                        0,
                        columns as int,
                    ),
                decreases chars@.len() - start,
            {
                let end: usize = find_row_end(&chars, start, columns);
                let segment: String = text_of(&chars, start, end);
                let row: String = trim_end_of(segment.as_str(), ' ');
                let ghost earlier = tagged(rows@);
                let ghost rest = rows_from(
                    chars@,
                    next_row(chars@, start as int, columns as int),
                    columns as int,
                );
                proof {
                    lemma_row_end(chars@, start as int, columns as int);
                    assert(rows_from(chars@, start as int, columns as int) == seq![row@] + rest);
                    assert(done.push(row@) + rest =~= done + (seq![row@] + rest));
                    assert(tag_rows(done.push(row@), kind) =~= tag_rows(done, kind).push(
                        (row@, kind),
                    ));
                    done = done.push(row@);
                }
                let ghost added = row@;
                rows.push((row, kind));
                assert(tagged(rows@) =~= earlier.push((added, kind)));
                assert(tagged(rows@) =~= before + tag_rows(done, kind));
                start = end;
                if start < chars.len() && chars[start] == ' ' {
                    start = start + 1;
                }
            }
            assert(rows_from(chars@, start as int, columns as int) =~= Seq::<Seq<char>>::empty());
            assert(done =~= wrapped_line(line, width as int));
        }
        i = i + 1;
    }
    rows
}

/// Word-wraps plain lines.
pub fn wrap_lines(lines: &Vec<String>, width: usize) -> (r: Vec<String>)
    ensures
        ({
            let plain = Seq::new(
                lines@.len(),
                |i: int| (lines@[i]@, LineKind::Normal),
            );
            let rows = wrapped(plain, width as int, lines@.len() as int);
            text::texts(r@) == Seq::new(rows.len(), |i: int| rows[i].0)
        }),
{
    let mut plain: Vec<(String, LineKind)> = Vec::new();
    let mut i: usize = 0;
    while i < lines.len()
        invariant
            i <= lines@.len(),
            plain@.len() == i,
            forall|j: int|
                0 <= j < i ==> (#[trigger] plain@[j]).0@ == lines@[j]@ && plain@[j].1
                    == LineKind::Normal,
        decreases lines@.len() - i,
    {
        plain.push((lines[i].clone(), LineKind::Normal));
        i = i + 1;
    }
    assert(tagged(plain@) =~= Seq::new(lines@.len(), |i: int| (lines@[i]@, LineKind::Normal)));
    let rows: Vec<(String, LineKind)> = wrap_lines_tagged(&plain, width);
    let ghost all = tagged(rows@);
    let mut r: Vec<String> = Vec::new();
    let mut k: usize = 0;
    while k < rows.len()
        invariant
            k <= rows@.len(),
            all == tagged(rows@),
            r@.len() == k,
            forall|j: int| 0 <= j < k ==> (#[trigger] r@[j])@ == all[j].0,
        decreases rows@.len() - k,
    {
        r.push(rows[k].0.clone());
        k = k + 1;
    }
    assert(text::texts(r@) =~= Seq::new(all.len(), |i: int| all[i].0));
    r
}

/// A text without its blanks.
pub open spec fn dense(s: Seq<char>) -> Seq<char>
    decreases s.len(),
{
    if s.len() == 0 {
        Seq::empty()
    } else if s.last() == ' ' {
        dense(s.drop_last())
    } else {
        dense(s.drop_last()).push(s.last())
    }
}

/// The rows one after the other.
pub open spec fn run_together(rows: Seq<Seq<char>>) -> Seq<char>
    decreases rows.len(),
{
    if rows.len() == 0 {
        Seq::empty()
    } else {
        rows[0] + run_together(rows.skip(1))
    }
}

proof fn lemma_dense_append(a: Seq<char>, b: Seq<char>)
    ensures
        dense(a + b) == dense(a) + dense(b),
    decreases b.len(),
{
    if b.len() == 0 {
        assert(a + b =~= a);
        assert(dense(a) + dense(b) =~= dense(a));
    } else {
        assert((a + b).drop_last() =~= a + b.drop_last());
        lemma_dense_append(a, b.drop_last());
        assert(dense(a) + dense(b) =~= dense(a + b));
    }
}

proof fn lemma_dense_trimmed(s: Seq<char>)
    ensures
        dense(text::trimmed_end_of(s, ' ')) == dense(s),
        text::trimmed_end_of(s, ' ').len() <= s.len(),
    decreases s.len(),
{
    if s.len() > 0 && s.last() == ' ' {
        lemma_dense_trimmed(s.drop_last());
    }
}

proof fn lemma_rows_keep_text(s: Seq<char>, start: int, width: int)
    requires
        0 <= start <= s.len(),
        width >= 1,
    ensures
        dense(run_together(rows_from(s, start, width))) == dense(s.skip(start)),
        forall|i: int|
            0 <= i < rows_from(s, start, width).len() ==> (#[trigger] rows_from(
                s,
                start,
                width,
            )[i]).len() <= width,
    decreases s.len() - start,
{
    if start < s.len() {
        lemma_row_end(s, start, width);
        let end = row_end(s, start, width);
        let next = next_row(s, start, width);
        let first = text::trimmed_end_of(s.subrange(start, end), ' ');
        let rows = rows_from(s, start, width);
        lemma_rows_keep_text(s, next, width);
        lemma_dense_trimmed(s.subrange(start, end));
        assert(rows.skip(1) =~= rows_from(s, next, width));
        lemma_dense_append(first, run_together(rows.skip(1)));
        assert(s.skip(start) =~= s.subrange(start, end) + s.subrange(end, next) + s.skip(next));
        lemma_dense_append(s.subrange(start, end) + s.subrange(end, next), s.skip(next));
        lemma_dense_append(s.subrange(start, end), s.subrange(end, next));
        if next > end {
            assert(s.subrange(end, next) =~= seq![' ']);
            assert(seq![' '].drop_last() =~= Seq::<char>::empty());
            reveal_with_fuel(dense, 2);
            assert(dense(seq![' ']) =~= Seq::<char>::empty());
        } else {
            assert(s.subrange(end, next) =~= Seq::<char>::empty());
        }
        assert(dense(s.subrange(start, end)) + dense(s.subrange(end, next)) =~= dense(
            s.subrange(start, end),
        ));
        assert forall|i: int| 0 <= i < rows.len() implies (#[trigger] rows[i]).len() <= width by {
            if i > 0 {
                assert(rows[i] == rows_from(s, next, width)[i - 1]);
            }
        }
    } else {
        assert(s.skip(start) =~= Seq::<char>::empty());
    }
}

/// Wrapping a line loses nothing but blanks, and no row is wider than asked for.
pub proof fn law_wrapping_keeps_the_text(s: Seq<char>, width: int)
    requires
        width >= 1,
    ensures
        dense(run_together(wrapped_line(s, width))) == dense(s),
        forall|i: int|
            0 <= i < wrapped_line(s, width).len() ==> (#[trigger] wrapped_line(s, width)[i]).len()
                <= width,
        wrapped_line(s, width).len() >= 1,
{
    if s.len() == 0 {
        let rows = wrapped_line(s, width);
        assert(rows.skip(1) =~= Seq::<Seq<char>>::empty());
        reveal_with_fuel(run_together, 2);
        assert(run_together(rows) =~= Seq::<char>::empty());
    } else {
        lemma_rows_keep_text(s, 0, width);
        assert(s.skip(0) =~= s);
    }
}

// ---------------------------------------------------------------------------------------------
// The cache of wrapped rows
// ---------------------------------------------------------------------------------------------

/// The byte by which the kind of a line is hashed.
pub open spec fn kind_byte(kind: LineKind) -> u8 {
    if kind == LineKind::User {
        1
    } else {
        0
    }
}

/// What the first `n` lines write to a hasher.
pub open spec fn lines_feed(lines: Seq<(Seq<char>, LineKind)>, n: int) -> Seq<Seq<u8>>
    decreases n,
{
    if n <= 0 {
        Seq::empty()
    } else {
        (lines_feed(lines, n - 1) + text::text_feed(lines[n - 1].0)).push(
            seq![kind_byte(lines[n - 1].1)],
        )
    }
}

/// The hash of lines.
pub open spec fn lines_hash(lines: Seq<(Seq<char>, LineKind)>) -> u64 {
    DefaultHasher::spec_finish(lines_feed(lines, lines.len() as int))
}

/// Hashes lines, each with its kind.
pub fn hash_lines(lines: &Vec<(String, LineKind)>) -> (r: u64)
    ensures
        r == lines_hash(tagged(lines@)),
{
    let ghost source = tagged(lines@);
    let mut hasher: DefaultHasher = DefaultHasher::new();
    let mut i: usize = 0;
    while i < lines.len()
        invariant
            i <= lines@.len(),
            source == tagged(lines@),
            hasher@ == lines_feed(source, i as int),
        decreases lines@.len() - i,
    {
        feed_text(&mut hasher, lines[i].0.as_str());
        let kind: [u8; 1] = if lines[i].1 == LineKind::User {
            [1]
        } else {
            [0]
        };
        assert(kind@ =~= seq![kind_byte(source[i as int].1)]);
        hasher.write(&kind);
        i = i + 1;
    }
    hasher.finish()
}

/// Whether two lists hold the same lines.
fn same_lines(a: &Vec<(String, LineKind)>, b: &Vec<(String, LineKind)>) -> (r: bool)
    ensures
        r == (tagged(a@) == tagged(b@)),
{
    if a.len() != b.len() {
        assert(tagged(a@).len() != tagged(b@).len());
        return false;
    }
    let mut i: usize = 0;
    while i < a.len()
        invariant
            i <= a@.len(),
            a@.len() == b@.len(),
            forall|j: int| 0 <= j < i ==> #[trigger] tagged(a@)[j] == tagged(b@)[j],
        decreases a@.len() - i,
    {
        assert(tagged(a@)[i as int] == (a@[i as int].0@, a@[i as int].1));
        assert(tagged(b@)[i as int] == (b@[i as int].0@, b@[i as int].1));
        if !same_text(a[i].0.as_str(), b[i].0.as_str()) || a[i].1 != b[i].1 {
            return false;
        }
        i = i + 1;
    }
    assert(tagged(a@) =~= tagged(b@));
    true
}

/// The wrapped transcript, kept between draws that change neither the conversation nor the width.
#[derive(Debug, PartialEq, Eq)]
pub struct HistoryWrapCache {
    width: usize,
    source_hash: u64,
    source: Vec<(String, LineKind)>,
    wrapped: Vec<(String, LineKind)>,
}

/// Copies lines.
fn copy_lines(lines: &Vec<(String, LineKind)>) -> (r: Vec<(String, LineKind)>)
    ensures
        tagged(r@) == tagged(lines@),
{
    let mut r: Vec<(String, LineKind)> = Vec::new();
    let mut i: usize = 0;
    while i < lines.len()
        invariant
            i <= lines@.len(),
            r@.len() == i,
            forall|j: int| 0 <= j < i ==> #[trigger] tagged(r@)[j] == tagged(lines@)[j],
        decreases lines@.len() - i,
    {
        let ghost before = tagged(r@);
        r.push((lines[i].0.clone(), lines[i].1));
        assert(tagged(r@) =~= before.push((lines@[i as int].0@, lines@[i as int].1)));
        i = i + 1;
    }
    assert(tagged(r@) =~= tagged(lines@));
    r
}

impl Clone for HistoryWrapCache {
    fn clone(&self) -> (r: HistoryWrapCache)
        ensures
            r.width_of() == self.width_of(),
            r.hash_of() == self.hash_of(),
            r.lines() == self.lines(),
            r.rows() == self.rows(),
    {
        proof {
            use_type_invariant(self);
        }
        let source: Vec<(String, LineKind)> = copy_lines(&self.source);
        let rows: Vec<(String, LineKind)> = copy_lines(&self.wrapped);
        assert(tagged(source@).len() == tagged(self.source@).len());
        HistoryWrapCache {
            width: self.width,
            source_hash: self.source_hash,
            source,
            wrapped: rows,
        }
    }
}

impl HistoryWrapCache {
    /// The cached rows are the cached lines, wrapped at the cached width.
    #[verifier::type_invariant]
    spec fn wf(self) -> bool {
        &&& tagged(self.wrapped@) == wrapped(
            tagged(self.source@),
            self.width as int,
            self.source@.len() as int,
        )
        &&& self.source@.len() > 0 ==> self.source_hash == lines_hash(tagged(self.source@))
    }

    /// The width that the rows were wrapped at.
    pub closed spec fn width_of(self) -> usize {
        self.width
    }

    /// The hash of the lines that were wrapped.
    pub closed spec fn hash_of(self) -> u64 {
        self.source_hash
    }

    /// The lines that were wrapped.
    pub closed spec fn lines(self) -> Seq<(Seq<char>, LineKind)> {
        tagged(self.source@)
    }

    /// The wrapped rows.
    pub closed spec fn rows(self) -> Seq<(Seq<char>, LineKind)> {
        tagged(self.wrapped@)
    }

    /// An empty cache.
    pub fn new() -> (r: HistoryWrapCache)
        ensures
            r.width_of() == 0,
            r.hash_of() == 0,
            r.lines().len() == 0,
            r.rows().len() == 0,
    {
        let source: Vec<(String, LineKind)> = Vec::new();
        let rows: Vec<(String, LineKind)> = Vec::new();
        assert(tagged(rows@) =~= wrapped(tagged(source@), 0, 0));
        HistoryWrapCache { width: 0, source_hash: 0, source, wrapped: rows }
    }

    /// The width that the rows were wrapped at.
    pub fn width(&self) -> (r: usize)
        ensures
            r == self.width_of(),
    {
        self.width
    }

    /// The hash of the lines that were wrapped.
    pub fn source_hash(&self) -> (r: u64)
        ensures
            r == self.hash_of(),
    {
        self.source_hash
    }

    /// The wrapped rows.
    pub fn wrapped(&self) -> (r: &Vec<(String, LineKind)>)
        ensures
            tagged(r@) == self.rows(),
    {
        &self.wrapped
    }

    /// Whether the cached rows are those of the lines at a width: the width and the hash agree, and
    /// so do the lines themselves, which rules a collision of hashes out.
    pub fn is_fresh(&self, lines: &Vec<(String, LineKind)>, hash: u64, width: usize) -> (r: bool)
        ensures
            r == (self.width_of() == width && self.hash_of() == hash && self.lines() == tagged(
                lines@,
            )),
            r ==> self.rows() == wrapped(tagged(lines@), width as int, lines@.len() as int),
    {
        proof {
            use_type_invariant(self);
        }
        assert(tagged(self.source@).len() == self.source@.len());
        assert(tagged(lines@).len() == lines@.len());
        self.width == width && self.source_hash == hash && same_lines(&self.source, lines)
    }

    /// Wraps the lines again, only where the lines or the width have changed.
    pub fn refresh(&mut self, lines: Vec<(String, LineKind)>, width: usize)
        ensures
            final(self).width_of() == width,
            final(self).hash_of() == lines_hash(tagged(lines@)),
            final(self).lines() == tagged(lines@),
            final(self).rows() == wrapped(tagged(lines@), width as int, lines@.len() as int),
    {
        let hash: u64 = hash_lines(&lines);
        if !self.is_fresh(&lines, hash, width) {
            let rows: Vec<(String, LineKind)> = wrap_lines_tagged(&lines, width);
            assert(tagged(lines@).len() == lines@.len());
            *self = HistoryWrapCache { width, source_hash: hash, source: lines, wrapped: rows };
        }
    }
}

// ---------------------------------------------------------------------------------------------
// What is visible
// ---------------------------------------------------------------------------------------------

/// The slice `[start, end)` of rows that is visible at a scroll offset from the bottom: as many
/// rows as fit, and no further up than the first row.
pub open spec fn window(total: int, visible_rows: int, scroll: int) -> (int, int) {
    let rows = if visible_rows < 1 {
        1
    } else {
        visible_rows
    };
    let most = if total > rows {
        total - rows
    } else {
        0
    };
    let end = total - (if scroll < most {
        scroll
    } else {
        most
    });
    (
        if end > rows {
            end - rows
        } else {
            0
        },
        end,
    )
}

/// Computes the slice of wrapped rows that is visible, given the scroll offset from the bottom.
pub fn compute_visible_window(total: usize, visible_rows: usize, scroll: usize) -> (r: (
    usize,
    usize,
))
    ensures
        r.0 == window(total as int, visible_rows as int, scroll as int).0,
        r.1 == window(total as int, visible_rows as int, scroll as int).1,
        r.0 <= r.1 <= total,
{
    let rows: usize = if visible_rows < 1 {
        1
    } else {
        visible_rows
    };
    let most: usize = total.saturating_sub(rows);
    let up: usize = if scroll < most {
        scroll
    } else {
        most
    };
    let end: usize = total.saturating_sub(up);
    (end.saturating_sub(rows), end)
}

/// The visible slice fills the viewport or holds every row, and it ends at the newest row unless
/// the transcript is scrolled.
pub proof fn law_window_fills_the_viewport(total: int, visible_rows: int, scroll: int)
    requires
        0 <= total,
        1 <= visible_rows,
        0 <= scroll,
    ensures
        ({
            let (start, end) = window(total, visible_rows, scroll);
            &&& 0 <= start <= end <= total
            &&& end - start == (if total < visible_rows {
                total
            } else {
                visible_rows
            })
            &&& scroll == 0 ==> end == total
        }),
{
}

/// Rows of suggestions shown under the composer.
pub const MAX_VISIBLE_SUGGESTIONS: usize = 6;

/// Determines which suggestions are visible for a selection, so that the composer's height stays
/// bounded however many commands match: first, end, and whether some are left out. Where some are,
/// one row is kept for saying how many.
pub fn visible_suggestion_window(count: usize, selected: usize) -> (r: (usize, usize, bool))
    ensures
        r.2 == (count > MAX_VISIBLE_SUGGESTIONS),
        !r.2 ==> r.0 == 0 && r.1 == count,
        r.2 ==> r.1 == r.0 + (MAX_VISIBLE_SUGGESTIONS - 1) && r.0 == (if selected
            < MAX_VISIBLE_SUGGESTIONS - 2 {
            0
        } else if selected - (MAX_VISIBLE_SUGGESTIONS - 2) < count - (MAX_VISIBLE_SUGGESTIONS
            - 1) {
            selected - (MAX_VISIBLE_SUGGESTIONS - 2)
        } else {
            count - (MAX_VISIBLE_SUGGESTIONS - 1)
        }),
        r.0 <= r.1 <= count,
        selected < count ==> r.0 <= selected < r.1,
{
    if count <= MAX_VISIBLE_SUGGESTIONS {
        return (0, count, false);
    }
    let rows: usize = MAX_VISIBLE_SUGGESTIONS - 1;
    let wanted: usize = selected.saturating_sub(rows - 1);
    let first: usize = if wanted < count - rows {
        wanted
    } else {
        count - rows
    };
    (first, first + rows, true)
}

// ---------------------------------------------------------------------------------------------
// Selections
// ---------------------------------------------------------------------------------------------

impl SelectionPoint {
    /// Whether this point stands at or before another in the document.
    pub open spec fn before(self, other: SelectionPoint) -> bool {
        self.line < other.line || (self.line == other.line && self.col <= other.col)
    }
}

impl Selection {
    /// The two endpoints in document order.
    pub open spec fn ordered(self) -> (SelectionPoint, SelectionPoint) {
        if self.anchor.before(self.cursor) {
            (self.anchor, self.cursor)
        } else {
            (self.cursor, self.anchor)
        }
    }

    /// Returns the two endpoints in document order, regardless of drag direction.
    pub fn normalized(self) -> (r: (SelectionPoint, SelectionPoint))
        ensures
            r == self.ordered(),
            r.0.before(r.1),
    {
        if self.anchor.line < self.cursor.line || (self.anchor.line == self.cursor.line
            && self.anchor.col <= self.cursor.col) {
            (self.anchor, self.cursor)
        } else {
            (self.cursor, self.anchor)
        }
    }
}

/// The characters of a row that a selection covers, if any: the full row strictly between the two
/// endpoints, and a part of it on the rows of the endpoints themselves.
pub open spec fn covered(selection: Selection, row: int, len: int) -> Option<(int, int)> {
    let (start, end) = selection.ordered();
    let from = if row == start.line {
        if start.col < len {
            start.col as int
        } else {
            len
        }
    } else {
        0
    };
    let to = if row == end.line && end.col < len {
        end.col as int
    } else {
        len
    };
    if start.line <= row <= end.line && from < to {
        Some((from, to))
    } else {
        None
    }
}

/// The character range selected on one wrapped row, if any.
pub fn selected_char_range(selection: &Selection, line_index: usize, line_len: usize) -> (r: Option<
    (usize, usize),
>)
    ensures
        match r {
            Some((from, to)) => covered(*selection, line_index as int, line_len as int) == Some(
                (from as int, to as int),
            ) && from < to <= line_len,
            None => covered(*selection, line_index as int, line_len as int) is None,
        },
{
    let (start, end) = selection.normalized();
    if line_index < start.line || line_index > end.line {
        return None;
    }
    let from: usize = if line_index == start.line {
        if start.col < line_len {
            start.col
        } else {
            line_len
        }
    } else {
        0
    };
    let to: usize = if line_index == end.line && end.col < line_len {
        end.col
    } else {
        line_len
    };
    if from < to {
        Some((from, to))
    } else {
        None
    }
}

/// The selected pieces of the rows before `n`, in order.
pub open spec fn pieces(rows: Seq<(Seq<char>, LineKind)>, selection: Selection, n: int) -> Seq<
    Seq<char>,
>
    decreases n,
{
    if n <= 0 {
        Seq::empty()
    } else {
        let before = pieces(rows, selection, n - 1);
        match covered(selection, n - 1, rows[n - 1].0.len() as int) {
            Some((from, to)) => before.push(rows[n - 1].0.subrange(from, to)),
            None => before,
        }
    }
}

/// The selected text of the rows, its pieces joined by line breaks; nothing where it is empty.
pub open spec fn picked(rows: Seq<(Seq<char>, LineKind)>, selection: Selection) -> Option<
    Seq<char>,
> {
    let t = text::joined(pieces(rows, selection, rows.len() as int), "\n"@);
    if t.len() > 0 {
        Some(t)
    } else {
        None
    }
}

/// Extracts the selected text of wrapped rows.
pub fn pick_text(rows: &Vec<(String, LineKind)>, selection: &Selection) -> (r: Option<String>)
    ensures
        text::opt_text(r) == picked(tagged(rows@), *selection),
{
    let ghost all = tagged(rows@);
    let mut collected: Vec<String> = Vec::new();
    let mut i: usize = 0;
    assert(text::texts(collected@) =~= pieces(all, *selection, 0));
    while i < rows.len()
        invariant
            i <= rows@.len(),
            all == tagged(rows@),
            text::texts(collected@) == pieces(all, *selection, i as int),
        decreases rows@.len() - i,
    {
        let chars: Vec<char> = chars_of(rows[i].0.as_str());
        assert(chars@ == all[i as int].0);
        match selected_char_range(selection, i, chars.len()) {
            Some((from, to)) => {
                let ghost before = text::texts(collected@);
                collected.push(text_of(&chars, from, to));
                assert(text::texts(collected@) =~= before.push(
                    chars@.subrange(from as int, to as int),
                ));
            },
            None => {},
        }
        i = i + 1;
    }
    let t: String = join(&collected, "\n");
    if t.as_str().is_empty() {
        None
    } else {
        Some(t)
    }
}

// ---------------------------------------------------------------------------------------------
// Laws of wrapping and selecting
// ---------------------------------------------------------------------------------------------

proof fn lemma_last_blank_is(s: Seq<char>, from: int, to: int, at: int)
    requires
        from - 1 <= at < to || (at == from - 1 && to <= from),
        0 <= from,
        to <= s.len(),
        at >= from ==> s[at] == ' ',
        forall|i: int| from <= i && at < i < to ==> s[i] != ' ',
    ensures
        last_blank(s, from, to) == at,
    decreases to - from,
{
    if to > from && at < to - 1 {
        lemma_last_blank_is(s, from, to - 1, at);
    }
}

proof fn lemma_last_blank_behind(a: Seq<char>, b: Seq<char>, from: int, to: int)
    requires
        0 <= from,
        to <= b.len(),
    ensures
        last_blank(a + b, a.len() + from, a.len() + to) == a.len() + last_blank(b, from, to),
    decreases to - from,
{
    if from < to {
        assert((a + b)[a.len() + to - 1] == b[to - 1]);
        lemma_last_blank_behind(a, b, from, to - 1);
    }
}

proof fn lemma_rows_behind(a: Seq<char>, b: Seq<char>, start: int, width: int)
    requires
        0 <= start <= b.len(),
        width >= 1,
    ensures
        rows_from(a + b, a.len() + start, width) == rows_from(b, start, width),
    decreases b.len() - start,
{
    let s = a + b;
    let n = a.len() as int;
    if start < b.len() {
        let limit = if start + width < b.len() {
            start + width
        } else {
            b.len() as int
        };
        lemma_last_blank_behind(a, b, start, limit);
        let end = row_end(b, start, width);
        let next = next_row(b, start, width);
        lemma_row_end(b, start, width);
        assert(row_end(s, n + start, width) == n + end);
        assert(end < b.len() ==> s[n + end] == b[end]);
        assert(next_row(s, n + start, width) == n + next);
        assert(s.subrange(n + start, n + end) =~= b.subrange(start, end));
        lemma_rows_behind(a, b, next, width);
    }
}

/// A line that fits is one row. One that does not is broken behind the last word that fits, and goes
/// on with the next word; a word that is wider than the row is broken where the row ends.
pub proof fn law_a_line_is_broken_between_words(
    head: Seq<char>,
    word: Seq<char>,
    more: Seq<char>,
    width: int,
)
    requires
        width >= 1,
        head.len() > 0,
        head.last() != ' ',
        word.len() > 0,
        text_laws::lacks(word, ' '),
    ensures
        head.len() <= width ==> wrapped_line(head, width) == seq![head],
        head.len() + 1 + word.len() > width && (head.len() < width || (head.len() == width
            && text_laws::lacks(head, ' '))) ==> wrapped_line(
            head + seq![' '] + word + more,
            width,
        ) == seq![head] + wrapped_line(word + more, width),
        word.len() > width ==> wrapped_line(word + more, width) == seq![word.take(width)]
            + wrapped_line(word.skip(width) + more, width),
{
    if head.len() <= width {
        lemma_last_blank(head, 0, head.len() as int);
        assert(row_end(head, 0, width) == head.len());
        assert(head.subrange(0, head.len() as int) =~= head);
        assert(rows_from(head, head.len() as int, width) =~= Seq::empty());
        assert(wrapped_line(head, width) =~= seq![head]);
    }
    let n = head.len() as int;
    if n + 1 + word.len() > width && (n < width || (n == width && text_laws::lacks(head, ' '))) {
        let rest = word + more;
        let begun = head + seq![' '];
        let s = begun + rest;
        assert(s =~= head + seq![' '] + word + more);
        assert(s[n] == ' ');
        assert(rest[0] == word[0] && word[0] != ' ');
        if n < width {
            assert forall|i: int| n < i < width implies s[i] != ' ' by {
                assert(s[i] == word[i - n - 1]);
            }
            lemma_last_blank_is(s, 0, width, n);
            assert(row_end(s, 0, width) == n + 1);
            assert(s[n + 1] == rest[0]);
            assert(s.subrange(0, n + 1) =~= begun);
            assert(begun.drop_last() =~= head);
            assert(text::trimmed_end_of(begun, ' ') == text::trimmed_end_of(head, ' '));
        } else {
            assert forall|i: int| 0 <= i < width implies s[i] != ' ' by {
                assert(s[i] == head[i]);
            }
            lemma_last_blank_is(s, 0, width, -1);
            assert(row_end(s, 0, width) == width);
            assert(s.subrange(0, width) =~= head);
        }
        assert(next_row(s, 0, width) == n + 1);
        lemma_rows_behind(begun, rest, 0, width);
    }
    if word.len() > width {
        let s = word + more;
        let rest = word.skip(width) + more;
        assert forall|i: int| 0 <= i <= width implies s[i] != ' ' by {
            assert(s[i] == word[i]);
        }
        lemma_last_blank_is(s, 0, width, -1);
        assert(row_end(s, 0, width) == width);
        assert(next_row(s, 0, width) == width);
        assert(s.subrange(0, width) =~= word.take(width));
        assert(word.take(width).last() == word[width - 1]);
        assert(word.take(width) + rest =~= s);
        lemma_rows_behind(word.take(width), rest, 0, width);
    }
}

/// Scrolling shows the rows that end as many rows above the newest one, and stops where the first
/// row is shown.
pub proof fn law_scrolling_moves_the_rows_up(total: int, visible_rows: int, scroll: int)
    requires
        0 <= total,
        1 <= visible_rows,
        0 <= scroll,
    ensures
        scroll + visible_rows <= total ==> window(total, visible_rows, scroll) == (
            total - scroll - visible_rows,
            total - scroll,
        ),
        scroll + visible_rows > total && visible_rows <= total ==> window(
            total,
            visible_rows,
            scroll,
        ) == (0int, visible_rows),
        visible_rows > total ==> window(total, visible_rows, scroll) == (0int, total),
{
}

/// A character is selected where it stands at or behind the one end of the selection and before the
/// other.
pub proof fn law_what_is_selected_stands_between_the_ends(
    from: SelectionPoint,
    to: SelectionPoint,
    at: SelectionPoint,
    len: int,
)
    requires
        from.before(to),
        at.col < len,
    ensures
        ({
            let there = from.before(at) && !to.before(at);
            let a = covered((Selection { anchor: from, cursor: to }), at.line as int, len);
            let b = covered((Selection { anchor: to, cursor: from }), at.line as int, len);
            &&& a == b
            &&& a matches Some((x, y)) ==> 0 <= x < y <= len
            &&& there <==> (a matches Some((x, y)) && x <= at.col < y)
        }),
{
}

proof fn lemma_nothing_picked(
    rows: Seq<(Seq<char>, LineKind)>,
    selection: Selection,
    from: int,
    n: int,
)
    requires
        0 <= from <= n <= rows.len(),
        n <= selection.ordered().0.line || from > selection.ordered().1.line,
    ensures
        pieces(rows, selection, n) == pieces(rows, selection, from),
    decreases n - from,
{
    if from < n {
        lemma_nothing_picked(rows, selection, from, n - 1);
    }
}

/// The text selected on one row is what stands between the ends. Where the ends are on two rows, it
/// is the rest of the first, a line break, and the beginning of the second.
pub proof fn law_the_selected_text_is_what_stands_between_the_ends(
    rows: Seq<(Seq<char>, LineKind)>,
    row: usize,
    a: usize,
    b: usize,
)
    requires
        row < rows.len(),
        a < rows[row as int].0.len(),
    ensures
        a < b <= rows[row as int].0.len() ==> picked(
            rows,
            (Selection {
                anchor: SelectionPoint { line: row, col: a },
                cursor: SelectionPoint { line: row, col: b },
            }),
        ) == Some(rows[row as int].0.subrange(a as int, b as int)),
        row + 1 < rows.len() && row + 1 <= usize::MAX && 0 < b <= rows[row + 1].0.len() ==> picked(
            rows,
            (Selection {
                anchor: SelectionPoint { line: row, col: a },
                cursor: SelectionPoint { line: (row + 1) as usize, col: b },
            }),
        ) == Some(rows[row as int].0.skip(a as int) + seq!['\n'] + rows[row + 1].0.take(b as int)),
{
    reveal_strlit("\n");
    assert("\n"@ =~= seq!['\n']);
    let i = row as int;
    let own = rows[i].0;
    let total = rows.len() as int;
    let none = Seq::<Seq<char>>::empty();
    if a < b <= own.len() {
        let one = Selection {
            anchor: SelectionPoint { line: row, col: a },
            cursor: SelectionPoint { line: row, col: b },
        };
        lemma_nothing_picked(rows, one, 0, i);
        lemma_nothing_picked(rows, one, i + 1, total);
        let part = own.subrange(a as int, b as int);
        assert(covered(one, i, own.len() as int) == Some((a as int, b as int)));
        assert(pieces(rows, one, i) =~= none);
        assert(pieces(rows, one, i + 1) =~= seq![part]);
        text_laws::law_joining_puts_the_separator_between(none, none, part, "\n"@);
    }
    if i + 1 < total && i + 1 <= usize::MAX && 0 < b <= rows[i + 1].0.len() {
        let two = Selection {
            anchor: SelectionPoint { line: row, col: a },
            cursor: SelectionPoint { line: (row + 1) as usize, col: b },
        };
        let next = rows[i + 1].0;
        lemma_nothing_picked(rows, two, 0, i);
        lemma_nothing_picked(rows, two, i + 2, total);
        let first = own.skip(a as int);
        let second = next.take(b as int);
        assert(covered(two, i, own.len() as int) == Some((a as int, own.len() as int)));
        assert(covered(two, i + 1, next.len() as int) == Some((0int, b as int)));
        assert(own.subrange(a as int, own.len() as int) =~= first);
        assert(next.subrange(0, b as int) =~= second);
        assert(pieces(rows, two, i) =~= none);
        assert(pieces(rows, two, i + 1) =~= seq![first]);
        assert(pieces(rows, two, i + 2) =~= seq![first, second]);
        assert(seq![first] + seq![second] =~= seq![first, second]);
        text_laws::law_joining_puts_the_separator_between(seq![first], seq![second], first, "\n"@);
        text_laws::law_joining_puts_the_separator_between(none, none, second, "\n"@);
    }
}

} // verus!
