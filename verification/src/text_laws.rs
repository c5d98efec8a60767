//! What the operations on texts come to, said by the texts that they take apart and put together.

use vstd::prelude::*;

use crate::text;

verus! {

// ---------------------------------------------------------------------------------------------
// White space
// ---------------------------------------------------------------------------------------------

/// Whether every character of a text is white space.
pub open spec fn all_white(s: Seq<char>) -> bool {
    forall|i: int| 0 <= i < s.len() ==> text::is_white_space(#[trigger] s[i])
}

/// Whether no character of a text is white space.
pub open spec fn no_white(s: Seq<char>) -> bool {
    forall|i: int| 0 <= i < s.len() ==> !text::is_white_space(#[trigger] s[i])
}

/// Whether a text neither begins nor ends with white space.
pub open spec fn is_tight(s: Seq<char>) -> bool {
    s.len() > 0 ==> !text::is_white_space(s[0]) && !text::is_white_space(s.last())
}

/// Of the ASCII characters white space is the blank and those from tab to carriage return; letters,
/// digits and punctuation are none.
pub proof fn law_white_space_of_ascii(c: char)
    requires
        (c as u32) < 128,
    ensures
        text::is_white_space(c) <==> c == ' ' || 9 <= c as u32 <= 13,
        text::is_white_space('\n') && text::is_white_space('\t') && text::is_white_space('\r'),
{
}

proof fn lemma_trimmed_start(pre: Seq<char>, s: Seq<char>)
    requires
        all_white(pre),
        s.len() > 0 ==> !text::is_white_space(s[0]),
    ensures
        text::trimmed_start(pre + s) == s,
    decreases pre.len(),
{
    if pre.len() == 0 {
        assert(pre + s =~= s);
    } else {
        assert((pre + s).skip(1) =~= pre.skip(1) + s);
        assert((pre + s)[0] == pre[0]);
        assert(all_white(pre.skip(1)));
        lemma_trimmed_start(pre.skip(1), s);
    }
}

proof fn lemma_trimmed_end(s: Seq<char>, post: Seq<char>)
    requires
        all_white(post),
        s.len() > 0 ==> !text::is_white_space(s.last()),
    ensures
        text::trimmed_end(s + post) == s,
    decreases post.len(),
{
    if post.len() == 0 {
        assert(s + post =~= s);
    } else {
        assert((s + post).drop_last() =~= s + post.drop_last());
        assert((s + post).last() == post.last());
        assert(all_white(post.drop_last()));
        lemma_trimmed_end(s, post.drop_last());
    }
}

/// Trimming takes away the white space around a text, all of it, and nothing inside.
pub proof fn law_trimming_takes_the_white_space_around(
    pre: Seq<char>,
    s: Seq<char>,
    post: Seq<char>,
)
    requires
        all_white(pre),
        all_white(post),
        is_tight(s),
    ensures
        text::trimmed(pre + s + post) == s,
        text::trimmed_end(s + post) == s,
        text::is_blank(pre + post),
        text::is_blank(pre + s + post) <==> s.len() == 0,
{
    lemma_trimmed_end(s, post);
    if s.len() == 0 {
        assert(pre + s + post =~= (pre + post) + s);
        assert(all_white(pre + post));
        lemma_trimmed_start(pre + post, s);
        assert(text::trimmed_end(s) =~= s);
    } else {
        assert(pre + s + post =~= pre + (s + post));
        lemma_trimmed_start(pre, s + post);
    }
    let e = Seq::<char>::empty();
    assert(all_white(pre + post));
    lemma_trimmed_start(pre + post, e);
    assert((pre + post) + e =~= pre + post);
}

/// The first white space of a text is where its first word ends.
pub proof fn law_the_first_white_space_ends_the_first_word(
    word: Seq<char>,
    c: char,
    rest: Seq<char>,
)
    requires
        no_white(word),
        text::is_white_space(c),
    ensures
        text::first_white(word + seq![c] + rest, 0) == word.len(),
        text::first_white(word, 0) == word.len(),
{
    lemma_first_white(word + seq![c] + rest, 0, word.len() as int);
    lemma_first_white(word, 0, word.len() as int);
}

proof fn lemma_first_white(s: Seq<char>, from: int, n: int)
    requires
        0 <= from <= n <= s.len(),
        forall|i: int| from <= i < n ==> !text::is_white_space(#[trigger] s[i]),
        n == s.len() || text::is_white_space(s[n]),
    ensures
        text::first_white(s, from) == n,
    decreases n - from,
{
    if from < n {
        lemma_first_white(s, from + 1, n);
    }
}

// ---------------------------------------------------------------------------------------------
// Words
// ---------------------------------------------------------------------------------------------

/// White space holds no word; and where a word stands between white space, it is one of the words,
/// after those before it and before those behind it.
pub proof fn law_words_stand_between_white_space(a: Seq<char>, word: Seq<char>, b: Seq<char>)
    requires
        word.len() > 0,
        no_white(word),
        a.len() > 0 ==> text::is_white_space(a.last()),
        b.len() > 0 ==> text::is_white_space(b[0]),
    ensures
        text::words_of(a + word + b) == text::words_of(a).push(word) + text::words_of(b),
        all_white(b) ==> text::words_of(b).len() == 0,
{
    lemma_words_grow(a, word);
    lemma_words_behind(a + word, b);
    if all_white(b) {
        lemma_no_words(b);
    }
}

pub proof fn lemma_no_words(s: Seq<char>)
    requires
        all_white(s),
    ensures
        text::words_of(s).len() == 0,
    decreases s.len(),
{
    if s.len() > 0 {
        assert(all_white(s.drop_last()));
        lemma_no_words(s.drop_last());
    }
}

proof fn lemma_words_grow(a: Seq<char>, word: Seq<char>)
    requires
        word.len() > 0,
        no_white(word),
        a.len() > 0 ==> text::is_white_space(a.last()),
    ensures
        text::words_of(a + word) == text::words_of(a).push(word),
    decreases word.len(),
{
    let s = a + word;
    let short = word.drop_last();
    assert(s.drop_last() =~= a + short);
    assert(s.last() == word.last());
    if short.len() == 0 {
        assert(a + short =~= a);
        assert(word =~= seq![word.last()]);
        if s.len() > 1 {
            assert(s[s.len() - 2] == a.last());
        }
    } else {
        assert(no_white(short));
        lemma_words_grow(a, short);
        assert(s[s.len() - 2] == short.last());
        assert(text::words_of(a).push(short).drop_last() =~= text::words_of(a));
        assert(short.push(word.last()) =~= word);
    }
}

proof fn lemma_words_behind(a: Seq<char>, b: Seq<char>)
    requires
        b.len() > 0 ==> text::is_white_space(b[0]),
    ensures
        text::words_of(a + b) == text::words_of(a) + text::words_of(b),
    decreases b.len(),
{
    let s = a + b;
    if b.len() == 0 {
        assert(s =~= a);
        assert(text::words_of(a) + text::words_of(b) =~= text::words_of(a));
    } else {
        let short = b.drop_last();
        assert(s.drop_last() =~= a + short);
        lemma_words_behind(a, short);
        let before = text::words_of(short);
        if text::is_white_space(b.last()) {
        } else {
            assert(b.len() > 1);
            assert(s[s.len() - 2] == b[b.len() - 2]);
            if !text::is_white_space(b[b.len() - 2]) {
                lemma_words_nonempty(short);
                let both = text::words_of(a) + before;
                assert(both.last() == before.last());
                assert(both.drop_last() =~= text::words_of(a) + before.drop_last());
                assert(text::words_of(s) =~= text::words_of(a) + text::words_of(b));
            } else {
                assert(text::words_of(s) =~= text::words_of(a) + text::words_of(b));
            }
        }
    }
}

proof fn lemma_words_nonempty(s: Seq<char>)
    requires
        s.len() > 0,
        !text::is_white_space(s.last()),
    ensures
        text::words_of(s).len() > 0,
{
}

// ---------------------------------------------------------------------------------------------
// Pieces and lines
// ---------------------------------------------------------------------------------------------

/// Joining puts the separator between each two parts: of two lists of parts, the whole of the first,
/// the separator, and the whole of the second.
pub proof fn law_joining_puts_the_separator_between(
    a: Seq<Seq<char>>,
    b: Seq<Seq<char>>,
    part: Seq<char>,
    sep: Seq<char>,
)
    ensures
        text::joined(seq![part], sep) == part,
        text::joined(Seq::empty(), sep).len() == 0,
        a.len() > 0 && b.len() > 0 ==> text::joined(a + b, sep) == text::joined(a, sep) + sep
            + text::joined(b, sep),
    decreases b.len(),
{
    if a.len() > 0 && b.len() > 0 {
        let s = a + b;
        assert(s.drop_last() =~= a + b.drop_last());
        assert(s.last() == b.last());
        if b.len() == 1 {
            assert(a + b.drop_last() =~= a);
        } else {
            law_joining_puts_the_separator_between(a, b.drop_last(), part, sep);
            assert(text::joined(s, sep) =~= text::joined(a, sep) + sep + text::joined(b, sep));
        }
    }
}

/// Whether a character stands nowhere in a text.
pub open spec fn lacks(s: Seq<char>, c: char) -> bool {
    forall|i: int| 0 <= i < s.len() ==> #[trigger] s[i] != c
}

/// Whether a character stands in none of the parts.
pub open spec fn all_lack(parts: Seq<Seq<char>>, c: char) -> bool {
    forall|i: int| 0 <= i < parts.len() ==> lacks(#[trigger] parts[i], c)
}

pub proof fn lemma_split_lacking(s: Seq<char>, sep: char)
    requires
        lacks(s, sep),
    ensures
        text::split_on(s, sep) == seq![s],
    decreases s.len(),
{
    if s.len() == 0 {
        assert(s =~= Seq::empty());
    } else {
        assert(lacks(s.drop_last(), sep));
        lemma_split_lacking(s.drop_last(), sep);
        assert(s.drop_last().push(s.last()) =~= s);
        assert(text::split_on(s, sep) =~= seq![s]);
    }
}

/// Splitting at a separator that is put behind a text begins a new piece there.
pub proof fn lemma_split_at(a: Seq<char>, sep: char, b: Seq<char>)
    ensures
        text::split_on(a + seq![sep] + b, sep) == text::split_on(a, sep) + text::split_on(b, sep),
    decreases b.len(),
{
    let s = a + seq![sep] + b;
    text::lemma_split_nonempty(a, sep);
    text::lemma_split_nonempty(b, sep);
    if b.len() == 0 {
        assert(s.drop_last() =~= a);
        assert(s.last() == sep);
        assert(text::split_on(s, sep) =~= text::split_on(a, sep) + text::split_on(b, sep));
    } else {
        lemma_split_at(a, sep, b.drop_last());
        text::lemma_split_nonempty(b.drop_last(), sep);
        assert(s.drop_last() =~= a + seq![sep] + b.drop_last());
        assert(s.last() == b.last());
        let x = text::split_on(a, sep);
        let y = text::split_on(b.drop_last(), sep);
        assert((x + y).last() == y.last());
        assert((x + y).drop_last() =~= x + y.drop_last());
        assert(text::split_on(s, sep) =~= x + text::split_on(b, sep));
    }
}

/// Splitting and joining undo each other: the pieces of a text hold no separator and give the text
/// when they are joined, and parts without a separator are the pieces of the text they make.
pub proof fn law_pieces_make_the_text(s: Seq<char>, parts: Seq<Seq<char>>, sep: char)
    requires
        parts.len() > 0,
        all_lack(parts, sep),
    ensures
        text::joined(text::split_on(s, sep), seq![sep]) == s,
        all_lack(text::split_on(s, sep), sep),
        text::split_on(s, sep).len() > 0,
        text::split_on(text::joined(parts, seq![sep]), sep) == parts,
{
    lemma_pieces(s, sep);
    lemma_parts(parts, sep);
}

proof fn lemma_pieces(s: Seq<char>, sep: char)
    ensures
        text::joined(text::split_on(s, sep), seq![sep]) == s,
        all_lack(text::split_on(s, sep), sep),
        text::split_on(s, sep).len() > 0,
    decreases s.len(),
{
    let parts = text::split_on(s, sep);
    if s.len() == 0 {
        assert(s =~= Seq::empty());
        assert(parts[0].len() == 0);
    } else {
        let before = text::split_on(s.drop_last(), sep);
        lemma_pieces(s.drop_last(), sep);
        assert(s.drop_last().push(s.last()) =~= s);
        if s.last() == sep {
            assert(parts.drop_last() =~= before);
            assert(text::joined(parts, seq![sep]) =~= s);
            assert(lacks(parts.last(), sep));
        } else {
            assert(parts.drop_last() =~= before.drop_last());
            assert(text::joined(parts, seq![sep]) =~= text::joined(before, seq![sep]).push(s.last()));
            assert forall|i: int| 0 <= i < parts.len() implies lacks(#[trigger] parts[i], sep) by {
                if i < parts.len() - 1 {
                    assert(parts[i] == before[i]);
                } else {
                    assert(lacks(before.last(), sep));
                }
            }
        }
    }
}

proof fn lemma_parts(parts: Seq<Seq<char>>, sep: char)
    requires
        parts.len() > 0,
        all_lack(parts, sep),
    ensures
        text::split_on(text::joined(parts, seq![sep]), sep) == parts,
    decreases parts.len(),
{
    lemma_split_lacking(parts.last(), sep);
    if parts.len() == 1 {
        assert(parts =~= seq![parts[0]]);
    } else {
        let before = parts.drop_last();
        assert(all_lack(before, sep)) by {
            assert forall|i: int| 0 <= i < before.len() implies lacks(#[trigger] before[i], sep) by {
                assert(before[i] == parts[i]);
            }
        }
        lemma_parts(before, sep);
        lemma_split_at(text::joined(before, seq![sep]), sep, parts.last());
        assert(before + seq![parts.last()] =~= parts);
    }
}

/// Lines, each followed by an ending.
pub open spec fn ended(lines: Seq<Seq<char>>, end: Seq<char>) -> Seq<char>
    decreases lines.len(),
{
    if lines.len() == 0 {
        Seq::empty()
    } else {
        ended(lines.drop_last(), end) + lines.last() + end
    }
}

/// Whether a text can be a line: no line feed in it, and no carriage return at its end.
pub open spec fn is_line(s: Seq<char>) -> bool {
    lacks(s, '\n') && (s.len() > 0 ==> s.last() != '\r')
}

/// Whether every text can be a line.
pub open spec fn are_lines(lines: Seq<Seq<char>>) -> bool {
    forall|i: int| 0 <= i < lines.len() ==> is_line(#[trigger] lines[i])
}

proof fn lemma_lines_behind(a: Seq<char>, line: Seq<char>, b: Seq<char>)
    requires
        a.len() > 0 ==> a.last() == '\n',
        lacks(line, '\n'),
    ensures
        text::lines_of(a + line + seq!['\n'] + b) == text::lines_of(a).push(text::without_cr(line))
            + text::lines_of(b),
{
    let s = a + line + seq!['\n'] + b;
    let pb = text::split_on(b, '\n');
    lemma_split_at(a + line, '\n', b);
    text::lemma_split_nonempty(b, '\n');
    lemma_split_lacking(line, '\n');
    if a.len() == 0 {
        assert(a + line =~= line);
        assert(a =~= Seq::empty());
        assert(text::lines_of(a) =~= Seq::empty());
        assert(text::lines_of(s) =~= seq![text::without_cr(line)] + text::lines_of(b));
        assert(Seq::<Seq<char>>::empty().push(text::without_cr(line)) =~= seq![
            text::without_cr(line),
        ]);
    } else {
        let init = a.drop_last();
        let pi = text::split_on(init, '\n');
        text::lemma_split_nonempty(init, '\n');
        assert(a + line =~= init + seq!['\n'] + line);
        lemma_split_at(init, '\n', line);
        assert(text::split_on(a, '\n') == pi.push(Seq::empty()));
        assert(text::lines_of(a) =~= Seq::new(pi.len(), |i: int| text::without_cr(pi[i])));
        let ps = text::split_on(s, '\n');
        assert(ps == pi + seq![line] + pb);
        assert(ps.last() == pb.last());
        assert(text::lines_of(s) =~= text::lines_of(a).push(text::without_cr(line))
            + text::lines_of(b));
    }
}

/// Lines that are each followed by a line feed, or by a carriage return and a line feed, are the
/// lines of the text they make, with or without an ending behind the last one.
pub proof fn law_lines_are_what_stands_between_their_endings(
    lines: Seq<Seq<char>>,
    last: Seq<char>,
    end: Seq<char>,
)
    requires
        are_lines(lines),
        is_line(last),
        last.len() > 0,
        end == seq!['\n'] || end == seq!['\r', '\n'],
    ensures
        text::lines_of(ended(lines, end)) == lines,
        text::lines_of(ended(lines, end) + last) == lines.push(last),
    decreases lines.len(),
{
    let e = Seq::<char>::empty();
    if lines.len() == 0 {
        assert(lines =~= Seq::empty());
        assert(text::lines_of(e) =~= Seq::empty());
        lemma_split_lacking(last, '\n');
        assert(ended(lines, end) + last =~= last);
        assert(text::lines_of(last) =~= seq![last]);
        assert(lines.push(last) =~= seq![last]);
    } else {
        let before = lines.drop_last();
        assert(are_lines(before)) by {
            assert forall|i: int| 0 <= i < before.len() implies is_line(#[trigger] before[i]) by {
                assert(before[i] == lines[i]);
            }
        }
        law_lines_are_what_stands_between_their_endings(before, last, end);
        lemma_ended_ends(before, end);
        let a = ended(before, end);
        let line = lines.last();
        let raw = if end.len() == 1 {
            line
        } else {
            line.push('\r')
        };
        assert(is_line(line));
        assert(lacks(raw, '\n'));
        assert(text::without_cr(raw) =~= line);
        assert(a + line + end =~= a + raw + seq!['\n'] + e);
        assert(a + line + end + last =~= a + raw + seq!['\n'] + last);
        lemma_lines_behind(a, raw, e);
        lemma_lines_behind(a, raw, last);
        assert(text::lines_of(e) =~= Seq::empty());
        lemma_split_lacking(last, '\n');
        assert(text::lines_of(last) =~= seq![last]);
        assert(before.push(line) =~= lines);
        assert(lines + text::lines_of(e) =~= lines);
        assert(lines + seq![last] =~= lines.push(last));
    }
}

proof fn lemma_ended_ends(lines: Seq<Seq<char>>, end: Seq<char>)
    requires
        end == seq!['\n'] || end == seq!['\r', '\n'],
    ensures
        ended(lines, end).len() > 0 ==> ended(lines, end).last() == '\n',
{
}

// ---------------------------------------------------------------------------------------------
// Replacing, prefixes and case
// ---------------------------------------------------------------------------------------------

/// A text in which the sought one does not stand is left as it is. The first place where it stands
/// is replaced, what is before it stays, and what is behind it is treated in the same way.
pub proof fn law_replacing_puts_a_text_in_each_place(
    pre: Seq<char>,
    from: Seq<char>,
    post: Seq<char>,
    to: Seq<char>,
)
    requires
        from.len() > 0,
        forall|i: int| 0 <= i < pre.len() ==> !text::occurs_at(pre + from + post, from, i),
    ensures
        text::replaced(pre + from + post, from, to) == pre + to + text::replaced(post, from, to),
        !text::contains_text(post, from) ==> text::replaced(post, from, to) == post,
    decreases pre.len(),
{
    let s = pre + from + post;
    if !text::contains_text(post, from) {
        lemma_nothing_replaced(post, from, to);
    }
    if pre.len() == 0 {
        assert(s =~= from + post);
        assert(s.subrange(0, from.len() as int) =~= from);
        assert(s.skip(from.len() as int) =~= post);
        assert(pre + to =~= to);
    } else {
        let rest = pre.skip(1) + from + post;
        assert(s.skip(1) =~= rest);
        assert(!text::occurs_at(s, from, 0));
        assert(!from.is_prefix_of(s));
        assert forall|i: int| 0 <= i < pre.skip(1).len() implies !text::occurs_at(rest, from, i) by {
            if text::occurs_at(rest, from, i) {
                assert(s.subrange(i + 1, i + 1 + from.len()) =~= rest.subrange(i, i + from.len()));
                assert(text::occurs_at(s, from, i + 1));
            }
        }
        law_replacing_puts_a_text_in_each_place(pre.skip(1), from, post, to);
        assert(seq![s[0]] + (pre.skip(1) + to + text::replaced(post, from, to)) =~= pre + to
            + text::replaced(post, from, to));
    }
}

proof fn lemma_nothing_replaced(s: Seq<char>, from: Seq<char>, to: Seq<char>)
    requires
        from.len() > 0,
        !text::contains_text(s, from),
    ensures
        text::replaced(s, from, to) == s,
    decreases s.len(),
{
    if s.len() >= from.len() {
        assert(!text::occurs_at(s, from, 0));
        assert(!from.is_prefix_of(s));
        assert forall|i: int| !text::occurs_at(s.skip(1), from, i) by {
            if text::occurs_at(s.skip(1), from, i) {
                assert(s.subrange(i + 1, i + 1 + from.len()) =~= s.skip(1).subrange(
                    i,
                    i + from.len(),
                ));
                assert(text::occurs_at(s, from, i + 1));
            }
        }
        lemma_nothing_replaced(s.skip(1), from, to);
        assert(seq![s[0]] + s.skip(1) =~= s);
    }
}

/// A text stands in another exactly where that one is made of something, the text, and something.
pub proof fn law_a_contained_text_stands_between(
    a: Seq<char>,
    p: Seq<char>,
    b: Seq<char>,
    s: Seq<char>,
)
    ensures
        text::contains_text(a + p + b, p),
        text::contains_text(s, p) ==> exists|i: int|
            0 <= i <= s.len() - p.len() && s == #[trigger] s.take(i) + p + s.skip(i + p.len()),
{
    assert((a + p + b).subrange(a.len() as int, a.len() as int + p.len()) =~= p);
    assert(text::occurs_at(a + p + b, p, a.len() as int));
    if text::contains_text(s, p) {
        let i = choose|i: int| text::occurs_at(s, p, i);
        assert(s =~= s.take(i) + p + s.skip(i + p.len()));
    }
}

/// Taking a prefix off gives what was put behind it, and only a text that begins with the prefix has
/// one to take off.
pub proof fn law_a_prefix_comes_off(p: Seq<char>, s: Seq<char>)
    ensures
        text::after_prefix(p + s, p) == Some(s),
        text::after_prefix(s, p) matches Some(rest) ==> s == p + rest,
        text::after_prefix(s, p) is None ==> forall|rest: Seq<char>| s != #[trigger] (p + rest),
{
    assert((p + s).subrange(0, p.len() as int) =~= p);
    assert((p + s).skip(p.len() as int) =~= s);
    if p.is_prefix_of(s) {
        assert(s =~= p + s.skip(p.len() as int));
    }
    assert forall|rest: Seq<char>| s == #[trigger] (p + rest) implies p.is_prefix_of(s) by {
        assert(s.subrange(0, p.len() as int) =~= p);
    }
}

/// A prefix comes off the text that was put behind it.
pub proof fn lemma_prefix_off(p: Seq<char>, s: Seq<char>)
    ensures
        text::after_prefix(p + s, p) == Some(s),
{
    assert((p + s).subrange(0, p.len() as int) =~= p);
    assert((p + s).skip(p.len() as int) =~= s);
}

/// A text that begins otherwise, or with nothing, has not the prefix.
pub proof fn lemma_other_prefix(p: Seq<char>, s: Seq<char>)
    requires
        p.len() > 0,
        s.len() > 0 ==> s[0] != p[0],
    ensures
        text::after_prefix(s, p) is None,
        !p.is_prefix_of(s),
{
    if p.is_prefix_of(s) {
        assert(s.subrange(0, p.len() as int)[0] == p[0]);
    }
}

/// Lower case changes the letters from A to Z, each to its own small letter, and nothing else; so
/// it changes nothing a second time.
pub proof fn law_lower_case_changes_capital_letters(s: Seq<char>, i: int)
    requires
        0 <= i < s.len(),
    ensures
        text::lowered(s).len() == s.len(),
        65 <= s[i] as int <= 90 ==> text::lowered(s)[i] as int == s[i] as int + 32,
        !(65 <= s[i] as int <= 90) ==> text::lowered(s)[i] == s[i],
        text::lowered(text::lowered(s)) == text::lowered(s),
{
    assert(text::lowered(text::lowered(s)) =~= text::lowered(s));
}

// ---------------------------------------------------------------------------------------------
// Numbers
// ---------------------------------------------------------------------------------------------

/// Reading a written number gives the number, with a plus sign in front as well; a written number is
/// made of digits and has no needless zero in front.
pub proof fn law_a_written_number_is_read_back(n: nat)
    ensures
        text::number_of(text::decimal(n)) == Some(n),
        text::number_of("+"@ + text::decimal(n)) == Some(n),
        text::all_digits(text::decimal(n)),
        text::decimal(n).len() > 1 ==> text::decimal(n)[0] != '0',
        text::number_of(""@) is None,
{
    lemma_decimal(n);
    reveal_strlit("+");
    reveal_strlit("");
    let d = text::decimal(n);
    assert(text::is_digit(d[0]));
    assert(("+"@ + d)[0] == '+');
    assert(("+"@ + d).skip(1) =~= d);
}

proof fn lemma_decimal(n: nat)
    ensures
        text::all_digits(text::decimal(n)),
        text::decimal(n).len() > 0,
        text::digits_value(text::decimal(n)) == n,
        n > 0 ==> text::decimal(n)[0] != '0',
        text::decimal(n).len() > 1 ==> n > 0,
    decreases n,
{
    let d = text::decimal(n);
    if n < 10 {
        assert(d.drop_last() =~= Seq::empty());
        assert(text::digits_value(d.drop_last()) == 0);
        assert(d.last() as u32 == 48 + n);
    } else {
        lemma_decimal(n / 10);
        let before = text::decimal(n / 10);
        assert(d.drop_last() =~= before);
        assert(d.last() as u32 == 48 + n % 10);
        assert(d[0] == before[0]);
        assert(n == (n / 10) * 10 + n % 10);
        assert forall|i: int| 0 <= i < d.len() implies text::is_digit(#[trigger] d[i]) by {
            if i < before.len() {
                assert(d[i] == before[i]);
            }
        }
    }
}

/// What does not fit is cut at its end: what is left is a prefix that fits, and one character more
/// would not fit.
pub proof fn law_a_fitted_text_is_the_longest_that_fits(s: Seq<char>, n: nat)
    ensures
        text::byte_fit(s, n).is_prefix_of(s),
        text::byte_len(text::byte_fit(s, n)) <= n,
        text::byte_fit(s, n).len() < s.len() ==> text::byte_len(
            s.take(text::byte_fit(s, n).len() as int + 1),
        ) > n,
        text::byte_len(s) <= n ==> text::byte_fit(s, n) == s,
    decreases s.len(),
{
    text::lemma_byte_fit(s, n);
    let f = text::byte_fit(s, n);
    if s.len() == 0 {
    } else if text::width(s[0]) > n {
        assert(s.take(1).skip(1) =~= Seq::empty());
        assert(text::byte_len(s.take(1).skip(1)) == 0);
        assert(s.take(1)[0] == s[0]);
        assert(text::byte_len(s.take(1)) == text::width(s[0]));
    } else {
        let m = (n - text::width(s[0])) as nat;
        law_a_fitted_text_is_the_longest_that_fits(s.skip(1), m);
        let g = text::byte_fit(s.skip(1), m);
        if f.len() < s.len() {
            assert(s.take(f.len() as int + 1).skip(1) =~= s.skip(1).take(g.len() as int + 1));
            assert(s.take(f.len() as int + 1)[0] == s[0]);
        }
        if text::byte_len(s) <= n {
            assert(seq![s[0]] + s.skip(1) =~= s);
        }
    }
}

/// Of a text that does not fit, the end that is kept is a suffix that fits, and one character more would
/// not fit.
pub proof fn law_a_fitted_end_is_the_longest_that_fits(s: Seq<char>, n: nat)
    ensures
        text::byte_tail(s, n).is_suffix_of(s),
        text::byte_len(text::byte_tail(s, n)) <= n,
        text::byte_tail(s, n).len() < s.len() ==> text::byte_len(
            s.skip(s.len() - text::byte_tail(s, n).len() - 1),
        ) > n,
        text::byte_len(s) <= n ==> text::byte_tail(s, n) == s,
    decreases s.len(),
{
    text::lemma_byte_tail(s, n);
    if text::byte_len(s) > n {
        law_a_fitted_end_is_the_longest_that_fits(s.skip(1), n);
        let t = text::byte_tail(s.skip(1), n);
        if t.len() < s.skip(1).len() {
            assert(s.skip(1).skip(s.skip(1).len() - t.len() - 1) =~= s.skip(s.len() - t.len() - 1));
        } else {
            assert(s.skip(0) =~= s);
        }
    }
}

/// What fits of two texts is the first, where it fits, and what fits of the second in the rest.
pub proof fn lemma_fit_of_two(a: Seq<char>, b: Seq<char>, n: nat)
    ensures
        text::byte_len(a) <= n ==> text::byte_fit(a + b, n) == a + text::byte_fit(
            b,
            (n - text::byte_len(a)) as nat,
        ),
        text::byte_len(a) >= n ==> text::byte_fit(a + b, n) == text::byte_fit(a, n),
    decreases a.len(),
{
    let s = a + b;
    if a.len() == 0 {
        assert(s =~= b);
        assert(a + text::byte_fit(b, n) =~= text::byte_fit(b, n));
        if n == 0 {
            assert(b.len() > 0 ==> text::width(b[0]) > 0);
        }
    } else {
        assert(s[0] == a[0]);
        assert(s.skip(1) =~= a.skip(1) + b);
        if text::width(a[0]) <= n {
            let m = (n - text::width(a[0])) as nat;
            lemma_fit_of_two(a.skip(1), b, m);
            let f = text::byte_fit(b, (n - text::byte_len(a)) as nat);
            assert(seq![a[0]] + (a.skip(1) + f) =~= a + f);
        }
    }
}

/// The end of two texts is the end of the first one's end and the second.
pub proof fn lemma_tail_of_two(a: Seq<char>, b: Seq<char>, n: nat)
    ensures
        text::byte_tail(text::byte_tail(a, n) + b, n) == text::byte_tail(a + b, n),
    decreases a.len(),
{
    if text::byte_len(a) > n {
        text::lemma_byte_len_add(a, b);
        assert((a + b).skip(1) =~= a.skip(1) + b);
        assert((a + b).len() > 0);
        lemma_tail_of_two(a.skip(1), b, n);
    }
}

/// A text is blank exactly where all of it is white space.
pub proof fn lemma_blank(s: Seq<char>)
    ensures
        text::is_blank(s) <==> all_white(s),
    decreases s.len(),
{
    if s.len() > 0 {
        if text::is_white_space(s[0]) {
            lemma_blank(s.skip(1));
            assert forall|i: int| all_white(s.skip(1)) && 0 <= i < s.len() implies text::is_white_space(
                #[trigger] s[i],
            ) by {
                if i > 0 {
                    assert(s.skip(1)[i - 1] == s[i]);
                }
            }
            assert forall|i: int| all_white(s) && 0 <= i < s.len() - 1 implies text::is_white_space(
                #[trigger] s.skip(1)[i],
            ) by {
                assert(s.skip(1)[i] == s[i + 1]);
            }
        } else {
            lemma_end_keeps_first(s);
        }
    }
}

proof fn lemma_end_keeps_first(s: Seq<char>)
    requires
        s.len() > 0,
        !text::is_white_space(s[0]),
    ensures
        text::trimmed_end(s).len() > 0,
    decreases s.len(),
{
    if text::is_white_space(s.last()) {
        assert(s.drop_last()[0] == s[0]);
        lemma_end_keeps_first(s.drop_last());
    }
}

/// Whether every text of a list is a word: not empty and without white space.
pub open spec fn are_words(words: Seq<Seq<char>>) -> bool {
    forall|i: int| 0 <= i < words.len() ==> (#[trigger] words[i]).len() > 0 && no_white(words[i])
}

/// Words with a blank between each two, and any white space around them, are told apart as they are.
pub proof fn law_spaced_words_are_told_apart(
    pre: Seq<char>,
    words: Seq<Seq<char>>,
    post: Seq<char>,
)
    requires
        all_white(pre),
        all_white(post),
        are_words(words),
    ensures
        text::trimmed(pre + text::joined(words, " "@) + post) == text::joined(words, " "@),
        text::words_of(text::joined(words, " "@)) == words,
        text::joined(words, " "@).len() == 0 <==> words.len() == 0,
{
    lemma_spaced(words);
    law_trimming_takes_the_white_space_around(pre, text::joined(words, " "@), post);
}

proof fn lemma_spaced(words: Seq<Seq<char>>)
    requires
        are_words(words),
    ensures
        text::words_of(text::joined(words, " "@)) == words,
        is_tight(text::joined(words, " "@)),
        text::joined(words, " "@).len() == 0 <==> words.len() == 0,
    decreases words.len(),
{
    reveal_strlit(" ");
    let none = Seq::<char>::empty();
    let line = text::joined(words, " "@);
    if words.len() == 0 {
        assert(line =~= none);
        lemma_no_words(line);
        assert(text::words_of(line) =~= words);
    } else {
        let before = words.drop_last();
        let last = words.last();
        let short = text::joined(before, " "@);
        assert(are_words(before)) by {
            assert forall|i: int| 0 <= i < before.len() implies (#[trigger] before[i]).len() > 0
                && no_white(before[i]) by {
                assert(before[i] == words[i]);
            }
        }
        assert(last == words[words.len() - 1]);
        lemma_spaced(before);
        law_joining_puts_the_separator_between(before, seq![last], last, " "@);
        assert(before + seq![last] =~= words);
        assert(before.push(last) =~= words);
        if words.len() == 1 {
            assert(before =~= Seq::empty());
            assert(line =~= last);
            law_words_stand_between_white_space(none, last, none);
            assert(none + last + none =~= last);
            lemma_no_words(none);
            assert(text::words_of(last) =~= words);
        } else {
            let gap = short + " "@;
            assert(line =~= gap + last + none);
            law_words_stand_between_white_space(gap, last, none);
            law_words_stand_between_white_space(short.take(0), before[0], none);
            lemma_words_behind(short, " "@);
            lemma_no_words(none);
            lemma_no_words(" "@);
            assert(text::words_of(line) =~= words);
            assert(line[0] == short[0]);
            assert(line.last() == last.last());
        }
    }
}

/// A negative number is written as the positive one behind a hyphen.
pub proof fn law_a_negative_number_has_a_sign(n: nat)
    ensures
        text::signed(n as int) == text::decimal(n),
        n > 0 ==> text::signed(-(n as int)) == seq!['-'] + text::decimal(n),
{
    reveal_strlit("-");
    assert("-"@ =~= seq!['-']);
}

/// The value of a hexadecimal digit.
pub open spec fn hex_value(c: char) -> int {
    if '0' <= c && c <= '9' {
        c as int - '0' as int
    } else {
        c as int - 'a' as int + 10
    }
}

/// A byte is written as two digits, the sixteens before the ones, with small letters for the digits
/// from ten on.
pub proof fn law_a_byte_is_two_digits(n: nat)
    requires
        n < 256,
    ensures
        text::hexadecimal(n, 2).len() == 2,
        16 * hex_value(text::hexadecimal(n, 2)[0]) + hex_value(text::hexadecimal(n, 2)[1]) == n,
        forall|i: int|
            0 <= i < 2 ==> {
                let c = #[trigger] text::hexadecimal(n, 2)[i];
                ('0' <= c && c <= '9') || ('a' <= c && c <= 'f')
            },
{
    reveal_with_fuel(text::hexadecimal, 3);
    let high = n / 16;
    assert(high % 16 == high);
    lemma_hex_value(high);
    lemma_hex_value(n % 16);
    assert(text::hexadecimal(n, 2) =~= seq![text::hex_digit(high), text::hex_digit(n % 16)]);
}

proof fn lemma_hex_value(n: nat)
    requires
        n < 16,
    ensures
        hex_value(text::hex_digit(n)) == n,
        ('0' <= text::hex_digit(n) && text::hex_digit(n) <= '9') || ('a' <= text::hex_digit(n)
            && text::hex_digit(n) <= 'f'),
{
}

/// A padded text is the text and blanks behind it, up to the width; a wider text is left as it is.
pub proof fn law_a_padded_text_has_the_width(s: Seq<char>, n: nat)
    ensures
        s.len() >= n ==> text::padded(s, n) == s,
        s.len() < n ==> text::padded(s, n).len() == n,
        s.is_prefix_of(text::padded(s, n)),
        forall|i: int| s.len() <= i < text::padded(s, n).len() ==> text::padded(s, n)[i] == ' ',
{
    if s.len() < n {
        lemma_blanks((n - s.len()) as nat);
    }
    assert(text::padded(s, n).subrange(0, s.len() as int) =~= s);
}

proof fn lemma_blanks(n: nat)
    ensures
        text::repeated(" "@, n).len() == n,
        forall|i: int| 0 <= i < n ==> #[trigger] text::repeated(" "@, n)[i] == ' ',
    decreases n,
{
    reveal_strlit(" ");
    if n > 0 {
        lemma_blanks((n - 1) as nat);
    }
}

/// Taking a character off the end, or off the beginning, takes every one of it there and no other.
pub proof fn law_a_character_comes_off_the_ends(s: Seq<char>, c: char, n: nat)
    requires
        s.len() > 0 ==> s[0] != c && s.last() != c,
    ensures
        text::trimmed_end_of(s + Seq::new(n, |i: int| c), c) == s,
        text::trimmed_start_of(Seq::new(n, |i: int| c) + s, c) == s,
    decreases n,
{
    let run = Seq::new(n, |i: int| c);
    if n == 0 {
        assert(s + run =~= s);
        assert(run + s =~= s);
    } else {
        let less = Seq::new((n - 1) as nat, |i: int| c);
        law_a_character_comes_off_the_ends(s, c, (n - 1) as nat);
        assert((s + run).drop_last() =~= s + less);
        assert((run + s).skip(1) =~= less + s);
        assert((s + run).last() == c);
        assert((run + s)[0] == c);
    }
}

} // verus!
