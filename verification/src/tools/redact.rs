//! Removing secrets from the output of processes.

use vstd::prelude::*;

use crate::text;
use crate::text_laws;
use crate::text::{chars_of, find_from, is_white, text_of, to_ascii_lowercase};

verus! {

/// What stands for a removed value.
pub open spec fn tag() -> Seq<char> {
    "[REDACTED]"@
}

/// The first character at or after `from` that is not white space.
pub open spec fn first_black(s: Seq<char>, from: int) -> int
    decreases s.len() - from,
{
    if from >= s.len() || !text::is_white_space(s[from]) {
        from
    } else {
        first_black(s, from + 1)
    }
}

/// What is known of the first character that is not white space.
pub proof fn lemma_first_black(s: Seq<char>, from: int)
    ensures
        from <= first_black(s, from),
        from <= s.len() ==> first_black(s, from) <= s.len(),
        forall|i: int|
            from <= i < first_black(s, from) ==> text::is_white_space(#[trigger] s[i]),
        first_black(s, from) < s.len() ==> !text::is_white_space(s[first_black(s, from)]),
    decreases s.len() - from,
{
    if from < s.len() && text::is_white_space(s[from]) {
        lemma_first_black(s, from + 1);
    }
}

/// What is known of the first white-space character.
pub proof fn lemma_first_white(s: Seq<char>, from: int)
    ensures
        from <= text::first_white(s, from),
        from <= s.len() ==> text::first_white(s, from) <= s.len(),
    decreases s.len() - from,
{
    if from < s.len() && !text::is_white_space(s[from]) {
        lemma_first_white(s, from + 1);
    }
}

proof fn lemma_first_white_ends(s: Seq<char>, from: int)
    requires
        0 <= from,
    ensures
        text::first_white(s, from) < s.len() ==> text::is_white_space(
            s[text::first_white(s, from)],
        ),
    decreases s.len() - from,
{
    if from < s.len() && !text::is_white_space(s[from]) {
        lemma_first_white_ends(s, from + 1);
    }
}

proof fn lemma_first_black_is(s: Seq<char>, from: int, at: int)
    requires
        0 <= from <= at < s.len(),
        forall|i: int| from <= i < at ==> text::is_white_space(#[trigger] s[i]),
        !text::is_white_space(s[at]),
    ensures
        first_black(s, from) == at,
    decreases at - from,
{
    if from < at {
        lemma_first_black_is(s, from + 1, at);
    }
}

proof fn lemma_first_white_is(s: Seq<char>, from: int, at: int)
    requires
        0 <= from <= at <= s.len(),
        forall|i: int| from <= i < at ==> !text::is_white_space(#[trigger] s[i]),
        at < s.len() ==> text::is_white_space(s[at]),
    ensures
        text::first_white(s, from) == at,
    decreases at - from,
{
    if from < at {
        lemma_first_white_is(s, from + 1, at);
    }
}

/// The first place at or after `from` where a nonempty text stands, or -1.
pub open spec fn place(s: Seq<char>, p: Seq<char>, from: int) -> int
    decreases s.len() - from,
{
    if p.len() == 0 || from + p.len() > s.len() {
        -1
    } else if text::occurs_at(s, p, from) {
        from
    } else {
        place(s, p, from + 1)
    }
}

/// What is known of the first place of a text.
pub proof fn lemma_place(s: Seq<char>, p: Seq<char>, from: int)
    ensures
        place(s, p, from) == -1 || from <= place(s, p, from) <= s.len() - p.len(),
        0 <= from && place(s, p, from) >= 0 ==> text::occurs_at(s, p, place(s, p, from)),
        0 <= from && p.len() > 0 && place(s, p, from) < 0 ==> forall|i: int|
            from <= i ==> !text::occurs_at(s, p, i),
        0 <= from && place(s, p, from) >= 0 ==> forall|i: int|
            from <= i < place(s, p, from) ==> !text::occurs_at(s, p, i),
    decreases s.len() - from,
{
    if !(p.len() == 0 || from + p.len() > s.len()) && !text::occurs_at(s, p, from) {
        lemma_place(s, p, from + 1);
    }
}

/// A text from a position on, with the word behind every occurrence of a marker replaced. White
/// space between the two stays. The marker is given in lower case and found in any case.
pub open spec fn redacted_from(s: Seq<char>, marker: Seq<char>, cursor: int) -> Seq<char>
    decreases s.len() - cursor,
{
    let start = place(text::lowered(s), marker, cursor);
    let secret = first_black(s, start + marker.len());
    let end = text::first_white(s, secret);
    proof {
        lemma_place(text::lowered(s), marker, cursor);
        lemma_first_black(s, start + marker.len());
        lemma_first_white(s, secret);
    }
    if cursor < 0 || cursor >= s.len() || marker.len() == 0 || start < 0 {
        s.skip(cursor)
    } else {
        s.subrange(cursor, secret) + tag() + redacted_from(s, marker, end)
    }
}

/// A text with the word behind every occurrence of a marker replaced.
pub open spec fn redacted_after(s: Seq<char>, marker: Seq<char>) -> Seq<char> {
    redacted_from(s, text::lowered(marker), 0)
}

/// Finds the first character at or after `from` that is, or is not, white space.
fn find_edge(v: &Vec<char>, from: usize, white: bool) -> (r: usize)
    requires
        from <= v@.len(),
    ensures
        r <= v@.len(),
        white ==> r == text::first_white(v@, from as int),
        !white ==> r == first_black(v@, from as int),
{
    let mut i: usize = from;
    while i < v.len() && is_white(v[i]) != white
        invariant
            i <= v@.len(),
            white ==> text::first_white(v@, from as int) == text::first_white(v@, i as int),
            !white ==> first_black(v@, from as int) == first_black(v@, i as int),
        decreases v@.len() - i,
    {
        i = i + 1;
    }
    i
}

proof fn lemma_place_is(s: Seq<char>, p: Seq<char>, from: int, at: int)
    requires
        0 <= from <= at,
        p.len() > 0,
        text::occurs_at(s, p, at),
        forall|j: int| from <= j < at ==> !text::occurs_at(s, p, j),
    ensures
        place(s, p, from) == at,
    decreases at - from,
{
    if from < at {
        lemma_place_is(s, p, from + 1, at);
    }
}

proof fn lemma_place_is_nowhere(s: Seq<char>, p: Seq<char>, from: int)
    requires
        0 <= from,
        forall|j: int| from <= j ==> !text::occurs_at(s, p, j),
    ensures
        place(s, p, from) == -1,
    decreases s.len() - from,
{
    if !(p.len() == 0 || from + p.len() > s.len()) {
        lemma_place_is_nowhere(s, p, from + 1);
    }
}

/// Replaces the word behind every occurrence of a marker.
pub fn redact_after(value: &str, marker: &str) -> (r: String)
    requires
        marker@.len() > 0,
    ensures
        r@ == redacted_after(value@, marker@),
{
    let all: Vec<char> = chars_of(value);
    let low_text: String = to_ascii_lowercase(value);
    let low: Vec<char> = chars_of(low_text.as_str());
    let own_text: String = to_ascii_lowercase(marker);
    let own: Vec<char> = chars_of(own_text.as_str());
    let mut r: String = String::new();
    let mut cursor: usize = 0;
    let ghost whole = redacted_after(value@, marker@);
    assert(r@ + redacted_from(value@, own@, 0) =~= whole);
    loop
        invariant
            all@ == value@,
            low@ == text::lowered(value@),
            own@ == text::lowered(marker@),
            own@.len() > 0,
            cursor <= all@.len(),
            whole == redacted_after(value@, marker@),
            r@ + redacted_from(value@, own@, cursor as int) == whole,
        decreases all@.len() - cursor,
    {
        proof {
            lemma_place(low@, own@, cursor as int);
        }
        match find_from(&low, &own, cursor) {
            Some(start) => {
                proof {
                    lemma_place_is(low@, own@, cursor as int, start as int);
                }
                assert(text::occurs_at(low@, own@, start as int));
                assert(start + own@.len() <= low.len());
                let after: usize = start + own.len();
                let secret: usize = find_edge(&all, after, false);
                let end: usize = find_edge(&all, secret, true);
                proof {
                    lemma_first_black(value@, after as int);
                    lemma_first_white(value@, secret as int);
                }
                let kept: String = text_of(&all, cursor, secret);
                let ghost before = r@;
                r.append(kept.as_str());
                r.append("[REDACTED]");
                assert(r@ + redacted_from(value@, own@, end as int) =~= before + (kept@ + tag()
                    + redacted_from(value@, own@, end as int)));
                cursor = end;
            },
            None => {
                proof {
                    lemma_place_is_nowhere(low@, own@, cursor as int);
                    assert(value@.subrange(cursor as int, all@.len() as int) =~= value@.skip(
                        cursor as int,
                    ));
                }
                let kept: String = text_of(&all, cursor, all.len());
                r.append(kept.as_str());
                return r;
            },
        }
    }
}

/// The markers whose values are removed, in the order in which they are looked for.
pub open spec fn markers() -> Seq<Seq<char>> {
    seq![
        "token="@,
        "token:"@,
        "password="@,
        "password:"@,
        "secret="@,
        "secret:"@,
        "api_key="@,
        "api_key:"@,
        "authorization: bearer "@,
        "cookie:"@,
    ]
}

/// A text after the values of the first markers were removed, one marker after the other.
pub open spec fn redacted_by(s: Seq<char>, n: int) -> Seq<char>
    decreases n,
{
    if n <= 0 {
        s
    } else {
        redacted_after(redacted_by(s, n - 1), markers()[n - 1])
    }
}

/// A text without the values of any marker.
pub open spec fn redacted(s: Seq<char>) -> Seq<char> {
    redacted_by(s, 10)
}

/// Removes values that commonly appear in diagnostic output before it is shown, streamed or kept.
/// It rather removes too much than show a secret.
#[must_use]
pub fn redact_secrets(output: &str) -> (r: String)
    ensures
        r@ == redacted(output@),
{
    proof {
        reveal_strlit("token=");
        reveal_strlit("token:");
        reveal_strlit("password=");
        reveal_strlit("password:");
        reveal_strlit("secret=");
        reveal_strlit("secret:");
        reveal_strlit("api_key=");
        reveal_strlit("api_key:");
        reveal_strlit("authorization: bearer ");
        reveal_strlit("cookie:");
        reveal_with_fuel(redacted_by, 11);
    }
    let a: String = redact_after(output, "token=");
    let b: String = redact_after(a.as_str(), "token:");
    let c: String = redact_after(b.as_str(), "password=");
    let d: String = redact_after(c.as_str(), "password:");
    let e: String = redact_after(d.as_str(), "secret=");
    let f: String = redact_after(e.as_str(), "secret:");
    let g: String = redact_after(f.as_str(), "api_key=");
    let h: String = redact_after(g.as_str(), "api_key:");
    let i: String = redact_after(h.as_str(), "authorization: bearer ");
    redact_after(i.as_str(), "cookie:")
}

/// Whether nothing but white space stands between a position and a tag, and white space or the end
/// follows the tag.
pub open spec fn is_hidden_at(s: Seq<char>, p: int, w: int) -> bool {
    &&& p <= w
    &&& forall|i: int| p <= i < w ==> text::is_white_space(#[trigger] s[i])
    &&& text::occurs_at(s, tag(), w)
    &&& w + tag().len() < s.len() ==> text::is_white_space(s[w + tag().len()])
}

/// Whether what follows a position is a tag, behind white space or at once.
pub open spec fn is_hidden(s: Seq<char>, p: int) -> bool {
    exists|w: int| is_hidden_at(s, p, w)
}

/// Whether the value behind every occurrence of a marker was removed.
pub open spec fn is_covered(s: Seq<char>, marker: Seq<char>) -> bool {
    forall|i: int|
        #[trigger] text::occurs_at(text::lowered(s), marker, i) ==> is_hidden(s, i + marker.len())
}

/// Whether a marker shares no character with a tag where it could run into one: it holds no square
/// bracket, and it holds an equals sign or a colon.
pub open spec fn is_marker(m: Seq<char>) -> bool {
    &&& m.len() > 0
    &&& forall|j: int| 0 <= j < m.len() ==> (#[trigger] m[j]) != '[' && m[j] != ']'
    &&& exists|j: int| 0 <= j < m.len() && ((#[trigger] m[j]) == '=' || m[j] == ':')
}

proof fn lemma_tag()
    ensures
        tag().len() == 10,
        tag()[0] == '[',
        tag()[9] == ']',
        forall|j: int| 0 <= j < 10 ==> (#[trigger] tag()[j]) != '=' && tag()[j] != ':',
        forall|j: int| 0 <= j < 10 ==> !text::is_white_space(#[trigger] tag()[j]),
        forall|j: int|
            0 <= j < 10 ==> text::lower(#[trigger] tag()[j]) != '=' && text::lower(tag()[j]) != ':',
{
    reveal_strlit("[REDACTED]");
}

/// A marker cannot overlap a tag.
proof fn lemma_markers_avoid_tags(s: Seq<char>, m: Seq<char>, i: int, w: int)
    requires
        is_marker(m),
        text::occurs_at(text::lowered(s), m, i),
        text::occurs_at(s, tag(), w),
    ensures
        i + m.len() <= w || w + 10 <= i,
{
    lemma_tag();
    let low = text::lowered(s);
    if i < w + 10 && w < i + m.len() {
        let part = low.subrange(i, i + m.len());
        let mark = s.subrange(w, w + 10);
        if i <= w {
            assert(part[w - i] == low[w]);
            assert(mark[0] == s[w]);
            assert(m[w - i] == '[');
        } else if i + m.len() > w + 9 {
            assert(part[w + 9 - i] == low[w + 9]);
            assert(mark[9] == s[w + 9]);
            assert(m[w + 9 - i] == ']');
        } else {
            let j = choose|j: int| 0 <= j < m.len() && ((#[trigger] m[j]) == '=' || m[j] == ':');
            assert(part[j] == low[i + j]);
            assert(mark[i + j - w] == s[i + j]);
            assert(tag()[i + j - w] == s[i + j]);
        }
    }
}

/// What follows a position stays hidden when the text is put behind another.
proof fn lemma_hidden_behind(a: Seq<char>, b: Seq<char>, p: int)
    requires
        0 <= p,
        is_hidden(b, p),
    ensures
        is_hidden(a + b, a.len() + p),
{
    let w = choose|w: int| is_hidden_at(b, p, w);
    let all = a + b;
    lemma_tag();
    assert(all.subrange(a.len() + w, a.len() + w + 10) =~= b.subrange(w, w + 10));
    assert forall|i: int| a.len() + p <= i < a.len() + w implies text::is_white_space(
        #[trigger] all[i],
    ) by {
        assert(all[i] == b[i - a.len()]);
    }
    assert(a.len() + w + 10 < all.len() ==> all[a.len() + w + 10] == b[w + 10]);
    assert(is_hidden_at(all, a.len() + p, a.len() + w));
}

/// What remains of a text after a word was replaced begins with the white space that ended the word.
proof fn lemma_rest_begins_white(s: Seq<char>, m: Seq<char>, end: int)
    requires
        0 <= end <= s.len(),
        m.len() > 0,
        end < s.len() ==> text::is_white_space(s[end]),
    ensures
        redacted_from(s, m, end).len() > 0 ==> text::is_white_space(redacted_from(s, m, end)[0]),
{
    let start = place(text::lowered(s), m, end);
    lemma_place(text::lowered(s), m, end);
    lemma_first_black(s, start + m.len());
}

/// An occurrence in a text is one in a part that holds it.
proof fn lemma_occurs_in_part(s: Seq<char>, m: Seq<char>, i: int, from: int, to: int)
    requires
        0 <= from <= i,
        i + m.len() <= to <= s.len(),
    ensures
        text::occurs_at(text::lowered(s), m, i) <==> text::occurs_at(
            text::lowered(s.subrange(from, to)),
            m,
            i - from,
        ),
{
    let part = s.subrange(from, to);
    assert(text::lowered(part).subrange(i - from, i - from + m.len()) =~= text::lowered(
        s,
    ).subrange(i, i + m.len()));
}

/// The values of a marker stay removed when those of another are, and those of the marker at hand
/// are removed.
#[verifier::rlimit(60)]
#[verifier::spinoff_prover]
proof fn lemma_redacting_covers(s: Seq<char>, m: Seq<char>, k: Seq<char>, cursor: int)
    requires
        is_marker(m),
        is_marker(k),
        m == k || is_covered(s, k),
        0 <= cursor <= s.len(),
    ensures
        is_covered(redacted_from(s, m, cursor), k),
    decreases s.len() - cursor,
{
    let low = text::lowered(s);
    let start = place(low, m, cursor);
    let secret = first_black(s, start + m.len());
    let end = text::first_white(s, secret);
    let r = redacted_from(s, m, cursor);
    lemma_place(low, m, cursor);
    lemma_first_black(s, start + m.len());
    lemma_first_white(s, secret);
    lemma_tag();
    if cursor >= s.len() || start < 0 {
        assert(r =~= s.subrange(cursor, s.len() as int));
        assert forall|i: int| #[trigger] text::occurs_at(text::lowered(r), k, i) implies is_hidden(
            r,
            i + k.len(),
        ) by {
            lemma_occurs_in_part(s, k, cursor + i, cursor, s.len() as int);
            assert(text::occurs_at(low, k, cursor + i));
            assert(is_covered(s, k));
            let q = cursor + i + k.len();
            let w = choose|w: int| is_hidden_at(s, q, w);
            assert(r.subrange(w - cursor, w - cursor + 10) =~= s.subrange(w, w + 10));
            assert forall|j: int| i + k.len() <= j < w - cursor implies text::is_white_space(
                #[trigger] r[j],
            ) by {
                assert(r[j] == s[cursor + j]);
            }
            assert(w - cursor + 10 < r.len() ==> r[w - cursor + 10] == s[w + 10]);
            assert(is_hidden_at(r, i + k.len(), w - cursor));
        }
    } else {
        let seg = s.subrange(cursor, secret);
        let rest = redacted_from(s, m, end);
        lemma_redacting_covers(s, m, k, end);
        assert(r == seg + tag() + rest);
        let at = secret - cursor;
        assert(r.subrange(at, at + 10) =~= tag());
        assert(text::occurs_at(r, tag(), at));
        lemma_first_white_ends(s, secret);
        lemma_rest_begins_white(s, m, end);
        assert(at + 10 < r.len() ==> r[at + 10] == rest[0]);
        assert forall|i: int| #[trigger] text::occurs_at(text::lowered(r), k, i) implies is_hidden(
            r,
            i + k.len(),
        ) by {
            lemma_markers_avoid_tags(r, k, i, at);
            if at + 10 <= i {
                let front = seg + tag();
                assert(r =~= front + rest);
                assert(r.subrange(at + 10, r.len() as int) =~= rest);
                lemma_occurs_in_part(r, k, i, at + 10, r.len() as int);
                assert(text::occurs_at(text::lowered(rest), k, i - at - 10));
                lemma_hidden_behind(front, rest, i - at - 10 + k.len());
            } else {
                let p = cursor + i + k.len();
                assert(r.subrange(0, at) =~= seg);
                lemma_occurs_in_part(r, k, i, 0, at);
                lemma_occurs_in_part(s, k, cursor + i, cursor, secret);
                assert(text::occurs_at(low, k, cursor + i));
                assert forall|j: int| 0 <= j < at implies #[trigger] r[j] == s[cursor + j] by {}
                if m == k {
                    assert(cursor + i >= start);
                    assert forall|j: int| i + k.len() <= j < at implies text::is_white_space(
                        #[trigger] r[j],
                    ) by {
                        assert(r[j] == s[cursor + j]);
                    }
                    assert(is_hidden_at(r, i + k.len(), at));
                } else {
                    let w = choose|w: int| is_hidden_at(s, p, w);
                    let mark = s.subrange(w, w + 10);
                    lemma_markers_avoid_tags(s, m, start, w);
                    if w < secret {
                        if w + 10 > secret {
                            assert(w >= start + m.len());
                            assert(mark[0] == s[w]);
                            assert(text::is_white_space(s[w]));
                        }
                        if w + 10 == secret {
                            if secret < s.len() {
                                assert(text::is_white_space(s[secret]));
                            } else {
                                assert(mark[0] == s[w]);
                                assert(text::is_white_space(s[w]));
                            }
                        }
                        assert(r.subrange(w - cursor, w - cursor + 10) =~= mark);
                        assert(r[w - cursor + 10] == s[w + 10]);
                        assert forall|j: int|
                            i + k.len() <= j < w - cursor implies text::is_white_space(
                            #[trigger] r[j],
                        ) by {
                            assert(r[j] == s[cursor + j]);
                        }
                        assert(is_hidden_at(r, i + k.len(), w - cursor));
                    } else {
                        assert forall|j: int| i + k.len() <= j < at implies text::is_white_space(
                            #[trigger] r[j],
                        ) by {
                            assert(r[j] == s[cursor + j]);
                        }
                        assert(is_hidden_at(r, i + k.len(), at));
                    }
                }
            }
        }
    }
}

proof fn lemma_markers()
    ensures
        markers().len() == 10,
        forall|n: int| 0 <= n < 10 ==> is_marker(#[trigger] markers()[n]),
        forall|n: int| 0 <= n < 10 ==> text::lowered(#[trigger] markers()[n]) == markers()[n],
{
    reveal_strlit("token=");
    reveal_strlit("token:");
    reveal_strlit("password=");
    reveal_strlit("password:");
    reveal_strlit("secret=");
    reveal_strlit("secret:");
    reveal_strlit("api_key=");
    reveal_strlit("api_key:");
    reveal_strlit("authorization: bearer ");
    reveal_strlit("cookie:");
    assert forall|n: int| 0 <= n < 10 implies is_marker(#[trigger] markers()[n]) by {
        let m = markers()[n];
        let j = if n == 8 {
            13
        } else {
            m.len() - 1
        };
        assert(m[j] == '=' || m[j] == ':');
    }
    assert forall|n: int| 0 <= n < 10 implies text::lowered(#[trigger] markers()[n])
        == markers()[n] by {
        let m = markers()[n];
        assert(text::lowered(m) =~= m);
    }
}

proof fn lemma_redacted_by_covers(s: Seq<char>, n: int, k: int)
    requires
        0 <= k < n <= 10,
    ensures
        is_covered(redacted_by(s, n), markers()[k]),
    decreases n,
{
    lemma_markers();
    if k < n - 1 {
        lemma_redacted_by_covers(s, n - 1, k);
    }
    lemma_redacting_covers(redacted_by(s, n - 1), markers()[n - 1], markers()[k], 0);
}

/// After redaction, every marker, in whatever case, is followed by white space at most and then by the
/// tag that stands for its value, which ends at white space or at the end of the text.
pub proof fn law_secrets_are_hidden(output: Seq<char>, k: int)
    requires
        0 <= k < markers().len(),
    ensures
        is_covered(redacted(output), markers()[k]),
{
    lemma_markers();
    lemma_redacted_by_covers(output, 10, k);
}

/// A text whose values were removed is left as it is.
proof fn lemma_covered_stays(s: Seq<char>, m: Seq<char>, cursor: int)
    requires
        is_marker(m),
        is_covered(s, m),
        0 <= cursor <= s.len(),
    ensures
        redacted_from(s, m, cursor) == s.skip(cursor),
    decreases s.len() - cursor,
{
    let low = text::lowered(s);
    let start = place(low, m, cursor);
    lemma_place(low, m, cursor);
    if cursor < s.len() && start >= 0 {
        let p = start + m.len();
        assert(text::occurs_at(low, m, start));
        let w = choose|w: int| is_hidden_at(s, p, w);
        let mark = s.subrange(w, w + 10);
        lemma_tag();
        assert forall|i: int| w <= i < w + 10 implies !text::is_white_space(#[trigger] s[i]) by {
            assert(mark[i - w] == s[i]);
            assert(tag()[i - w] == s[i]);
        }
        lemma_first_black_is(s, p, w);
        lemma_first_white_is(s, w, w + 10);
        lemma_covered_stays(s, m, w + 10);
        assert(s.subrange(cursor, w) + tag() + s.skip(w + 10) =~= s.skip(cursor));
    }
}

proof fn lemma_redacted_by_stays(s: Seq<char>, n: int)
    requires
        0 <= n <= 10,
        forall|k: int| 0 <= k < 10 ==> is_covered(s, #[trigger] markers()[k]),
    ensures
        redacted_by(s, n) == s,
    decreases n,
{
    lemma_markers();
    if n > 0 {
        lemma_redacted_by_stays(s, n - 1);
        assert(is_covered(s, markers()[n - 1]));
        lemma_covered_stays(s, markers()[n - 1], 0);
        assert(s.skip(0) =~= s);
    }
}

/// Redacting a second time changes nothing.
pub proof fn law_redacting_twice_changes_nothing(output: Seq<char>)
    ensures
        redacted(redacted(output)) == redacted(output),
{
    lemma_markers();
    assert forall|k: int| 0 <= k < 10 implies is_covered(
        redacted(output),
        #[trigger] markers()[k],
    ) by {
        law_secrets_are_hidden(output, k);
    }
    lemma_redacted_by_stays(redacted(output), 10);
}

/// A text that holds no marker, in whatever case, is left as it is.
pub proof fn law_a_text_without_a_marker_is_unchanged(output: Seq<char>)
    requires
        forall|k: int|
            0 <= k < markers().len() ==> !text::contains_text(
                text::lowered(output),
                #[trigger] markers()[k],
            ),
    ensures
        redacted(output) == output,
{
    lemma_markers();
    assert forall|k: int| 0 <= k < 10 implies is_covered(output, #[trigger] markers()[k]) by {
        assert(!text::contains_text(text::lowered(output), markers()[k]));
    }
    lemma_redacted_by_stays(output, 10);
}

/// Whether a text, in small letters, is one behind which a secret stands.
pub open spec fn announces(m: Seq<char>) -> bool {
    ||| m == "token="@
    ||| m == "token:"@
    ||| m == "password="@
    ||| m == "password:"@
    ||| m == "secret="@
    ||| m == "secret:"@
    ||| m == "api_key="@
    ||| m == "api_key:"@
    ||| m == "authorization: bearer "@
    ||| m == "cookie:"@
}

proof fn lemma_announces(m: Seq<char>) -> (k: int)
    requires
        announces(m),
    ensures
        0 <= k < 10,
        markers()[k] == m,
{
    let t = markers();
    assert(t[0] == "token="@ && t[1] == "token:"@ && t[2] == "password="@ && t[3]
        == "password:"@ && t[4] == "secret="@ && t[5] == "secret:"@ && t[6] == "api_key="@ && t[7]
        == "api_key:"@ && t[8] == "authorization: bearer "@ && t[9] == "cookie:"@);
    if m == "token="@ {
        0
    } else if m == "token:"@ {
        1
    } else if m == "password="@ {
        2
    } else if m == "password:"@ {
        3
    } else if m == "secret="@ {
        4
    } else if m == "secret:"@ {
        5
    } else if m == "api_key="@ {
        6
    } else if m == "api_key:"@ {
        7
    } else if m == "authorization: bearer "@ {
        8
    } else {
        9
    }
}

/// Behind each of the words that announce a secret, in whatever case, nothing but the tag is left.
pub proof fn law_every_announced_secret_is_hidden(output: Seq<char>, m: Seq<char>)
    requires
        announces(m),
    ensures
        is_covered(redacted(output), m),
{
    let k = lemma_announces(m);
    lemma_markers();
    law_secrets_are_hidden(output, k);
}

proof fn lemma_redacted_by_other(s: Seq<char>, a: int, b: int)
    requires
        0 <= a <= b <= 10,
        forall|k: int, i: int|
            a <= k < b ==> !#[trigger] text::occurs_at(
                text::lowered(redacted_by(s, a)),
                markers()[k],
                i,
            ),
    ensures
        redacted_by(s, b) == redacted_by(s, a),
    decreases b - a,
{
    if a < b {
        lemma_redacted_by_other(s, a, b - 1);
        lemma_markers();
        let t = redacted_by(s, a);
        let m = markers()[b - 1];
        assert(is_covered(t, m)) by {
            assert forall|i: int| #[trigger] text::occurs_at(text::lowered(t), m, i) implies is_hidden(
                t,
                i + m.len(),
            ) by {
                assert(!text::occurs_at(text::lowered(redacted_by(s, a)), markers()[b - 1], i));
            }
        }
        lemma_covered_stays(t, m, 0);
        assert(t.skip(0) =~= t);
    }
}

/// The value behind a word that announces a secret is removed, up to the next white space, and nothing
/// else is: what is before it, the word itself, the white space behind it and what follows the value stay
/// as they are.
#[verifier::spinoff_prover]
pub proof fn law_a_secret_is_removed_and_nothing_else(
    before: Seq<char>,
    word: Seq<char>,
    gap: Seq<char>,
    value: Seq<char>,
    after: Seq<char>,
)
    requires
        announces(text::lowered(word)),
        text_laws::all_white(gap),
        value.len() > 0,
        text_laws::no_white(value),
        after.len() > 0 ==> text::is_white_space(after[0]),
        forall|k: int, i: int|
            0 <= k < 10 && #[trigger] text::occurs_at(
                text::lowered(before + word + gap + value + after),
                markers()[k],
                i,
            ) ==> markers()[k] == text::lowered(word) && i == before.len(),
    ensures
        redacted(before + word + gap + value + after) == before + word + gap + "[REDACTED]"@ + after,
{
    let s = before + word + gap + value + after;
    let m = text::lowered(word);
    let k = lemma_announces(m);
    let low = text::lowered(s);
    let front = before + word + gap;
    let result = front + tag() + after;
    lemma_markers();
    lemma_tag();
    assert forall|j: int, i: int| 0 <= j < k implies !#[trigger] text::occurs_at(
        text::lowered(redacted_by(s, 0)),
        markers()[j],
        i,
    ) by {
        if text::occurs_at(low, markers()[j], i) {
            lemma_markers_differ(j, k);
        }
    }
    lemma_redacted_by_other(s, 0, k);
    let at = before.len() as int;
    assert(low.subrange(at, at + m.len()) =~= m);
    assert(text::occurs_at(low, m, at));
    assert forall|i: int| 0 <= i < at implies !text::occurs_at(low, m, i) by {
        assert(text::occurs_at(low, markers()[k], i) ==> i == before.len());
    }
    lemma_place_is(low, m, 0, at);
    let secret = front.len() as int;
    let end = secret + value.len();
    assert forall|i: int| at + m.len() <= i < secret implies text::is_white_space(
        #[trigger] s[i],
    ) by {
        assert(s[i] == gap[i - at - word.len()]);
    }
    assert(s[secret] == value[0]);
    lemma_first_black_is(s, at + m.len(), secret);
    assert forall|i: int| secret <= i < end implies !text::is_white_space(#[trigger] s[i]) by {
        assert(s[i] == value[i - secret]);
    }
    if end < s.len() {
        assert(s[end] == after[0]);
    }
    lemma_first_white_is(s, secret, end);
    assert forall|i: int| end <= i implies !text::occurs_at(low, m, i) by {
        assert(text::occurs_at(low, markers()[k], i) ==> i == before.len());
    }
    lemma_place_is_nowhere(low, m, end);
    assert(redacted_from(s, m, end) =~= after) by {
        assert(s.skip(end) =~= after);
    }
    assert(s.subrange(0, secret) =~= front);
    assert(redacted_from(s, m, 0) =~= result);
    assert(redacted_by(s, k + 1) == result);
    assert forall|j: int, i: int| k + 1 <= j < 10 implies !#[trigger] text::occurs_at(
        text::lowered(redacted_by(s, k + 1)),
        markers()[j],
        i,
    ) by {
        let n = markers()[j];
        if text::occurs_at(text::lowered(result), n, i) {
            assert(result.subrange(secret, secret + 10) =~= tag());
            lemma_markers_avoid_tags(result, n, i, secret);
            lemma_markers_differ(k, j);
            if i + n.len() <= secret {
                assert(text::lowered(result).subrange(i, i + n.len()) =~= low.subrange(
                    i,
                    i + n.len(),
                ));
                assert(text::occurs_at(low, markers()[j], i));
            } else {
                let there = i - 10 + value.len();
                assert(text::lowered(result).subrange(i, i + n.len()) =~= low.subrange(
                    there,
                    there + n.len(),
                ));
                assert(text::occurs_at(low, markers()[j], there));
            }
        }
    }
    lemma_redacted_by_other(s, k + 1, 10);
}

proof fn lemma_markers_differ(a: int, b: int)
    requires
        0 <= a < b < 10,
    ensures
        markers()[a] != markers()[b],
{
    reveal_strlit("token=");
    reveal_strlit("token:");
    reveal_strlit("password=");
    reveal_strlit("password:");
    reveal_strlit("secret=");
    reveal_strlit("secret:");
    reveal_strlit("api_key=");
    reveal_strlit("api_key:");
    reveal_strlit("authorization: bearer ");
    reveal_strlit("cookie:");
    let x = markers()[a];
    let y = markers()[b];
    assert(x.len() != y.len() || x[0] != y[0] || x[x.len() - 1] != y[y.len() - 1]);
}

} // verus!
