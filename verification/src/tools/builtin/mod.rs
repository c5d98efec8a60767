//! The built-in tools: what each says of itself, how it reads its arguments, and what it answers.

use vstd::prelude::*;

use crate::text;
use crate::text::{chars_of, fit, longer_than};
use crate::tools::contract::{Failure, FailureKind, ToolError};

pub mod apply_patch;
pub mod ask_user;
pub mod git;
pub mod list_files;
pub mod read_file;
pub mod run_command;
pub mod search;
pub mod write_file;

verus! {

/// Fails where the run was cancelled.
pub fn check_cancelled(cancelled: bool) -> (r: Result<(), ToolError>)
    ensures
        match r {
            Ok(_) => !cancelled,
            Err(e) => cancelled && e@ == (Failure {
                kind: FailureKind::Cancelled,
                text: Seq::empty(),
            }),
        },
{
    if cancelled {
        Err(ToolError::Cancelled)
    } else {
        Ok(())
    }
}

/// Cuts a text to at most `max_chars` bytes, between two characters, and tells whether anything was
/// cut.
pub fn cap_chars(content: String, max_chars: usize) -> (r: (String, bool))
    ensures
        r.1 == (text::byte_len(content@) > max_chars),
        r.0@ == (if r.1 {
            text::byte_fit(content@, max_chars as nat)
        } else {
            content@
        }),
{
    if !longer_than(content.as_str(), max_chars) {
        return (content, false);
    }
    (fit(content.as_str(), max_chars), true)
}

/// Whether a pattern from `p` on matches a text from `t` on: `*` stands for any characters and `?`
/// for one.
pub open spec fn globs(pattern: Seq<char>, subject: Seq<char>, p: int, t: int) -> bool
    decreases pattern.len() - p, subject.len() - t,
{
    if p >= pattern.len() {
        t == subject.len()
    } else if pattern[p] == '*' {
        globs(pattern, subject, p + 1, t) || (t < subject.len() && globs(pattern, subject, p, t + 1))
    } else {
        t < subject.len() && (pattern[p] == '?' || pattern[p] == subject[t]) && globs(
            pattern,
            subject,
            p + 1,
            t + 1,
        )
    }
}

/// Tells whether a pattern matches a text: `*` stands for any characters and `?` for one.
pub fn glob_match(pattern: &str, subject: &str) -> (r: bool)
    ensures
        r == globs(pattern@, subject@, 0, 0),
{
    let ps: Vec<char> = chars_of(pattern);
    let ts: Vec<char> = chars_of(subject);
    // For each place in the text, whether the rest of the pattern matches from there on.
    let mut row: Vec<bool> = Vec::new();
    let mut k: usize = 0;
    while k < ts.len()
        invariant
            k <= ts@.len(),
            ps@ == pattern@,
            ts@ == subject@,
            row@.len() == k,
            forall|j: int|
                0 <= j < k ==> #[trigger] row@[j] == globs(ps@, ts@, ps@.len() as int, j),
        decreases ts@.len() - k,
    {
        row.push(false);
        k = k + 1;
    }
    row.push(true);
    let mut p: usize = ps.len();
    while p > 0
        invariant
            p <= ps@.len(),
            ps@ == pattern@,
            ts@ == subject@,
            row@.len() == ts@.len() + 1,
            forall|j: int| 0 <= j <= ts@.len() ==> #[trigger] row@[j] == globs(ps@, ts@, p as int, j),
        decreases p,
    {
        p = p - 1;
        let star: bool = ps[p] == '*';
        let single: bool = ps[p] == '?';
        let own: char = ps[p];
        let ghost below = row@;
        let mut t: usize = 0;
        if star {
            t = ts.len();
            while t > 0
                invariant
                    t <= ts.len(),
                    p < ps@.len(),
                    ps@[p as int] == '*',
                    row@.len() == ts@.len() + 1,
                    below.len() == row@.len(),
                    forall|j: int|
                        0 <= j <= ts@.len() ==> #[trigger] below[j] == globs(
                            ps@,
                            ts@,
                            p + 1,
                            j,
                        ),
                    forall|j: int| 0 <= j < t ==> #[trigger] row@[j] == below[j],
                    forall|j: int|
                        t <= j <= ts@.len() ==> #[trigger] row@[j] == globs(
                            ps@,
                            ts@,
                            p as int,
                            j,
                        ),
                decreases t,
            {
                t = t - 1;
                proof {
                    assert(row@[t as int] == below[t as int]);
                    assert(row@[t + 1] == globs(ps@, ts@, p as int, t + 1));
                }
                let hit: bool = row[t] || row[t + 1];
                row.set(t, hit);
            }
        } else {
            while t < ts.len()
                invariant
                    t <= ts@.len(),
                    p < ps@.len(),
                    ps@[p as int] == own,
                    own != '*',
                    single == (own == '?'),
                    row@.len() == ts@.len() + 1,
                    below.len() == row@.len(),
                    forall|j: int|
                        0 <= j <= ts@.len() ==> #[trigger] below[j] == globs(
                            ps@,
                            ts@,
                            p + 1,
                            j,
                        ),
                    forall|j: int| t <= j <= ts@.len() ==> #[trigger] row@[j] == below[j],
                    forall|j: int|
                        0 <= j < t ==> #[trigger] row@[j] == globs(ps@, ts@, p as int, j),
                decreases ts@.len() - t,
            {
                assert(row@[t + 1] == below[t + 1]);
                let hit: bool = (single || own == ts[t]) && row[t + 1];
                row.set(t, hit);
                t = t + 1;
            }
            row.set(t, false);
        }
    }
    row[0]
}

/// A star stands for any run of characters, the empty one included.
pub proof fn law_a_star_stands_for_any_run(
    pattern: Seq<char>,
    subject: Seq<char>,
    p: int,
    t: int,
)
    requires
        0 <= p < pattern.len(),
        pattern[p] == '*',
        0 <= t <= subject.len(),
    ensures
        globs(pattern, subject, p, t) <==> exists|next: int|
            t <= next <= subject.len() && #[trigger] globs(pattern, subject, p + 1, next),
    decreases subject.len() - t,
{
    if t < subject.len() {
        law_a_star_stands_for_any_run(pattern, subject, p, t + 1);
    }
    if globs(pattern, subject, p, t) {
        if globs(pattern, subject, p + 1, t) {
        } else {
            let next = choose|next: int|
                t + 1 <= next <= subject.len() && #[trigger] globs(pattern, subject, p + 1, next);
            assert(globs(pattern, subject, p + 1, next));
        }
    }
}

proof fn lemma_plain_pattern(pattern: Seq<char>, subject: Seq<char>, p: int)
    requires
        0 <= p <= pattern.len(),
        forall|i: int| 0 <= i < pattern.len() ==> #[trigger] pattern[i] != '*' && pattern[i] != '?',
    ensures
        p <= subject.len() ==> (globs(pattern, subject, p, p) <==> pattern.skip(p) == subject.skip(p)),
    decreases pattern.len() - p,
{
    if p <= subject.len() {
        if p == pattern.len() {
            if p == subject.len() {
                assert(pattern.skip(p) =~= subject.skip(p));
            } else {
                assert(pattern.skip(p).len() != subject.skip(p).len());
            }
        } else if p < subject.len() {
            lemma_plain_pattern(pattern, subject, p + 1);
            let a = pattern.skip(p);
            let b = subject.skip(p);
            assert(a.skip(1) =~= pattern.skip(p + 1));
            assert(b.skip(1) =~= subject.skip(p + 1));
            if a == b {
                assert(a[0] == b[0]);
            } else if pattern[p] == subject[p] && pattern.skip(p + 1) == subject.skip(p + 1) {
                assert(a =~= seq![a[0]] + a.skip(1));
                assert(b =~= seq![b[0]] + b.skip(1));
            }
        } else {
            assert(pattern.skip(p).len() != subject.skip(p).len());
        }
    }
}

/// A pattern without wildcards matches itself and nothing else.
pub proof fn law_a_plain_pattern_matches_itself(pattern: Seq<char>, subject: Seq<char>)
    requires
        forall|i: int| 0 <= i < pattern.len() ==> #[trigger] pattern[i] != '*' && pattern[i] != '?',
    ensures
        globs(pattern, subject, 0, 0) <==> pattern == subject,
{
    lemma_plain_pattern(pattern, subject, 0);
    assert(pattern.skip(0) =~= pattern);
    assert(subject.skip(0) =~= subject);
}

/// A pattern without a star matches the texts of its own length that have its characters, where a
/// question mark goes with any one.
pub proof fn law_a_question_mark_stands_for_one(pattern: Seq<char>, subject: Seq<char>)
    requires
        forall|i: int| 0 <= i < pattern.len() ==> #[trigger] pattern[i] != '*',
    ensures
        globs(pattern, subject, 0, 0) <==> pattern.len() == subject.len() && forall|i: int|
            0 <= i < pattern.len() ==> #[trigger] pattern[i] == '?' || pattern[i] == subject[i],
{
    lemma_one_by_one(pattern, subject, 0);
}

proof fn lemma_one_by_one(pattern: Seq<char>, subject: Seq<char>, p: int)
    requires
        forall|i: int| 0 <= i < pattern.len() ==> #[trigger] pattern[i] != '*',
        0 <= p <= pattern.len(),
        p <= subject.len(),
    ensures
        globs(pattern, subject, p, p) <==> pattern.len() == subject.len() && forall|i: int|
            p <= i < pattern.len() ==> #[trigger] pattern[i] == '?' || pattern[i] == subject[i],
    decreases pattern.len() - p,
{
    if p < pattern.len() && p < subject.len() {
        lemma_one_by_one(pattern, subject, p + 1);
    }
}

/// Whether a text has no wildcard.
pub open spec fn is_plain(s: Seq<char>) -> bool {
    forall|i: int| 0 <= i < s.len() ==> #[trigger] s[i] != '*' && s[i] != '?'
}

/// A pattern with one star matches exactly the texts that begin with what is before the star and end
/// with what is behind it, without overlap: `*.rs` every name that ends in `.rs`.
pub proof fn law_a_star_joins_a_beginning_and_an_end(
    front: Seq<char>,
    back: Seq<char>,
    subject: Seq<char>,
)
    requires
        is_plain(front),
        is_plain(back),
    ensures
        globs(front + seq!['*'] + back, subject, 0, 0) <==> {
            &&& front.len() + back.len() <= subject.len()
            &&& subject.take(front.len() as int) == front
            &&& subject.skip(subject.len() - back.len()) == back
        },
{
    let pattern = front + seq!['*'] + back;
    let n = front.len() as int;
    lemma_run(pattern, subject, 0, 0, n);
    assert(pattern.subrange(0, n) =~= front);
    assert(pattern.subrange(n + 1, pattern.len() as int) =~= back);
    if n <= subject.len() {
        law_a_star_stands_for_any_run(pattern, subject, n, n);
        assert(subject.subrange(0, n) =~= subject.take(n));
    }
    let last = subject.len() - back.len();
    assert forall|next: int| 0 <= next <= subject.len() implies (#[trigger] globs(
        pattern,
        subject,
        n + 1,
        next,
    ) <==> next == last && subject.skip(next) == back) by {
        lemma_run(pattern, subject, n + 1, next, back.len() as int);
        if next + back.len() == subject.len() {
            assert(subject.subrange(next, subject.len() as int) =~= subject.skip(next));
        }
    }
    if n <= last && subject.skip(last) == back {
        assert(globs(pattern, subject, n + 1, last));
    }
}

proof fn lemma_run(pattern: Seq<char>, subject: Seq<char>, p: int, t: int, m: int)
    requires
        0 <= p,
        0 <= m,
        p + m <= pattern.len(),
        0 <= t <= subject.len(),
        is_plain(pattern.subrange(p, p + m)),
    ensures
        globs(pattern, subject, p, t) <==> t + m <= subject.len() && subject.subrange(t, t + m)
            == pattern.subrange(p, p + m) && globs(pattern, subject, p + m, t + m),
    decreases m,
{
    if m == 0 {
        assert(subject.subrange(t, t) =~= pattern.subrange(p, p));
    } else {
        let own = pattern.subrange(p, p + m);
        assert(own[0] == pattern[p]);
        let rest = pattern.subrange(p + 1, p + m);
        assert(is_plain(rest)) by {
            assert forall|i: int| 0 <= i < rest.len() implies #[trigger] rest[i] != '*' && rest[i]
                != '?' by {
                assert(own[i + 1] == rest[i]);
            }
        }
        if t < subject.len() {
            lemma_run(pattern, subject, p + 1, t + 1, m - 1);
            if t + m <= subject.len() {
                let there = subject.subrange(t, t + m);
                assert(there =~= seq![subject[t]] + subject.subrange(t + 1, t + m));
                assert(own =~= seq![pattern[p]] + rest);
                if there == own {
                    assert(there[0] == own[0]);
                    assert(subject.subrange(t + 1, t + m) =~= rest) by {
                        assert forall|i: int| 0 <= i < rest.len() implies subject.subrange(
                            t + 1,
                            t + m,
                        )[i] == rest[i] by {
                            assert(there[i + 1] == own[i + 1]);
                        }
                    }
                }
            }
        }
    }
}

} // verus!
