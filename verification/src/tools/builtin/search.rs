//! Searching text files for a literal query.

use vstd::prelude::*;

use crate::text;
use crate::text_laws;
use crate::text::{cat3, cat5, contains, decode_strict, join, lines, number, split, trim};
use crate::tools::builtin;
use crate::tools::builtin::glob_match;
use crate::tools::contract;
use crate::tools::contract::{
    invalid, ToolCallId, ToolDefinition, ToolError, ToolOutput, ToolResult, ToolStatus,
};
use crate::tools::path;
use crate::tools::path::{first_parts, resolve_workspace_path, Workspace};
use crate::tools::workspace;
use crate::tools::workspace::{looks_binary, DiscoveredEntry};

verus! {

/// Larger files are not searched.
pub const MAX_SEARCHED_FILE_BYTES: u64 = 2_097_152;

/// How many matches are given unless something else is asked for.
pub const DEFAULT_MAX_RESULTS: usize = 50;

/// The name of the tool.
pub const NAME: &'static str = "search";

/// What the model is told of the tool.
pub const DESCRIPTION: &'static str = "Search project text for a literal query, respecting .gitignore and skipping binary files. Returns file:line matches, not whole files. Prefer this before read_file when you don't yet know which file holds the relevant code.";

/// The JSON schema of its arguments.
pub const SCHEMA: &'static str = "{\"type\":\"object\",\"properties\":{\"query\":{\"type\":\"string\"},\"path\":{\"type\":\"string\",\"description\":\"Project-relative directory to search, default \\\".\\\"\"},\"glob\":{\"type\":\"string\",\"description\":\"Optional filename filter, e.g. \\\"*.rs\\\"\"},\"max_results\":{\"type\":\"integer\",\"minimum\":1,\"description\":\"Default 50\"}},\"required\":[\"query\"],\"additionalProperties\":false}";

/// Says what the tool does and takes.
pub fn definition() -> (r: ToolDefinition)
    ensures
        r.says(NAME@, DESCRIPTION@, SCHEMA@),
{
    ToolDefinition::new(NAME, DESCRIPTION, SCHEMA)
}

/// The arguments of the tool.
#[derive(Debug, PartialEq, Eq)]
pub struct SearchRequest {
    pub query: String,
    pub path: String,
    pub glob: Option<String>,
    pub max_results: usize,
}

impl SearchRequest {
    /// A search for a query, where nothing else is said.
    pub fn new(query: &str) -> (r: SearchRequest)
        ensures
            r.query@ == query@,
            r.path@ == "."@,
            r.glob is None,
            r.max_results == DEFAULT_MAX_RESULTS,
    {
        SearchRequest {
            query: query.to_owned(),
            path: ".".to_owned(),
            glob: None,
            max_results: DEFAULT_MAX_RESULTS,
        }
    }
}

/// Whether a file of a listing is searched: by its name or its path.
pub open spec fn is_wanted(request: SearchRequest, e: (Seq<char>, bool)) -> bool {
    &&& !e.1
    &&& match request.glob {
        Some(glob) => builtin::globs(glob@, text::split_on(e.0, '/').last(), 0, 0)
            || builtin::globs(glob@, e.0, 0, 0),
        None => true,
    }
}

/// Tells whether a file of a listing is searched.
pub fn wants(request: &SearchRequest, e: &DiscoveredEntry) -> (r: bool)
    ensures
        r == is_wanted(*request, (e.relative_path@, e.is_dir)),
{
    if e.is_dir {
        return false;
    }
    match &request.glob {
        Some(glob) => {
            let parts: Vec<String> = split(e.relative_path.as_str(), '/');
            let name: &String = &parts[parts.len() - 1];
            assert(text::texts(parts@).last() == name@);
            glob_match(glob.as_str(), name.as_str()) || glob_match(
                glob.as_str(),
                e.relative_path.as_str(),
            )
        },
        None => true,
    }
}

/// How one match is written.
pub open spec fn match_line(file: Seq<char>, n: nat, line: Seq<char>) -> Seq<char> {
    file + ":"@ + text::decimal(n) + ": "@ + text::trimmed(line)
}

/// Every match in a file, line by line.
pub open spec fn hits(file: Seq<char>, lines: Seq<Seq<char>>, query: Seq<char>) -> Seq<Seq<char>>
    decreases lines.len(),
{
    if lines.len() == 0 {
        Seq::empty()
    } else {
        let so_far = hits(file, lines.drop_last(), query);
        if text::contains_text(lines.last(), query) {
            so_far.push(match_line(file, lines.len(), lines.last()))
        } else {
            so_far
        }
    }
}

/// How many matches are given at most. One always is.
pub open spec fn most(max: nat) -> nat {
    if max > 0 {
        max
    } else {
        1
    }
}

/// The first `n` of a list.
pub open spec fn first(list: Seq<Seq<char>>, n: nat) -> Seq<Seq<char>> {
    if list.len() > n {
        list.take(n as int)
    } else {
        list
    }
}

proof fn lemma_hits_begin(file: Seq<char>, lines: Seq<Seq<char>>, query: Seq<char>, n: int)
    requires
        0 <= n <= lines.len(),
    ensures
        hits(file, lines.take(n), query).is_prefix_of(hits(file, lines, query)),
    decreases lines.len() - n,
{
    if n < lines.len() {
        assert(lines.take(n + 1).drop_last() =~= lines.take(n));
        lemma_hits_begin(file, lines, query, n + 1);
        let a = hits(file, lines.take(n), query);
        let b = hits(file, lines.take(n + 1), query);
        let c = hits(file, lines, query);
        assert(a =~= b.subrange(0, a.len() as int));
        assert(b =~= c.subrange(0, b.len() as int));
        assert(c.subrange(0, a.len() as int) =~= a);
    } else {
        assert(lines.take(n) =~= lines);
        let c = hits(file, lines, query);
        assert(c.subrange(0, c.len() as int) =~= c);
    }
}

/// Looks for a query in a text, until there is one match more than asked for.
fn scan(found: &mut Vec<String>, file: &str, content: &str, query: &str, max: usize)
    requires
        max > 0,
        old(found)@.len() <= max,
    ensures
        text::texts(final(found)@) == first(
            text::texts(old(found)@) + hits(file@, text::lines_of(content@), query@),
            max as nat + 1,
        ),
{
    let ghost before = text::texts(found@);
    let all: Vec<String> = lines(content);
    let ghost every = text::texts(all@);
    let ghost goal = hits(file@, every, query@);
    let mut i: usize = 0;
    assert(every.take(0) =~= Seq::empty());
    assert(before + hits(file@, every.take(0), query@) =~= before);
    while i < all.len()
        invariant
            i <= all.len(),
            every == text::texts(all@),
            every == text::lines_of(content@),
            goal == hits(file@, every, query@),
            before == text::texts(old(found)@),
            text::texts(found@) == before + hits(file@, every.take(i as int), query@),
            found@.len() <= max,
        decreases all@.len() - i,
    {
        proof {
            assert(every[i as int] == all@[i as int]@);
            assert(every.take(i + 1).drop_last() =~= every.take(i as int));
            assert(every.take(i + 1).last() == every[i as int]);
        }
        if contains(all[i].as_str(), query) {
            let n: String = number((i + 1) as u64);
            let bare: String = trim(all[i].as_str());
            let line: String = cat5(file, ":", n.as_str(), ": ", bare.as_str());
            let ghost so_far = text::texts(found@);
            let ghost own = line@;
            found.push(line);
            assert(text::texts(found@) =~= so_far.push(own));
            assert(text::texts(found@) =~= before + hits(file@, every.take(i + 1), query@));
            if found.len() > max {
                proof {
                    let part = hits(file@, every.take(i + 1), query@);
                    lemma_hits_begin(file@, every, query@, i + 1);
                    assert(text::texts(found@).len() == found@.len());
                    assert(part =~= goal.subrange(0, part.len() as int));
                    assert((before + goal).take(max + 1) =~= before + part);
                    if (before + goal).len() == max + 1 {
                        assert(part =~= goal);
                    }
                }
                return;
            }
        }
        i = i + 1;
    }
    assert(every.take(i as int) =~= every);
    assert(text::texts(found@).len() == found@.len());
}

/// A search on its way through a listing.
#[derive(Debug, PartialEq, Eq)]
pub struct SearchRun {
    pub request: SearchRequest,
    /// The listing.
    pub entries: Vec<DiscoveredEntry>,
    /// The first entry that was not looked at.
    pub next: usize,
    /// The matches so far, one more than asked for at most.
    pub matches: Vec<String>,
    /// Whether one more than asked for was found.
    pub done: bool,
}

/// The first entry at or after `i` that is searched, or the end.
pub open spec fn next_wanted(
    request: SearchRequest,
    list: Seq<(Seq<char>, bool)>,
    i: int,
) -> int
    decreases list.len() - i,
{
    if i >= list.len() || is_wanted(request, list[i]) {
        i
    } else {
        next_wanted(request, list, i + 1)
    }
}

impl SearchRun {
    /// No more entries were looked at than there are, and the search goes on until there is one match
    /// more than asked for.
    pub open spec fn wf(self) -> bool {
        &&& self.next <= self.entries@.len()
        &&& self.matches@.len() <= most(self.request.max_results as nat) + 1
        &&& self.done == (self.matches@.len() > most(self.request.max_results as nat))
    }

    /// Starts a search of a listing.
    pub fn start(request: SearchRequest, entries: Vec<DiscoveredEntry>) -> (r: Result<
        SearchRun,
        ToolError,
    >)
        ensures
            match r {
                Ok(run) => {
                    &&& request.query@.len() > 0
                    &&& run.wf()
                    &&& run.request == request
                    &&& run.entries == entries
                    &&& run.next == 0
                    &&& run.matches@.len() == 0
                    &&& !run.done
                },
                Err(e) => request.query@.len() == 0 && e@ == contract::wrong(
                    "query must not be empty"@,
                ),
            },
    {
        if request.query.as_str().is_empty() {
            return Err(invalid("query must not be empty"));
        }
        Ok(SearchRun { request, entries, next: 0, matches: Vec::new(), done: false })
    }

    /// Finds the next file that has to be read, and gives where it lies. There is none when more was
    /// found than asked for or the listing ends.
    pub fn next_file(&mut self, workspace: &Workspace) -> (r: Result<Option<String>, ToolError>)
        requires
            old(self).wf(),
        ensures
            final(self).wf(),
            final(self).request == old(self).request,
            final(self).entries == old(self).entries,
            final(self).matches == old(self).matches,
            final(self).done == old(self).done,
            ({
                let list = workspace::listed(old(self).entries@);
                let i = next_wanted(old(self).request, list, old(self).next as int);
                if old(self).done {
                    r matches Ok(None) && final(self).next == old(self).next
                } else if i >= list.len() {
                    r matches Ok(None) && final(self).next == list.len()
                } else {
                    &&& final(self).next == i
                    &&& match path::resolution(workspace@, list[i].0) {
                        Ok(p) => r matches Ok(Some(q)) && q@ == p,
                        Err(e) => r matches Err(f) && f@ == e,
                    }
                }
            }),
    {
        let ghost list = workspace::listed(self.entries@);
        if self.done {
            return Ok(None);
        }
        let mut i: usize = self.next;
        while i < self.entries.len()
            invariant
                self.next <= i <= self.entries@.len(),
                *self == *old(self),
                self.wf(),
                list == workspace::listed(self.entries@),
                next_wanted(self.request, list, self.next as int) == next_wanted(
                    self.request,
                    list,
                    i as int,
                ),
                !self.done,
            decreases self.entries@.len() - i,
        {
            assert(list[i as int] == (
                self.entries@[i as int].relative_path@,
                self.entries@[i as int].is_dir,
            ));
            if wants(&self.request, &self.entries[i]) {
                self.next = i;
                return match resolve_workspace_path(
                    workspace,
                    self.entries[i].relative_path.as_str(),
                ) {
                    Ok(p) => Ok(Some(p)),
                    Err(e) => Err(e),
                };
            }
            i = i + 1;
        }
        self.next = i;
        Ok(None)
    }

    /// Tells whether a file is small enough to be searched.
    pub fn is_searchable(size: u64) -> (r: bool)
        ensures
            r == (size <= MAX_SEARCHED_FILE_BYTES),
    {
        size <= MAX_SEARCHED_FILE_BYTES
    }

    /// Takes what the file at hand holds, where it could be read and is small enough. Binary files
    /// and files that are not UTF-8 are passed over.
    pub fn take(&mut self, content: &Option<Vec<u8>>)
        requires
            old(self).wf(),
            old(self).next < old(self).entries.len(),
            !old(self).done,
        ensures
            final(self).wf(),
            final(self).request == old(self).request,
            final(self).entries == old(self).entries,
            final(self).next == old(self).next + 1,
            match searched(*content) {
                Some(t) => text::texts(final(self).matches@) == first(
                    text::texts(old(self).matches@) + hits(
                        old(self).entries@[old(self).next as int].relative_path@,
                        text::lines_of(t),
                        old(self).request.query@,
                    ),
                    most(old(self).request.max_results as nat) + 1,
                ),
                None => final(self).matches == old(self).matches,
            },
    {
        let at: usize = self.next;
        self.next = at + 1;
        let max: usize = at_least_one(self.request.max_results);
        if let Some(bytes) = content {
            if !looks_binary(bytes.as_slice()) {
                if let Some(t) = decode_strict(bytes) {
                    let ghost before = text::texts(self.matches@);
                    assert(before.len() == self.matches@.len());
                    scan(
                        &mut self.matches,
                        self.entries[at].relative_path.as_str(),
                        t.as_str(),
                        self.request.query.as_str(),
                        max,
                    );
                    assert(text::texts(self.matches@).len() == self.matches@.len());
                    self.done = self.matches.len() > max;
                }
            }
        }
    }

    /// Ends the search. What is shown leaves something out exactly where more was found than asked
    /// for.
    pub fn finish(self, call_id: ToolCallId) -> (r: ToolResult)
        requires
            self.wf(),
        ensures
            r.is_plain(
                call_id,
                ToolStatus::Success,
                shown(
                    text::texts(self.matches@),
                    self.request.query@,
                    self.request.max_results as nat,
                ),
                self.matches@.len() > most(self.request.max_results as nat),
            ),
    {
        assert(text::texts(self.matches@).len() == self.matches@.len());
        let ghost all = text::texts(self.matches@);
        let max: usize = at_least_one(self.request.max_results);
        let truncated: bool = self.matches.len() > max;
        let content: String = if self.matches.len() == 0 {
            cat3("No matches found for `", self.request.query.as_str(), "`.")
        } else if truncated {
            let kept: Vec<String> = first_parts(&self.matches, max);
            assert(text::texts(kept@) =~= all.take(max as int));
            let mut told: String = join(&kept, "\n");
            let n: String = number(self.request.max_results as u64);
            let note: String = cat3("\n[Results truncated at ", n.as_str(), " matches.]");
            told.append(note.as_str());
            told
        } else {
            join(&self.matches, "\n")
        };
        ToolResult::success(call_id, ToolOutput { content, truncated })
    }
}

/// How many matches are given at most.
fn at_least_one(max: usize) -> (r: usize)
    ensures
        r == most(max as nat),
{
    if max > 0 {
        max
    } else {
        1
    }
}

/// The text that is searched, where there is one.
pub open spec fn searched(content: Option<Vec<u8>>) -> Option<Seq<char>> {
    match content {
        Some(bytes) => if !workspace::is_binary(bytes@) && vstd::utf8::valid_utf8(bytes@) {
            Some(vstd::utf8::decode_utf8(bytes@))
        } else {
            None
        },
        None => None,
    }
}

/// What is shown of matches, of which there may be one more than asked for.
pub open spec fn shown(list: Seq<Seq<char>>, query: Seq<char>, max: nat) -> Seq<char> {
    if list.len() == 0 {
        "No matches found for `"@ + query + "`."@
    } else if list.len() > most(max) {
        text::joined(list.take(most(max) as int), "\n"@) + ("\n[Results truncated at "@
            + text::decimal(max) + " matches.]"@)
    } else {
        text::joined(list, "\n"@)
    }
}

/// Files by their paths, each with its text where it is searched.
pub open spec fn all_hits(
    files: Seq<(Seq<char>, Option<Seq<char>>)>,
    query: Seq<char>,
) -> Seq<Seq<char>>
    decreases files.len(),
{
    if files.len() == 0 {
        Seq::empty()
    } else {
        all_hits(files.drop_last(), query) + (match files.last().1 {
            Some(t) => hits(files.last().0, text::lines_of(t), query),
            None => Seq::empty(),
        })
    }
}

/// The matches of a search after some files, as the search takes them one by one.
pub open spec fn taken(
    files: Seq<(Seq<char>, Option<Seq<char>>)>,
    query: Seq<char>,
    n: nat,
) -> Seq<Seq<char>>
    decreases files.len(),
{
    if files.len() == 0 {
        Seq::empty()
    } else {
        let so_far = taken(files.drop_last(), query, n);
        match files.last().1 {
            Some(t) => first(so_far + hits(files.last().0, text::lines_of(t), query), n),
            None => so_far,
        }
    }
}

/// A search that goes through files one by one keeps the first of all their matches, in the order of
/// the files and their lines. So it is cut exactly where there are more matches than asked for, whether
/// it stopped early or went through every file.
pub proof fn law_a_search_keeps_the_first_matches(
    files: Seq<(Seq<char>, Option<Seq<char>>)>,
    query: Seq<char>,
    max: nat,
)
    ensures
        taken(files, query, most(max) + 1) == first(all_hits(files, query), most(max) + 1),
        taken(files, query, most(max) + 1).len() > most(max) <==> all_hits(files, query).len() > most(
            max,
        ),
    decreases files.len(),
{
    if files.len() > 0 {
        let n = most(max) + 1;
        law_a_search_keeps_the_first_matches(files.drop_last(), query, max);
        let a = all_hits(files.drop_last(), query);
        if let Some(t) = files.last().1 {
            let b = hits(files.last().0, text::lines_of(t), query);
            if a.len() > n {
                assert(first(first(a, n) + b, n) =~= a.take(n as int));
                assert((a + b).take(n as int) =~= a.take(n as int));
            }
        } else {
            assert(a + Seq::<Seq<char>>::empty() =~= a);
        }
    }
}

/// Once one match more than asked for was found, no further file changes what was found.
pub proof fn law_a_full_search_is_over(
    files: Seq<(Seq<char>, Option<Seq<char>>)>,
    query: Seq<char>,
    max: nat,
    n: int,
)
    requires
        0 <= n <= files.len(),
        taken(files.take(n), query, most(max) + 1).len() > most(max),
    ensures
        taken(files, query, most(max) + 1) == taken(files.take(n), query, most(max) + 1),
    decreases files.len() - n,
{
    if n < files.len() {
        assert(files.take(n + 1).drop_last() =~= files.take(n));
        let so_far = taken(files.take(n), query, most(max) + 1);
        law_a_search_keeps_the_first_matches(files.take(n), query, max);
        if let Some(t) = files[n].1 {
            let b = hits(files[n].0, text::lines_of(t), query);
            assert(first(so_far + b, most(max) + 1) =~= so_far);
        }
        assert(files.take(n + 1).last() == files[n]);
        law_a_full_search_is_over(files, query, max, n + 1);
    } else {
        assert(files.take(n) =~= files);
    }
}

/// Whether a match is one of a line that holds the query.
pub open spec fn is_hit(
    hit: Seq<char>,
    file: Seq<char>,
    lines: Seq<Seq<char>>,
    query: Seq<char>,
    i: int,
) -> bool {
    &&& 0 <= i < lines.len()
    &&& hit == match_line(file, (i + 1) as nat, lines[i])
    &&& text::contains_text(lines[i], query)
}

/// Whether a match is one of some line that holds the query.
pub open spec fn is_some_hit(
    hit: Seq<char>,
    file: Seq<char>,
    lines: Seq<Seq<char>>,
    query: Seq<char>,
) -> bool {
    exists|i: int| is_hit(hit, file, lines, query, i)
}

/// Every match of a file is one of a line that holds the query.
pub proof fn law_matches_hold_the_query(
    file: Seq<char>,
    lines: Seq<Seq<char>>,
    query: Seq<char>,
    k: int,
)
    requires
        0 <= k < hits(file, lines, query).len(),
    ensures
        is_some_hit(hits(file, lines, query)[k], file, lines, query),
    decreases lines.len(),
{
    if lines.len() > 0 {
        let some = lines.drop_last();
        let so_far = hits(file, some, query);
        let hit = hits(file, lines, query)[k];
        if k < so_far.len() {
            law_matches_hold_the_query(file, some, query, k);
            let i = choose|i: int| is_hit(hit, file, some, query, i);
            assert(some[i] == lines[i]);
            assert(is_hit(hit, file, lines, query, i));
        } else {
            assert(is_hit(hit, file, lines, query, lines.len() - 1));
        }
    }
}

/// Whether a line holds a query: it is made of something, the query, and something.
pub open spec fn holds_query(line: Seq<char>, query: Seq<char>) -> bool {
    exists|i: int| 0 <= i <= line.len() - query.len() && #[trigger] line.skip(i).take(
        query.len() as int,
    ) == query
}

/// How many of the first `n` lines hold a query.
pub open spec fn holding(lines: Seq<Seq<char>>, query: Seq<char>, n: int) -> int
    decreases n,
{
    if n <= 0 {
        0
    } else {
        holding(lines, query, n - 1) + (if holds_query(lines[n - 1], query) {
            1int
        } else {
            0int
        })
    }
}

proof fn lemma_holds_query(line: Seq<char>, query: Seq<char>)
    ensures
        holds_query(line, query) <==> text::contains_text(line, query),
{
    if holds_query(line, query) {
        let i = choose|i: int| 0 <= i <= line.len() - query.len() && #[trigger] line.skip(i).take(
            query.len() as int,
        ) == query;
        assert(line.subrange(i, i + query.len()) =~= line.skip(i).take(query.len() as int));
        assert(text::occurs_at(line, query, i));
    }
    if text::contains_text(line, query) {
        let i = choose|i: int| text::occurs_at(line, query, i);
        assert(line.skip(i).take(query.len() as int) =~= line.subrange(i, i + query.len()));
    }
}

proof fn lemma_holding_grows(lines: Seq<Seq<char>>, query: Seq<char>, a: int, b: int)
    requires
        0 <= a <= b,
    ensures
        holding(lines, query, a) <= holding(lines, query, b),
    decreases b - a,
{
    if a < b {
        lemma_holding_grows(lines, query, a, b - 1);
    }
}

proof fn lemma_holding_prefix(
    lines: Seq<Seq<char>>,
    more: Seq<Seq<char>>,
    query: Seq<char>,
    n: int,
)
    requires
        0 <= n <= lines.len(),
        n <= more.len(),
        forall|i: int| 0 <= i < n ==> lines[i] == more[i],
    ensures
        holding(lines, query, n) == holding(more, query, n),
    decreases n,
{
    if n > 0 {
        lemma_holding_prefix(lines, more, query, n - 1);
    }
}

/// Every line that holds the query is a match and no other is, in the order of the lines: a match is
/// written as its file, the number of its line counted from one, and the line without the white space
/// around it.
pub proof fn law_every_line_that_holds_the_query_is_a_match(
    file: Seq<char>,
    lines: Seq<Seq<char>>,
    query: Seq<char>,
    i: int,
    left: Seq<char>,
    core: Seq<char>,
    right: Seq<char>,
)
    ensures
        hits(file, lines, query).len() == holding(lines, query, lines.len() as int),
        0 <= i < lines.len() && holds_query(lines[i], query) && lines[i] == left + core + right
            && text_laws::all_white(left) && text_laws::all_white(right) && text_laws::is_tight(core)
            ==> hits(file, lines, query)[holding(lines, query, i)] == file + ":"@ + text::decimal(
            (i + 1) as nat,
        ) + ": "@ + core,
    decreases lines.len(),
{
    if lines.len() > 0 {
        let some = lines.drop_last();
        let n = lines.len() as int;
        law_every_line_that_holds_the_query_is_a_match(file, some, query, i, left, core, right);
        lemma_holding_prefix(some, lines, query, n - 1);
        lemma_holds_query(lines.last(), query);
        if 0 <= i < n && holds_query(lines[i], query) && lines[i] == left + core + right
            && text_laws::all_white(left) && text_laws::all_white(right) && text_laws::is_tight(
            core,
        ) {
            text_laws::law_trimming_takes_the_white_space_around(left, core, right);
            if i < n - 1 {
                assert(some[i] == lines[i]);
                lemma_holding_prefix(some, lines, query, i);
                lemma_holding_grows(lines, query, i + 1, n - 1);
                assert(holding(lines, query, i + 1) == holding(lines, query, i) + 1);
                lemma_holding_grows(lines, query, 0, i);
                let k = holding(lines, query, i);
                assert(0 <= k < hits(file, some, query).len());
                assert(hits(file, lines, query)[k] == hits(file, some, query)[k]);
            } else {
                assert(hits(file, lines, query)[holding(lines, query, i)] == match_line(
                    file,
                    lines.len(),
                    lines[i],
                ));
            }
        }
    }
}

/// A file is searched where no pattern is given, or where the pattern matches its whole path or the
/// name at the path's end; a directory never is. So a pattern of a star and an ending searches exactly
/// the files whose name ends so.
pub proof fn law_files_are_searched_by_their_names(
    request: SearchRequest,
    directory: Seq<char>,
    name: Seq<char>,
    end: Seq<char>,
)
    requires
        text_laws::lacks(name, '/'),
        text_laws::lacks(end, '/'),
        builtin::is_plain(end),
    ensures
        request.glob is None ==> is_wanted(request, (name, false)) && is_wanted(
            request,
            (directory + seq!['/'] + name, false),
        ),
        !is_wanted(request, (name, true)),
        request.glob matches Some(glob) && glob@ == seq!['*'] + end ==> {
            let ends = end.len() <= name.len() && name.skip(name.len() - end.len()) == end;
            &&& is_wanted(request, (directory + seq!['/'] + name, false)) <==> ends
            &&& is_wanted(request, (name, false)) <==> ends
        },
{
    let e = Seq::<char>::empty();
    text_laws::lemma_split_lacking(name, '/');
    text_laws::lemma_split_at(directory, '/', name);
    text::lemma_split_nonempty(directory, '/');
    let whole = directory + seq!['/'] + name;
    assert(text::split_on(whole, '/').last() == name);
    builtin::law_a_star_joins_a_beginning_and_an_end(e, end, name);
    builtin::law_a_star_joins_a_beginning_and_an_end(e, end, whole);
    assert(e + seq!['*'] + end =~= seq!['*'] + end);
    assert(name.take(0) =~= e && whole.take(0) =~= e);
    if end.len() <= whole.len() && whole.skip(whole.len() - end.len()) == end {
        let tail = whole.skip(whole.len() - end.len());
        if end.len() > name.len() {
            let k = end.len() - name.len() - 1;
            assert(tail[k] == whole[directory.len() as int]);
            assert(end[k] == '/');
        } else {
            assert(name.skip(name.len() - end.len()) =~= tail);
        }
    }
    if end.len() <= name.len() && name.skip(name.len() - end.len()) == end {
        assert(whole.skip(whole.len() - end.len()) =~= name.skip(name.len() - end.len()));
    }
}

/// Matches are shown one to a line, all of them or the first as many as asked for; where there are more,
/// that is said behind them.
pub proof fn law_matches_are_shown_one_to_a_line(
    list: Seq<Seq<char>>,
    query: Seq<char>,
    max: nat,
)
    requires
        list.len() > 0,
        text_laws::all_lack(list, '\n'),
        max > 0,
    ensures
        list.len() <= max ==> text::split_on(shown(list, query, max), '\n') == list,
        list.len() > max ==> text::split_on(shown(list, query, max), '\n') == list.take(
            max as int,
        ).push("[Results truncated at "@ + text::decimal(max) + " matches.]"@),
{
    reveal_strlit("\n");
    assert("\n"@ =~= seq!['\n']);
    let e = Seq::<char>::empty();
    if list.len() <= max {
        text_laws::law_pieces_make_the_text(e, list, '\n');
    } else {
        let kept = list.take(max as int);
        assert(text_laws::all_lack(kept, '\n')) by {
            assert forall|i: int| 0 <= i < kept.len() implies text_laws::lacks(
                #[trigger] kept[i],
                '\n',
            ) by {
                assert(kept[i] == list[i]);
            }
        }
        text_laws::law_pieces_make_the_text(e, kept, '\n');
        reveal_strlit("\n[Results truncated at ");
        reveal_strlit("[Results truncated at ");
        reveal_strlit(" matches.]");
        let note = "[Results truncated at "@ + text::decimal(max) + " matches.]"@;
        let body = text::joined(kept, "\n"@);
        assert("\n[Results truncated at "@ =~= seq!['\n'] + "[Results truncated at "@);
        assert(shown(list, query, max) =~= body + seq!['\n'] + note);
        text_laws::law_a_written_number_is_read_back(max);
        assert(text_laws::lacks(note, '\n')) by {
            assert forall|i: int| 0 <= i < note.len() implies #[trigger] note[i] != '\n' by {
                let k = i - "[Results truncated at "@.len();
                if 0 <= k < text::decimal(max).len() {
                    assert(text::is_digit(text::decimal(max)[k]));
                }
            }
        }
        text_laws::lemma_split_at(body, '\n', note);
        text_laws::lemma_split_lacking(note, '\n');
        assert(kept + seq![note] =~= kept.push(note));
    }
}

} // verus!
