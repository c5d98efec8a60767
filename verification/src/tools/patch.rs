//! Parsing and applying patches.
//!
//! The format:
//!
//! ```text
//! *** Begin Patch
//! *** Update File: src/auth.rs
//!  context line
//! -removed line
//! +added line
//! *** End Patch
//! ```
//!
//! A patch may hold several `*** Update File:`, `*** Add File:` and `*** Delete File:` sections.
//! The body of an update may be split into hunks by `@@` markers; a body without one is a single
//! hunk.

use vstd::prelude::*;

use crate::text;
use crate::text_laws;
use crate::text::{
    blank, cat3, cat4, chars_of, contains, join, lines, replace, same_text, split, starts_with,
    strip_prefix, text_of, trim,
};
use crate::tools::contract;
use crate::tools::contract::{
    invalid, ChangeKind, Failure, FailureKind, FileChange, ToolError,
};
use crate::tools::files;
use crate::tools::files::FileSet;
use crate::tools::path;
use crate::tools::path::resolve_workspace_path;

verus! {

/// Consecutive lines of a file and what replaces them.
#[derive(Debug, PartialEq, Eq)]
pub struct Hunk {
    pub old_lines: Vec<String>,
    pub new_lines: Vec<String>,
}

/// The lines of a hunk.
pub struct HunkView {
    pub old_lines: Seq<Seq<char>>,
    pub new_lines: Seq<Seq<char>>,
}

impl View for Hunk {
    type V = HunkView;

    open spec fn view(&self) -> HunkView {
        HunkView { old_lines: text::texts(self.old_lines@), new_lines: text::texts(self.new_lines@) }
    }
}

/// The lines of several hunks.
pub open spec fn hunks(v: Seq<Hunk>) -> Seq<HunkView> {
    Seq::new(v.len(), |i: int| v[i]@)
}

/// What one section of a patch does to one file.
#[derive(Debug, PartialEq, Eq)]
pub enum FileOperation {
    Update { path: String, hunks: Vec<Hunk> },
    Add { path: String, content: Vec<String> },
    Delete { path: String },
}

/// What one section of a patch does, over plain sequences.
pub enum OperationView {
    Update { path: Seq<char>, hunks: Seq<HunkView> },
    Add { path: Seq<char>, content: Seq<Seq<char>> },
    Delete { path: Seq<char> },
}

impl View for FileOperation {
    type V = OperationView;

    open spec fn view(&self) -> OperationView {
        match *self {
            FileOperation::Update { path, hunks } => OperationView::Update {
                path: path@,
                hunks: self::hunks(hunks@),
            },
            FileOperation::Add { path, content } => OperationView::Add {
                path: path@,
                content: text::texts(content@),
            },
            FileOperation::Delete { path } => OperationView::Delete { path: path@ },
        }
    }
}

/// What the sections of a patch do.
pub open spec fn operations(v: Seq<FileOperation>) -> Seq<OperationView> {
    Seq::new(v.len(), |i: int| v[i]@)
}

/// Whether a line opens a section.
pub open spec fn is_section(line: Seq<char>) -> bool {
    ||| "*** Update File: "@.is_prefix_of(line)
    ||| "*** Add File: "@.is_prefix_of(line)
    ||| "*** Delete File: "@.is_prefix_of(line)
}

/// Tells whether a line opens a section.
pub fn is_section_marker(line: &str) -> (r: bool)
    ensures
        r == is_section(line@),
{
    starts_with(line, "*** Update File: ") || starts_with(line, "*** Add File: ") || starts_with(
        line,
        "*** Delete File: ",
    )
}

/// The end of the section body that begins at a line: the next line that opens a section, or the
/// end of the patch.
pub open spec fn section_end(body: Seq<Seq<char>>, i: int) -> int
    decreases body.len() - i,
{
    if i >= body.len() || is_section(body[i]) {
        i
    } else {
        section_end(body, i + 1)
    }
}

/// A section does not end before it begins.
pub proof fn lemma_section_end(body: Seq<Seq<char>>, i: int)
    ensures
        section_end(body, i) >= i,
        i <= body.len() ==> section_end(body, i) <= body.len(),
    decreases body.len() - i,
{
    if i < body.len() && !is_section(body[i]) {
        lemma_section_end(body, i + 1);
    }
}

/// The lines of a section body; none behind the end of the patch.
pub open spec fn section(body: Seq<Seq<char>>, i: int) -> Seq<Seq<char>> {
    if i > body.len() {
        Seq::empty()
    } else {
        body.subrange(i, section_end(body, i))
    }
}

/// Reading an update body: the finished hunks, the open one, whether it holds anything, and the
/// first line that no hunk can hold.
pub struct Scan {
    pub hunks: Seq<HunkView>,
    pub current: HunkView,
    pub has_content: bool,
    pub bad: Option<Seq<char>>,
}

/// A hunk without lines.
pub open spec fn no_lines() -> HunkView {
    HunkView { old_lines: Seq::empty(), new_lines: Seq::empty() }
}

/// An update body after its first lines: context lines begin with a space or are empty, removed
/// lines begin with `-` and added lines with `+`.
pub open spec fn scanned(lines: Seq<Seq<char>>) -> Scan
    decreases lines.len(),
{
    if lines.len() == 0 {
        Scan { hunks: Seq::empty(), current: no_lines(), has_content: false, bad: None }
    } else {
        let s = scanned(lines.drop_last());
        let line = lines.last();
        if s.bad is Some {
            s
        } else if "@@"@.is_prefix_of(line) {
            if s.has_content {
                Scan { hunks: s.hunks.push(s.current), current: no_lines(), has_content: false, ..s }
            } else {
                s
            }
        } else if line.len() == 0 {
            let current = HunkView {
                old_lines: s.current.old_lines.push(Seq::empty()),
                new_lines: s.current.new_lines.push(Seq::empty()),
            };
            Scan { current, has_content: true, ..s }
        } else if line[0] == ' ' {
            let current = HunkView {
                old_lines: s.current.old_lines.push(line.skip(1)),
                new_lines: s.current.new_lines.push(line.skip(1)),
            };
            Scan { current, has_content: true, ..s }
        } else if line[0] == '-' {
            let current = HunkView {
                old_lines: s.current.old_lines.push(line.skip(1)),
                ..s.current
            };
            Scan { current, has_content: true, ..s }
        } else if line[0] == '+' {
            let current = HunkView {
                new_lines: s.current.new_lines.push(line.skip(1)),
                ..s.current
            };
            Scan { current, has_content: true, ..s }
        } else {
            Scan { bad: Some(line), ..s }
        }
    }
}

/// Whether every hunk has a line by which it is found.
pub open spec fn are_located(found: Seq<HunkView>) -> bool {
    forall|i: int| 0 <= i < found.len() ==> (#[trigger] found[i]).old_lines.len() > 0
}

/// The hunks of an update body.
pub open spec fn hunks_of(lines: Seq<Seq<char>>) -> Result<Seq<HunkView>, Failure> {
    let s = scanned(lines);
    let all = if s.has_content {
        s.hunks.push(s.current)
    } else {
        s.hunks
    };
    match s.bad {
        Some(line) => Err(
            contract::wrong(
                "patch hunk line must start with ' ', '-', or '+': `"@ + line + "`"@,
            ),
        ),
        None => if all.len() == 0 {
            Err(contract::wrong("update section has no hunk content"@))
        } else if !are_located(all) {
            Err(
                contract::wrong(
                    "each hunk needs at least one context or removed line to locate its position"@,
                ),
            )
        } else {
            Ok(all)
        },
    }
}

/// Appends a line to a list of lines.
fn push_line(list: &mut Vec<String>, line: String)
    ensures
        text::texts(final(list)@) == text::texts(old(list)@).push(line@),
{
    let ghost before = text::texts(list@);
    list.push(line);
    assert(text::texts(list@) =~= before.push(line@));
}

/// Whether a line of an update body could be read.
fn scan_line(hunk: &mut Hunk, line: &str) -> (r: bool)
    ensures
        r == (line@.len() == 0 || line@[0] == ' ' || line@[0] == '-' || line@[0] == '+'),
        !r ==> *final(hunk) == *old(hunk),
        line@.len() == 0 ==> final(hunk)@ == (HunkView {
            old_lines: old(hunk)@.old_lines.push(Seq::empty()),
            new_lines: old(hunk)@.new_lines.push(Seq::empty()),
        }),
        line@.len() > 0 && line@[0] == ' ' ==> final(hunk)@ == (HunkView {
            old_lines: old(hunk)@.old_lines.push(line@.skip(1)),
            new_lines: old(hunk)@.new_lines.push(line@.skip(1)),
        }),
        line@.len() > 0 && line@[0] == '-' ==> final(hunk)@ == (HunkView {
            old_lines: old(hunk)@.old_lines.push(line@.skip(1)),
            new_lines: old(hunk)@.new_lines,
        }),
        line@.len() > 0 && line@[0] == '+' ==> final(hunk)@ == (HunkView {
            old_lines: old(hunk)@.old_lines,
            new_lines: old(hunk)@.new_lines.push(line@.skip(1)),
        }),
{
    let all: Vec<char> = chars_of(line);
    if all.len() == 0 {
        push_line(&mut hunk.old_lines, String::new());
        push_line(&mut hunk.new_lines, String::new());
        return true;
    }
    let rest: String = text_of(&all, 1, all.len());
    assert(rest@ =~= line@.skip(1));
    if all[0] == ' ' {
        push_line(&mut hunk.old_lines, rest.clone());
        push_line(&mut hunk.new_lines, rest);
        true
    } else if all[0] == '-' {
        push_line(&mut hunk.old_lines, rest);
        true
    } else if all[0] == '+' {
        push_line(&mut hunk.new_lines, rest);
        true
    } else {
        false
    }
}

proof fn lemma_bad_stays(lines: Seq<Seq<char>>, n: int)
    requires
        0 <= n <= lines.len(),
        scanned(lines.take(n)).bad is Some,
    ensures
        scanned(lines).bad == scanned(lines.take(n)).bad,
    decreases lines.len() - n,
{
    if n < lines.len() {
        assert(lines.take(n + 1).drop_last() =~= lines.take(n));
        lemma_bad_stays(lines, n + 1);
    } else {
        assert(lines.take(n) =~= lines);
    }
}

/// Tells whether every hunk has a line by which it is found.
fn check_located(found: &Vec<Hunk>) -> (r: bool)
    ensures
        r == are_located(hunks(found@)),
{
    let ghost every = hunks(found@);
    let mut i: usize = 0;
    while i < found.len()
        invariant
            i <= found@.len(),
            every == hunks(found@),
            forall|j: int| 0 <= j < i ==> (#[trigger] every[j]).old_lines.len() > 0,
        decreases found@.len() - i,
    {
        assert(every[i as int] == found@[i as int]@);
        if found[i].old_lines.len() == 0 {
            return false;
        }
        i = i + 1;
    }
    true
}

/// Reads the hunks of the update body that begins at a line, and gives where it ends.
pub fn parse_hunks(body: &Vec<String>, start: usize) -> (r: Result<(Vec<Hunk>, usize), ToolError>)
    ensures
        match r {
            Ok((found, next)) => hunks_of(section(text::texts(body@), start as int)) == Ok::<
                Seq<HunkView>,
                Failure,
            >(hunks(found@)) && next == section_end(text::texts(body@), start as int),
            Err(e) => hunks_of(section(text::texts(body@), start as int)) == Err::<
                Seq<HunkView>,
                Failure,
            >(e@),
        },
{
    let ghost all = text::texts(body@);
    let ghost end = section_end(all, start as int);
    proof {
        lemma_section_end(all, start as int);
    }
    let ghost own = section(all, start as int);
    if start > body.len() {
        return Err(invalid("update section has no hunk content"));
    }
    let mut index: usize = start;
    let mut found: Vec<Hunk> = Vec::new();
    let mut current: Hunk = Hunk { old_lines: Vec::new(), new_lines: Vec::new() };
    let mut has_content: bool = false;
    assert(hunks(found@) =~= Seq::empty());
    assert(current@.old_lines =~= Seq::empty());
    assert(current@.new_lines =~= Seq::empty());
    assert(own.take(0) =~= Seq::empty());
    while index < body.len() && !is_section_marker(body[index].as_str())
        invariant
            start <= index <= end <= body@.len(),
            all == text::texts(body@),
            end == section_end(all, start as int),
            section_end(all, index as int) == end,
            own == all.subrange(start as int, end),
            scanned(own.take(index - start)) == (Scan {
                hunks: hunks(found@),
                current: current@,
                has_content,
                bad: None,
            }),
        decreases body@.len() - index,
    {
        let line: &String = &body[index];
        let ghost n = index - start;
        proof {
            assert(all[index as int] == line@);
            lemma_section_end(all, index as int + 1);
            assert(own.take(n + 1).drop_last() =~= own.take(n));
            assert(own.take(n + 1).last() == line@);
        }
        if starts_with(line.as_str(), "@@") {
            if has_content {
                let ghost before = hunks(found@);
                let ghost open = current@;
                let mut fresh: Hunk = Hunk { old_lines: Vec::new(), new_lines: Vec::new() };
                std::mem::swap(&mut current, &mut fresh);
                found.push(fresh);
                has_content = false;
                assert(hunks(found@) =~= before.push(open));
                assert(current@.old_lines =~= Seq::empty());
                assert(current@.new_lines =~= Seq::empty());
            }
        } else if scan_line(&mut current, line.as_str()) {
            has_content = true;
        } else {
            proof {
                lemma_bad_stays(own, n + 1);
            }
            return Err(
                invalid(
                    cat3(
                        "patch hunk line must start with ' ', '-', or '+': `",
                        line.as_str(),
                        "`",
                    ).as_str(),
                ),
            );
        }
        index = index + 1;
    }
    assert(index == end);
    assert(own.take(index - start) =~= own);
    if has_content {
        let ghost before = hunks(found@);
        let ghost open = current@;
        found.push(current);
        assert(hunks(found@) =~= before.push(open));
    }
    if found.len() == 0 {
        return Err(invalid("update section has no hunk content"));
    }
    if !check_located(&found) {
        return Err(
            invalid("each hunk needs at least one context or removed line to locate its position"),
        );
    }
    Ok((found, index))
}

/// A line of a new file, which may stand behind a `+`.
pub open spec fn added(line: Seq<char>) -> Seq<char> {
    if line.len() > 0 && line[0] == '+' {
        line.skip(1)
    } else {
        line
    }
}

/// The lines of a new file.
pub open spec fn added_lines(lines: Seq<Seq<char>>) -> Seq<Seq<char>> {
    Seq::new(lines.len(), |i: int| added(lines[i]))
}

/// Reads the lines of the new file whose section body begins at a line, and gives where it ends.
pub fn parse_add_body(body: &Vec<String>, start: usize) -> (r: (Vec<String>, usize))
    ensures
        text::texts(r.0@) == added_lines(section(text::texts(body@), start as int)),
        r.1 == section_end(text::texts(body@), start as int),
{
    let ghost all = text::texts(body@);
    let ghost end = section_end(all, start as int);
    proof {
        lemma_section_end(all, start as int);
    }
    let mut index: usize = start;
    let mut content: Vec<String> = Vec::new();
    if start > body.len() {
        assert(text::texts(content@) =~= added_lines(section(all, start as int)));
        return (content, start);
    }
    while index < body.len() && !is_section_marker(body[index].as_str())
        invariant
            start <= index <= end <= body@.len(),
            all == text::texts(body@),
            section_end(all, index as int) == end,
            text::texts(content@) =~= added_lines(all.subrange(start as int, index as int)),
        decreases body@.len() - index,
    {
        let line: &String = &body[index];
        proof {
            assert(all[index as int] == line@);
            lemma_section_end(all, index as int + 1);
        }
        let chars: Vec<char> = chars_of(line.as_str());
        let own: String = if chars.len() > 0 && chars[0] == '+' {
            let rest: String = text_of(&chars, 1, chars.len());
            assert(rest@ =~= line@.skip(1));
            rest
        } else {
            line.clone()
        };
        push_line(&mut content, own);
        index = index + 1;
    }
    (content, index)
}

/// A first operation before others, unless those could not be read.
pub open spec fn after_operations(
    done: Seq<OperationView>,
    rest: Result<Seq<OperationView>, Failure>,
) -> Result<Seq<OperationView>, Failure> {
    match rest {
        Ok(more) => Ok(done + more),
        Err(e) => Err(e),
    }
}

/// The operations of the sections that begin at or after a line.
pub open spec fn sections(body: Seq<Seq<char>>, i: int) -> Result<Seq<OperationView>, Failure>
    decreases body.len() - i,
{
    proof {
        lemma_section_end(body, i + 1);
    }
    if i >= body.len() {
        Ok(Seq::empty())
    } else if let Some(name) = text::after_prefix(body[i], "*** Update File: "@) {
        match hunks_of(section(body, i + 1)) {
            Ok(found) => after_operations(
                seq![OperationView::Update { path: text::trimmed(name), hunks: found }],
                sections(body, section_end(body, i + 1)),
            ),
            Err(e) => Err(e),
        }
    } else if let Some(name) = text::after_prefix(body[i], "*** Add File: "@) {
        after_operations(
            seq![
                OperationView::Add {
                    path: text::trimmed(name),
                    content: added_lines(section(body, i + 1)),
                },
            ],
            sections(body, section_end(body, i + 1)),
        )
    } else if let Some(name) = text::after_prefix(body[i], "*** Delete File: "@) {
        after_operations(
            seq![OperationView::Delete { path: text::trimmed(name) }],
            sections(body, i + 1),
        )
    } else if text::is_blank(body[i]) {
        sections(body, i + 1)
    } else {
        Err(contract::wrong("unrecognized patch line: `"@ + body[i] + "`"@))
    }
}

/// The first line at or after `i` that closes a patch, or the end.
pub open spec fn closing(lines: Seq<Seq<char>>, i: int) -> int
    decreases lines.len() - i,
{
    if i >= lines.len() || text::trimmed(lines[i]) == "*** End Patch"@ {
        i
    } else {
        closing(lines, i + 1)
    }
}

/// The operations of a patch. What stands behind its closing line is ignored.
pub open spec fn parsed(patch: Seq<char>) -> Result<Seq<OperationView>, Failure> {
    let lines = text::lines_of(patch);
    let end = closing(lines, 1);
    if lines.len() == 0 {
        Err(contract::wrong("patch is empty"@))
    } else if text::trimmed(lines[0]) != "*** Begin Patch"@ {
        Err(contract::wrong("patch must start with `*** Begin Patch`"@))
    } else if end >= lines.len() {
        Err(contract::wrong("patch must end with `*** End Patch`"@))
    } else {
        match sections(lines.subrange(1, end), 0) {
            Ok(found) => if found.len() == 0 {
                Err(contract::wrong("patch contains no file operations"@))
            } else {
                Ok(found)
            },
            Err(e) => Err(e),
        }
    }
}

/// The operations or what is wrong with the patch.
pub open spec fn parse_outcome(r: Result<Vec<FileOperation>, ToolError>) -> Result<
    Seq<OperationView>,
    Failure,
> {
    match r {
        Ok(v) => Ok(operations(v@)),
        Err(e) => Err(e@),
    }
}

/// Appends an operation.
fn push_operation(list: &mut Vec<FileOperation>, op: FileOperation)
    ensures
        operations(final(list)@) == operations(old(list)@).push(op@),
{
    let ghost before = operations(list@);
    list.push(op);
    assert(operations(list@) =~= before.push(op@));
}

/// Reads the sections of a patch.
fn parse_sections(body: &Vec<String>) -> (r: Result<Vec<FileOperation>, ToolError>)
    ensures
        parse_outcome(r) == sections(text::texts(body@), 0),
{
    let ghost all = text::texts(body@);
    let mut found: Vec<FileOperation> = Vec::new();
    let mut index: usize = 0;
    proof {
        let whole = sections(all, 0);
        if let Ok(more) = whole {
            assert(operations(found@) + more =~= more);
        }
    }
    while index < body.len()
        invariant
            index <= body@.len(),
            all == text::texts(body@),
            sections(all, 0) == after_operations(operations(found@), sections(all, index as int)),
        decreases body@.len() - index,
    {
        let line: &String = &body[index];
        let ghost before = operations(found@);
        proof {
            assert(all[index as int] == line@);
            lemma_section_end(all, index as int + 1);
        }
        if let Some(name) = strip_prefix(line.as_str(), "*** Update File: ") {
            match parse_hunks(body, index + 1) {
                Ok((own, next)) => {
                    push_operation(
                        &mut found,
                        FileOperation::Update { path: trim(name.as_str()), hunks: own },
                    );
                    index = next;
                },
                Err(e) => {
                    return Err(e);
                },
            }
        } else if let Some(name) = strip_prefix(line.as_str(), "*** Add File: ") {
            let (content, next) = parse_add_body(body, index + 1);
            push_operation(
                &mut found,
                FileOperation::Add { path: trim(name.as_str()), content },
            );
            index = next;
        } else if let Some(name) = strip_prefix(line.as_str(), "*** Delete File: ") {
            push_operation(&mut found, FileOperation::Delete { path: trim(name.as_str()) });
            index = index + 1;
        } else if blank(line.as_str()) {
            index = index + 1;
        } else {
            return Err(
                invalid(cat3("unrecognized patch line: `", line.as_str(), "`").as_str()),
            );
        }
        proof {
            if let Ok(more) = sections(all, index as int) {
                if operations(found@).len() > before.len() {
                    let op = operations(found@).last();
                    assert(before.push(op) + more =~= before + (seq![op] + more));
                }
            }
        }
    }
    proof {
        assert(operations(found@) + Seq::<OperationView>::empty() =~= operations(found@));
    }
    Ok(found)
}

/// Finds the line that closes a patch.
fn find_closing(all: &Vec<String>) -> (r: usize)
    requires
        all@.len() > 0,
    ensures
        1 <= r <= all@.len(),
        r == closing(text::texts(all@), 1),
{
    let ghost every = text::texts(all@);
    let mut i: usize = 1;
    while i < all.len()
        invariant
            1 <= i <= all@.len(),
            every == text::texts(all@),
            closing(every, 1) == closing(every, i as int),
        decreases all@.len() - i,
    {
        assert(every[i as int] == all@[i as int]@);
        let bare: String = trim(all[i].as_str());
        if same_text(bare.as_str(), "*** End Patch") {
            return i;
        }
        i = i + 1;
    }
    i
}

/// Parses a patch into its operations, in order.
pub fn parse_patch(patch: &str) -> (r: Result<Vec<FileOperation>, ToolError>)
    ensures
        parse_outcome(r) == parsed(patch@),
{
    let all: Vec<String> = lines(patch);
    let ghost every = text::texts(all@);
    if all.len() == 0 {
        return Err(invalid("patch is empty"));
    }
    assert(every[0] == all@[0]@);
    let first: String = trim(all[0].as_str());
    if !same_text(first.as_str(), "*** Begin Patch") {
        return Err(invalid("patch must start with `*** Begin Patch`"));
    }
    let end: usize = find_closing(&all);
    if end >= all.len() {
        return Err(invalid("patch must end with `*** End Patch`"));
    }
    let mut body: Vec<String> = Vec::new();
    let mut i: usize = 1;
    while i < end
        invariant
            1 <= i <= end <= all@.len(),
            every == text::texts(all@),
            text::texts(body@) =~= every.subrange(1, i as int),
        decreases end - i,
    {
        push_line(&mut body, all[i].clone());
        i = i + 1;
    }
    match parse_sections(&body) {
        Ok(found) => {
            if found.len() == 0 {
                Err(invalid("patch contains no file operations"))
            } else {
                Ok(found)
            }
        },
        Err(e) => Err(e),
    }
}

/// A file's lines, the line ending between them, and whether the last one is closed by it.
#[derive(Debug, PartialEq, Eq)]
pub struct SplitContent {
    pub lines: Vec<String>,
    pub ending: String,
    pub trailing_newline: bool,
}

/// The line ending of a text: CR LF where one stands in it.
pub open spec fn ending(c: Seq<char>) -> Seq<char> {
    if text::contains_text(c, "\r\n"@) {
        "\r\n"@
    } else {
        "\n"@
    }
}

/// A text with LF for every CR LF.
pub open spec fn unified(c: Seq<char>) -> Seq<char> {
    text::replaced(c, "\r\n"@, "\n"@)
}

/// Whether the last line of a text is closed by a line ending.
pub open spec fn is_closed(c: Seq<char>) -> bool {
    unified(c).len() > 0 && unified(c).last() == '\n'
}

/// The lines of a text.
pub open spec fn content_lines(c: Seq<char>) -> Seq<Seq<char>> {
    if is_closed(c) {
        text::split_on(unified(c).drop_last(), '\n')
    } else if unified(c).len() == 0 {
        Seq::empty()
    } else {
        text::split_on(unified(c), '\n')
    }
}

/// Splits a text into its lines.
pub fn split_content(content: &str) -> (r: SplitContent)
    ensures
        text::texts(r.lines@) == content_lines(content@),
        r.ending@ == ending(content@),
        r.trailing_newline == is_closed(content@),
{
    let end: &str = if contains(content, "\r\n") {
        "\r\n"
    } else {
        "\n"
    };
    proof {
        reveal_strlit("\r\n");
    }
    let plain: String = replace(content, "\r\n", "\n");
    let all: Vec<char> = chars_of(plain.as_str());
    let closed: bool = all.len() > 0 && all[all.len() - 1] == '\n';
    let lines: Vec<String> = if closed {
        let bare: String = text_of(&all, 0, all.len() - 1);
        assert(bare@ =~= plain@.drop_last());
        split(bare.as_str(), '\n')
    } else if all.len() == 0 {
        Vec::new()
    } else {
        split(plain.as_str(), '\n')
    };
    assert(all.len() == 0 ==> text::texts(lines@) =~= Seq::empty());
    SplitContent { lines, ending: end.to_owned(), trailing_newline: closed }
}

/// The text of lines.
pub open spec fn content_text(lines: Seq<Seq<char>>, end: Seq<char>, closed: bool) -> Seq<char> {
    if closed && lines.len() > 0 {
        text::joined(lines, end) + end
    } else {
        text::joined(lines, end)
    }
}

/// Joins lines into a text.
pub fn join_content(lines: &Vec<String>, end: &str, trailing_newline: bool) -> (r: String)
    ensures
        r@ == content_text(text::texts(lines@), end@, trailing_newline),
{
    let mut all: String = join(lines, end);
    if trailing_newline && lines.len() > 0 {
        all.append(end);
    }
    all
}

/// Whether a list of lines stands among others at an index.
pub open spec fn stands_at(
    haystack: Seq<Seq<char>>,
    needle: Seq<Seq<char>>,
    i: int,
) -> bool {
    0 <= i && i + needle.len() <= haystack.len() && haystack.subrange(i, i + needle.len()) == needle
}

/// The first place at or after `from` where a nonempty list of lines stands, or -1.
pub open spec fn place(haystack: Seq<Seq<char>>, needle: Seq<Seq<char>>, from: int) -> int
    decreases haystack.len() - from,
{
    if needle.len() == 0 || from + needle.len() > haystack.len() {
        -1
    } else if stands_at(haystack, needle, from) {
        from
    } else {
        place(haystack, needle, from + 1)
    }
}

/// Tells whether a list of lines stands among others at an index.
fn matches_lines(haystack: &Vec<String>, needle: &Vec<String>, at: usize) -> (r: bool)
    requires
        at + needle@.len() <= haystack.len(),
    ensures
        r == stands_at(text::texts(haystack@), text::texts(needle@), at as int),
{
    let ghost h = text::texts(haystack@);
    let ghost n = text::texts(needle@);
    let ghost part = h.subrange(at as int, at + n.len());
    let mut i: usize = 0;
    while i < needle.len()
        invariant
            i <= needle@.len(),
            at + needle@.len() <= haystack.len(),
            h == text::texts(haystack@),
            n == text::texts(needle@),
            part == h.subrange(at as int, at + n.len()),
            forall|j: int| 0 <= j < i ==> part[j] == n[j],
        decreases needle@.len() - i,
    {
        assert(part[i as int] == haystack@[at + i]@);
        assert(n[i as int] == needle@[i as int]@);
        if !same_text(haystack[at + i].as_str(), needle[i].as_str()) {
            return false;
        }
        i = i + 1;
    }
    assert(part =~= n);
    true
}

/// Finds the first place at or after `from` where a nonempty list of lines stands.
pub fn find_subsequence(haystack: &Vec<String>, needle: &Vec<String>, from: usize) -> (r: Option<
    usize,
>)
    ensures
        match r {
            Some(i) => place(text::texts(haystack@), text::texts(needle@), from as int) == i,
            None => place(text::texts(haystack@), text::texts(needle@), from as int) == -1,
        },
{
    let ghost h = text::texts(haystack@);
    let ghost n = text::texts(needle@);
    if needle.len() == 0 || needle.len() > haystack.len() {
        return None;
    }
    let last: usize = haystack.len() - needle.len();
    let mut at: usize = from;
    while at <= last
        invariant
            from <= at,
            last == haystack.len() - needle@.len(),
            needle@.len() > 0,
            h == text::texts(haystack@),
            n == text::texts(needle@),
            place(h, n, from as int) == place(h, n, at as int),
        decreases last + 1 - at,
    {
        if matches_lines(haystack, needle, at) {
            return Some(at);
        }
        at = at + 1;
    }
    None
}

proof fn lemma_place(haystack: Seq<Seq<char>>, needle: Seq<Seq<char>>, from: int)
    requires
        0 <= from,
    ensures
        place(haystack, needle, from) >= -1,
        place(haystack, needle, from) >= 0 ==> from <= place(haystack, needle, from) && place(
            haystack,
            needle,
            from,
        ) + needle.len() <= haystack.len(),
    decreases haystack.len() - from,
{
    if !(needle.len() == 0 || from + needle.len() > haystack.len()) && !stands_at(
        haystack,
        needle,
        from,
    ) {
        lemma_place(haystack, needle, from + 1);
    }
}

/// Lines with some of them replaced.
pub open spec fn spliced(
    lines: Seq<Seq<char>>,
    at: int,
    cut: int,
    new_lines: Seq<Seq<char>>,
) -> Seq<Seq<char>> {
    lines.take(at) + new_lines + lines.skip(at + cut)
}

/// Replaces some lines.
fn splice(lines: &Vec<String>, at: usize, cut: usize, new_lines: &Vec<String>) -> (r: Vec<String>)
    requires
        at + cut <= lines.len(),
    ensures
        text::texts(r@) == spliced(
            text::texts(lines@),
            at as int,
            cut as int,
            text::texts(new_lines@),
        ),
{
    let ghost all = text::texts(lines@);
    let ghost own = text::texts(new_lines@);
    let mut r: Vec<String> = Vec::new();
    let mut i: usize = 0;
    while i < at
        invariant
            i <= at <= lines@.len(),
            all == text::texts(lines@),
            text::texts(r@) =~= all.take(i as int),
        decreases at - i,
    {
        push_line(&mut r, lines[i].clone());
        i = i + 1;
    }
    let mut j: usize = 0;
    while j < new_lines.len()
        invariant
            j <= new_lines@.len(),
            at <= all.len(),
            own == text::texts(new_lines@),
            text::texts(r@) =~= all.take(at as int) + own.take(j as int),
        decreases new_lines@.len() - j,
    {
        push_line(&mut r, new_lines[j].clone());
        j = j + 1;
    }
    assert(own.take(own.len() as int) =~= own);
    let from: usize = at + cut;
    let mut k: usize = from;
    while k < lines.len()
        invariant
            from <= k <= lines@.len(),
            at + cut == from,
            all == text::texts(lines@),
            text::texts(r@) =~= all.take(at as int) + own + all.subrange(from as int, k as int),
        decreases lines@.len() - k,
    {
        push_line(&mut r, lines[k].clone());
        k = k + 1;
    }
    assert(all.subrange(from as int, k as int) =~= all.skip(from as int));
    r
}

/// Applying hunks one after the other: the lines so far and where the next hunk is looked for, or
/// nothing when one was not found.
pub open spec fn patched(lines: Seq<Seq<char>>, todo: Seq<HunkView>) -> Option<
    (Seq<Seq<char>>, int),
>
    decreases todo.len(),
{
    if todo.len() == 0 {
        Some((lines, 0))
    } else {
        match patched(lines, todo.drop_last()) {
            Some((so_far, cursor)) => {
                let hunk = todo.last();
                let at = place(so_far, hunk.old_lines, cursor);
                if at < 0 {
                    None
                } else {
                    Some(
                        (
                            spliced(so_far, at, hunk.old_lines.len() as int, hunk.new_lines),
                            at + hunk.new_lines.len(),
                        ),
                    )
                }
            },
            None => None,
        }
    }
}

/// A text after its hunks were applied, each at or after the end of the one before.
pub open spec fn updated(c: Seq<char>, todo: Seq<HunkView>, name: Seq<char>) -> Result<
    Seq<char>,
    Failure,
> {
    match patched(content_lines(c), todo) {
        Some((lines, _)) => Ok(content_text(lines, ending(c), is_closed(c))),
        None => Err(
            contract::wrong(
                "patch could not be applied because the expected context in `"@ + name
                    + "` no longer matches the file; read the file again and generate a new patch"@,
            ),
        ),
    }
}

proof fn lemma_unplaced_stays(lines: Seq<Seq<char>>, todo: Seq<HunkView>, n: int)
    requires
        0 <= n <= todo.len(),
        patched(lines, todo.take(n)) is None,
    ensures
        patched(lines, todo) is None,
    decreases todo.len() - n,
{
    if n < todo.len() {
        assert(todo.take(n + 1).drop_last() =~= todo.take(n));
        lemma_unplaced_stays(lines, todo, n + 1);
    } else {
        assert(todo.take(n) =~= todo);
    }
}

/// Applies hunks to a text.
pub fn apply_hunks(original: &str, todo: &Vec<Hunk>, display_path: &str) -> (r: Result<
    String,
    ToolError,
>)
    ensures
        contract::outcome(r) == updated(original@, hunks(todo@), display_path@),
{
    let parts: SplitContent = split_content(original);
    let ghost first = text::texts(parts.lines@);
    let ghost every = hunks(todo@);
    let end: String = parts.ending;
    let closed: bool = parts.trailing_newline;
    let mut all: Vec<String> = parts.lines;
    let mut cursor: usize = 0;
    let mut i: usize = 0;
    assert(every.take(0) =~= Seq::empty());
    while i < todo.len()
        invariant
            i <= todo@.len(),
            every == hunks(todo@),
            first == content_lines(original@),
            cursor <= all@.len(),
            patched(first, every.take(i as int)) == Some((text::texts(all@), cursor as int)),
        decreases todo@.len() - i,
    {
        let hunk: &Hunk = &todo[i];
        proof {
            assert(every[i as int] == hunk@);
            assert(every.take(i + 1).drop_last() =~= every.take(i as int));
            assert(every.take(i + 1).last() == hunk@);
            lemma_place(text::texts(all@), hunk@.old_lines, cursor as int);
        }
        match find_subsequence(&all, &hunk.old_lines, cursor) {
            Some(at) => {
                let next: Vec<String> = splice(&all, at, hunk.old_lines.len(), &hunk.new_lines);
                assert(text::texts(next@).len() == next.len());
                all = next;
                cursor = at + hunk.new_lines.len();
            },
            None => {
                proof {
                    lemma_unplaced_stays(first, every, i + 1);
                }
                return Err(
                    invalid(
                        cat3(
                            "patch could not be applied because the expected context in `",
                            display_path,
                            "` no longer matches the file; read the file again and generate a new patch",
                        ).as_str(),
                    ),
                );
            },
        }
        i = i + 1;
    }
    assert(every.take(i as int) =~= every);
    Ok(join_content(&all, end.as_str(), closed))
}

/// The file that an operation names.
pub open spec fn named(op: OperationView) -> Seq<char> {
    match op {
        OperationView::Update { path, .. } => path,
        OperationView::Add { path, .. } => path,
        OperationView::Delete { path } => path,
    }
}

/// The files that operations name, in order.
pub open spec fn all_named(ops: Seq<OperationView>) -> Seq<Seq<char>> {
    Seq::new(ops.len(), |i: int| named(ops[i]))
}

/// Gives the files that a patch speaks of, as they are named there; none for a text that is no patch.
pub fn named_files(patch: &str) -> (r: Vec<String>)
    ensures
        text::texts(r@) == (match parsed(patch@) {
            Ok(ops) => all_named(ops),
            Err(_) => Seq::empty(),
        }),
{
    let mut r: Vec<String> = Vec::new();
    let ops: Vec<FileOperation> = match parse_patch(patch) {
        Ok(ops) => ops,
        Err(_) => {
            assert(text::texts(r@) =~= Seq::empty());
            return r;
        },
    };
    let ghost all = operations(ops@);
    let mut i: usize = 0;
    while i < ops.len()
        invariant
            i <= ops@.len(),
            all == operations(ops@),
            r@.len() == i,
            forall|j: int| 0 <= j < i ==> (#[trigger] r@[j])@ == named(all[j]),
        decreases ops@.len() - i,
    {
        assert(all[i as int] == ops@[i as int]@);
        let path: &String = match &ops[i] {
            FileOperation::Update { path, .. } => path,
            FileOperation::Add { path, .. } => path,
            FileOperation::Delete { path } => path,
        };
        r.push(path.clone());
        i = i + 1;
    }
    assert(text::texts(r@) =~= all_named(all));
    r
}

/// What an operation reports.
pub open spec fn change(op: OperationView) -> (Seq<char>, ChangeKind) {
    match op {
        OperationView::Update { path, .. } => (path, ChangeKind::Modified),
        OperationView::Add { path, .. } => (path, ChangeKind::Created),
        OperationView::Delete { path } => (path, ChangeKind::Deleted),
    }
}

/// The content of a new file.
pub open spec fn new_content(lines: Seq<Seq<char>>) -> Seq<char> {
    if lines.len() == 0 {
        Seq::empty()
    } else {
        text::joined(lines, "\n"@) + "\n"@
    }
}

/// The files after one operation.
pub open spec fn operated(
    site: path::Site,
    before: files::Contents,
    op: OperationView,
) -> Result<files::Contents, Failure> {
    match path::resolution(site, named(op)) {
        Err(e) => Err(e),
        Ok(target) => match op {
            OperationView::Update { path, hunks } => match files::at(before, target) {
                Some(files::Entry::Text(c)) => match updated(c, hunks, path) {
                    Ok(new) => files::written(before, target, new),
                    Err(e) => Err(e),
                },
                Some(files::Entry::Unreadable(why)) => Err(
                    Failure {
                        kind: FailureKind::Io,
                        text: "could not read "@ + target + ": "@ + why,
                    },
                ),
                _ => Err(Failure { kind: FailureKind::NotFound, text: target }),
            },
            OperationView::Add { path, content } => if files::exists_at(before, target) {
                Err(
                    contract::wrong(
                        "`"@ + path + "` already exists; use an Update File section instead"@,
                    ),
                )
            } else {
                files::written(before, target, new_content(content))
            },
            OperationView::Delete { path } => if files::is_file(before, target) {
                files::erased(before, target)
            } else {
                Err(Failure { kind: FailureKind::NotFound, text: target })
            },
        },
    }
}

/// Performs one operation. Where it fails, no file is changed.
pub fn apply_operation(all: &mut FileSet, op: &FileOperation) -> (r: Result<FileChange, ToolError>)
    ensures
        final(all).workspace == old(all).workspace,
        old(all).wf() ==> final(all).wf(),
        match operated(old(all).workspace@, old(all)@, op@) {
            Ok(after) => final(all)@ == after && (r matches Ok(c) && (c.path@, c.kind) == change(
                op@,
            )),
            Err(e) => *final(all) == *old(all) && (r matches Err(f) && f@ == e),
        },
{
    match op {
        FileOperation::Update { path, hunks } => {
            let target: String = match resolve_workspace_path(&all.workspace, path.as_str()) {
                Ok(t) => t,
                Err(e) => {
                    return Err(e);
                },
            };
            if let Some(why) = all.why_unreadable(target.as_str()) {
                return Err(
                    ToolError::Io(cat4("could not read ", target.as_str(), ": ", why.as_str())),
                );
            }
            match all.read(target.as_str()) {
                None => Err(ToolError::NotFound(target)),
                Some(original) => match apply_hunks(original.as_str(), hunks, path.as_str()) {
                    Ok(new) => match all.write(target.as_str(), new.as_str()) {
                        Ok(_) => Ok(FileChange { path: path.clone(), kind: ChangeKind::Modified }),
                        Err(e) => Err(e),
                    },
                    Err(e) => Err(e),
                },
            }
        },
        FileOperation::Add { path, content } => {
            let target: String = match resolve_workspace_path(&all.workspace, path.as_str()) {
                Ok(t) => t,
                Err(e) => {
                    return Err(e);
                },
            };
            if all.is_present(target.as_str()) {
                return Err(
                    invalid(
                        cat3(
                            "`",
                            path.as_str(),
                            "` already exists; use an Update File section instead",
                        ).as_str(),
                    ),
                );
            }
            let mut new: String = join(content, "\n");
            assert(content@.len() == 0 ==> new@ =~= Seq::empty());
            if content.len() > 0 {
                new.append("\n");
            }
            match all.write(target.as_str(), new.as_str()) {
                Ok(_) => Ok(FileChange { path: path.clone(), kind: ChangeKind::Created }),
                Err(e) => Err(e),
            }
        },
        FileOperation::Delete { path } => {
            let target: String = match resolve_workspace_path(&all.workspace, path.as_str()) {
                Ok(t) => t,
                Err(e) => {
                    return Err(e);
                },
            };
            if !all.holds_file(target.as_str()) {
                return Err(ToolError::NotFound(target));
            }
            match all.remove(target.as_str()) {
                Ok(_) => Ok(FileChange { path: path.clone(), kind: ChangeKind::Deleted }),
                Err(e) => Err(e),
            }
        },
    }
}

/// Performing operations one after the other until one fails: the files so far, and the failure.
pub struct Progress {
    pub files: files::Contents,
    pub failure: Option<Failure>,
}

/// The files after a list of operations. Those before a failing one stay performed.
pub open spec fn performed(
    site: path::Site,
    before: files::Contents,
    ops: Seq<OperationView>,
) -> Progress
    decreases ops.len(),
{
    if ops.len() == 0 {
        Progress { files: before, failure: None }
    } else {
        let p = performed(site, before, ops.drop_last());
        if p.failure is Some {
            p
        } else {
            match operated(site, p.files, ops.last()) {
                Ok(after) => Progress { files: after, failure: None },
                Err(e) => Progress { files: p.files, failure: Some(e) },
            }
        }
    }
}

/// What a list of operations reports.
pub open spec fn changes(ops: Seq<OperationView>) -> Seq<(Seq<char>, ChangeKind)> {
    Seq::new(ops.len(), |i: int| change(ops[i]))
}

proof fn lemma_failure_stays(
    site: path::Site,
    before: files::Contents,
    ops: Seq<OperationView>,
    n: int,
)
    requires
        0 <= n <= ops.len(),
        performed(site, before, ops.take(n)).failure is Some,
    ensures
        performed(site, before, ops) == performed(site, before, ops.take(n)),
    decreases ops.len() - n,
{
    if n < ops.len() {
        assert(ops.take(n + 1).drop_last() =~= ops.take(n));
        lemma_failure_stays(site, before, ops, n + 1);
    } else {
        assert(ops.take(n) =~= ops);
    }
}

/// Applies a patch to the files of a workspace and reports each change.
///
/// Every file must resolve inside the workspace. Where an operation fails it changes nothing, but
/// the operations before it stay performed.
pub fn apply_patch(all: &mut FileSet, patch: &str) -> (r: Result<Vec<FileChange>, ToolError>)
    ensures
        final(all).workspace == old(all).workspace,
        old(all).wf() ==> final(all).wf(),
        match parsed(patch@) {
            Err(e) => *final(all) == *old(all) && (r matches Err(f) && f@ == e),
            Ok(ops) => {
                let p = performed(old(all).workspace@, old(all)@, ops);
                &&& final(all)@ == p.files
                &&& match p.failure {
                    Some(e) => r matches Err(f) && f@ == e,
                    None => r matches Ok(list) && contract::reported(list@) == changes(ops),
                }
            },
        },
{
    let todo: Vec<FileOperation> = match parse_patch(patch) {
        Ok(v) => v,
        Err(e) => {
            return Err(e);
        },
    };
    let ghost ops = operations(todo@);
    let ghost site = all.workspace@;
    let ghost before = all@;
    let ghost sound = all.wf();
    let mut list: Vec<FileChange> = Vec::new();
    let mut i: usize = 0;
    assert(ops.take(0) =~= Seq::empty());
    while i < todo.len()
        invariant
            i <= todo@.len(),
            ops == operations(todo@),
            parsed(patch@) == Ok::<Seq<OperationView>, Failure>(ops),
            site == all.workspace@,
            site == old(all).workspace@,
            all.workspace == old(all).workspace,
            before == old(all)@,
            sound == old(all).wf(),
            sound ==> all.wf(),
            performed(site, before, ops.take(i as int)) == (Progress {
                files: all@,
                failure: None,
            }),
            contract::reported(list@) =~= changes(ops.take(i as int)),
        decreases todo@.len() - i,
    {
        proof {
            assert(ops[i as int] == todo@[i as int]@);
            assert(ops.take(i + 1).drop_last() =~= ops.take(i as int));
            assert(ops.take(i + 1).last() == ops[i as int]);
        }
        match apply_operation(all, &todo[i]) {
            Ok(c) => {
                let ghost so_far = contract::reported(list@);
                let ghost own = (c.path@, c.kind);
                list.push(c);
                assert(contract::reported(list@) =~= so_far.push(own));
                assert(changes(ops.take(i + 1)) =~= changes(ops.take(i as int)).push(own));
            },
            Err(e) => {
                proof {
                    lemma_failure_stays(site, before, ops, i + 1);
                }
                return Err(e);
            },
        }
        i = i + 1;
    }
    assert(ops.take(i as int) =~= ops);
    Ok(list)
}

/// A patch changes no file but those that its operations name.
pub proof fn law_a_patch_touches_only_its_files(
    site: path::Site,
    before: files::Contents,
    ops: Seq<OperationView>,
    other: Seq<char>,
)
    requires
        forall|i: int|
            0 <= i < ops.len() ==> path::resolution(site, named(#[trigger] ops[i])) != Ok::<
                Seq<char>,
                Failure,
            >(other),
    ensures
        files::at(performed(site, before, ops).files, other) == files::at(before, other),
    decreases ops.len(),
{
    if ops.len() > 0 {
        let some = ops.drop_last();
        assert forall|i: int| 0 <= i < some.len() implies path::resolution(
            site,
            named(#[trigger] some[i]),
        ) != Ok::<Seq<char>, Failure>(other) by {
            assert(some[i] == ops[i]);
        }
        law_a_patch_touches_only_its_files(site, before, some, other);
        let p = performed(site, before, some);
        let op = ops.last();
        assert(op == ops[ops.len() - 1]);
        if let Ok(target) = path::resolution(site, named(op)) {
            files::law_a_removed_file_is_gone(p.files, target, other);
            match op {
                OperationView::Update { path, hunks } => {
                    if let Some(c) = files::content(p.files, target) {
                        if let Ok(new) = updated(c, hunks, path) {
                            files::law_reading_gives_back_what_was_written(
                                p.files,
                                target,
                                new,
                                other,
                            );
                        }
                    }
                },
                OperationView::Add { path, content } => {
                    files::law_reading_gives_back_what_was_written(
                        p.files,
                        target,
                        new_content(content),
                        other,
                    );
                },
                OperationView::Delete { path } => {},
            }
        }
    }
}

/// Whatever a patch says, no file outside the workspace is changed, created or removed by it.
pub proof fn law_a_patch_stays_in_the_workspace(
    site: path::Site,
    before: files::Contents,
    ops: Seq<OperationView>,
    other: Seq<char>,
)
    requires
        !path::is_inside(site.canonical, other),
    ensures
        files::at(performed(site, before, ops).files, other) == files::at(before, other),
{
    law_a_patch_touches_only_its_files(site, before, ops, other);
}

proof fn lemma_replaced_char(s: Seq<char>, c: char, x: char, to: Seq<char>)
    ensures
        text::replaced(s.push(x), seq![c], to) == text::replaced(s, seq![c], to) + (if x == c {
            to
        } else {
            seq![x]
        }),
    decreases s.len(),
{
    let from = seq![c];
    let all = s.push(x);
    assert(from.is_prefix_of(all) <==> all[0] == c) by {
        assert(all.subrange(0, 1)[0] == all[0]);
        assert(from[0] == c);
    }
    if s.len() == 0 {
        assert(all.skip(1) =~= Seq::empty());
        assert(text::replaced(all.skip(1), from, to) =~= Seq::empty());
        assert(text::replaced(s, from, to) =~= Seq::empty());
        assert(to + Seq::<char>::empty() =~= to);
        assert(Seq::<char>::empty() + to =~= to);
        assert(seq![all[0]] + Seq::<char>::empty() =~= seq![x]);
        assert(Seq::<char>::empty() + seq![x] =~= seq![x]);
    } else {
        assert(from.is_prefix_of(s) <==> s[0] == c) by {
            assert(s.subrange(0, 1)[0] == s[0]);
            assert(from[0] == c);
        }
        lemma_replaced_char(s.skip(1), c, x, to);
        assert(all.skip(1) =~= s.skip(1).push(x));
        let tail = text::replaced(s.skip(1), from, to);
        let end = if x == c {
            to
        } else {
            seq![x]
        };
        assert(to + (tail + end) =~= (to + tail) + end);
        assert(seq![s[0]] + (tail + end) =~= (seq![s[0]] + tail) + end);
    }
}

proof fn lemma_joined_pieces(s: Seq<char>, sep: char, to: Seq<char>)
    ensures
        text::joined(text::split_on(s, sep), to) == text::replaced(s, seq![sep], to),
    decreases s.len(),
{
    let parts = text::split_on(s, sep);
    if s.len() == 0 {
        assert(parts[0] =~= Seq::empty());
        assert(text::replaced(s, seq![sep], to) =~= Seq::empty());
    } else {
        let init = s.drop_last();
        let before = text::split_on(init, sep);
        text::lemma_split_nonempty(init, sep);
        lemma_joined_pieces(init, sep, to);
        lemma_replaced_char(init, sep, s.last(), to);
        assert(init.push(s.last()) =~= s);
        if s.last() == sep {
            assert(parts.drop_last() =~= before);
            assert(text::joined(parts, to) =~= text::joined(before, to) + to + Seq::<char>::empty());
        } else {
            assert(parts.drop_last() =~= before.drop_last());
            if before.len() == 1 {
                assert(text::joined(parts, to) =~= text::joined(before, to) + seq![s.last()]);
            } else {
                assert(text::joined(parts, to) =~= text::joined(before, to) + seq![s.last()]);
            }
        }
    }
}

/// Whether every line of a text ends in the same way: no CR LF occurs, or a CR stands before every
/// LF.
pub open spec fn is_uniform(c: Seq<char>) -> bool {
    ||| !text::contains_text(c, "\r\n"@)
    ||| forall|i: int|
        0 <= i < c.len() && #[trigger] c[i] == '\n' ==> i > 0 && c[i - 1] == '\r'
}

proof fn lemma_unified_lf(c: Seq<char>)
    requires
        !text::contains_text(c, "\r\n"@),
    ensures
        unified(c) == c,
    decreases c.len(),
{
    reveal_strlit("\r\n");
    reveal_strlit("\n");
    let from = "\r\n"@;
    if c.len() >= from.len() {
        if from.is_prefix_of(c) {
            assert(c.subrange(0, 2) =~= from);
            assert(text::occurs_at(c, from, 0));
            assert(false);
        }
        assert forall|i: int| !text::occurs_at(c.skip(1), from, i) by {
            if text::occurs_at(c.skip(1), from, i) {
                assert(c.subrange(i + 1, i + 3) =~= c.skip(1).subrange(i, i + 2));
                assert(text::occurs_at(c, from, i + 1));
            }
        }
        lemma_unified_lf(c.skip(1));
        assert(seq![c[0]] + c.skip(1) =~= c);
    }
}

proof fn lemma_restored_crlf(c: Seq<char>)
    requires
        forall|i: int|
            0 <= i < c.len() && #[trigger] c[i] == '\n' ==> i > 0 && c[i - 1] == '\r',
    ensures
        text::replaced(unified(c), seq!['\n'], "\r\n"@) == c,
    decreases c.len(),
{
    reveal_strlit("\r\n");
    reveal_strlit("\n");
    let from = "\r\n"@;
    let lf = seq!['\n'];
    assert("\n"@ =~= lf);
    if c.len() < 2 {
        if c.len() == 1 {
            assert(c[0] != '\n');
            assert(!lf.is_prefix_of(c)) by {
                if lf.is_prefix_of(c) {
                    assert(c.take(1)[0] == '\n');
                }
            }
            assert(c.skip(1) =~= Seq::empty());
            assert(text::replaced(c.skip(1), lf, from) =~= Seq::empty());
            assert(seq![c[0]] + Seq::<char>::empty() =~= c);
        }
    } else if from.is_prefix_of(c) {
        let rest = c.skip(2);
        assert(c[0] == '\r' && c[1] == '\n') by {
            assert(c.take(2)[0] == from[0]);
            assert(c.take(2)[1] == from[1]);
        }
        assert forall|i: int| 0 <= i < rest.len() && #[trigger] rest[i] == '\n' implies i > 0
            && rest[i - 1] == '\r' by {
            assert(c[i + 2] == '\n');
            assert(c[i + 1] == '\r');
        }
        lemma_restored_crlf(rest);
        let whole = lf + unified(rest);
        assert(unified(c) == whole);
        assert(lf.is_prefix_of(whole)) by {
            assert(whole.take(1) =~= lf);
        }
        assert(whole.skip(1) =~= unified(rest));
        assert(from + rest =~= c);
    } else {
        let rest = c.skip(1);
        assert(c[0] != '\n');
        assert forall|i: int| 0 <= i < rest.len() && #[trigger] rest[i] == '\n' implies i > 0
            && rest[i - 1] == '\r' by {
            assert(c[i + 1] == '\n');
            assert(c[i] == '\r');
            if i == 0 {
                assert(c.take(2) =~= from);
            }
        }
        lemma_restored_crlf(rest);
        let whole = seq![c[0]] + unified(rest);
        assert(unified(c) == whole);
        assert(!lf.is_prefix_of(whole)) by {
            if lf.is_prefix_of(whole) {
                assert(whole.take(1)[0] == '\n');
            }
        }
        assert(whole.skip(1) =~= unified(rest));
        assert(seq![c[0]] + rest =~= c);
    }
}

proof fn lemma_same_char(s: Seq<char>)
    ensures
        text::replaced(s, seq!['\n'], seq!['\n']) == s,
    decreases s.len(),
{
    if s.len() > 0 {
        lemma_same_char(s.skip(1));
        assert(seq![s[0]] + s.skip(1) =~= s);
        if seq!['\n'].is_prefix_of(s) {
            assert(s.take(1)[0] == '\n');
        }
    }
}

/// Splitting a text into lines and joining them gives the text back, whether its lines end in LF or
/// in CR LF.
pub proof fn law_splitting_and_joining_keeps_the_text(c: Seq<char>)
    requires
        is_uniform(c),
    ensures
        content_text(content_lines(c), ending(c), is_closed(c)) == c,
{
    reveal_strlit("\r\n");
    reveal_strlit("\n");
    let lf = seq!['\n'];
    let end = ending(c);
    let u = unified(c);
    assert("\n"@ =~= lf);
    assert(text::replaced(u, lf, end) == c) by {
        if text::contains_text(c, "\r\n"@) {
            lemma_restored_crlf(c);
        } else {
            lemma_unified_lf(c);
            lemma_same_char(c);
        }
    }
    if is_closed(c) {
        let init = u.drop_last();
        lemma_joined_pieces(init, '\n', end);
        lemma_replaced_char(init, '\n', '\n', end);
        assert(init.push('\n') =~= u);
        text::lemma_split_nonempty(init, '\n');
    } else if u.len() == 0 {
        assert(c =~= Seq::empty());
        assert(text::joined(content_lines(c), end) =~= Seq::empty());
    } else {
        lemma_joined_pieces(u, '\n', end);
    }
}

// ---------------------------------------------------------------------------------------------
// What hunks do to a text
// ---------------------------------------------------------------------------------------------

/// The first `n` parts of a list, each behind its gap.
pub open spec fn woven(
    gaps: Seq<Seq<Seq<char>>>,
    parts: Seq<Seq<Seq<char>>>,
    n: int,
) -> Seq<Seq<char>>
    decreases n,
{
    if n <= 0 {
        Seq::empty()
    } else {
        woven(gaps, parts, n - 1) + gaps[n - 1] + parts[n - 1]
    }
}

/// Parts with a gap before, between and behind them.
pub open spec fn whole(gaps: Seq<Seq<Seq<char>>>, parts: Seq<Seq<Seq<char>>>) -> Seq<Seq<char>> {
    woven(gaps, parts, parts.len() as int) + gaps[parts.len() as int]
}

/// The lines that hunks take away or keep.
pub open spec fn olds(todo: Seq<HunkView>) -> Seq<Seq<Seq<char>>> {
    Seq::new(todo.len(), |i: int| todo[i].old_lines)
}

/// The lines that hunks put in or keep.
pub open spec fn news(todo: Seq<HunkView>) -> Seq<Seq<Seq<char>>> {
    Seq::new(todo.len(), |i: int| todo[i].new_lines)
}

/// Whether each hunk's lines stand first where its gap ends: nowhere in the gap before.
pub open spec fn are_first(gaps: Seq<Seq<Seq<char>>>, todo: Seq<HunkView>) -> bool {
    forall|i: int, k: int|
        0 <= i < todo.len() && 0 <= k < gaps[i].len() ==> !begins(
            #[trigger] whole(gaps, olds(todo)).skip(woven(gaps, olds(todo), i).len() + k),
            #[trigger] todo[i].old_lines,
        )
}

/// Whether lines begin with other lines.
pub open spec fn begins(lines: Seq<Seq<char>>, first: Seq<Seq<char>>) -> bool {
    first.len() <= lines.len() && lines.take(first.len() as int) == first
}

proof fn lemma_woven_grows(gaps: Seq<Seq<Seq<char>>>, parts: Seq<Seq<Seq<char>>>, n: int, m: int)
    requires
        0 <= n <= m,
    ensures
        woven(gaps, parts, n).len() <= woven(gaps, parts, m).len(),
        woven(gaps, parts, m).take(woven(gaps, parts, n).len() as int) == woven(gaps, parts, n),
    decreases m - n,
{
    let a = woven(gaps, parts, n);
    if n < m {
        lemma_woven_grows(gaps, parts, n, m - 1);
        let b = woven(gaps, parts, m - 1);
        let c = woven(gaps, parts, m);
        assert(c.take(a.len() as int) =~= b.take(a.len() as int));
    } else {
        assert(a.take(a.len() as int) =~= a);
    }
}

/// Behind the first `n` parts stand the next gap, the next part, and what is behind that one.
proof fn lemma_whole_at(gaps: Seq<Seq<Seq<char>>>, parts: Seq<Seq<Seq<char>>>, n: int)
    requires
        gaps.len() == parts.len() + 1,
        0 <= n < parts.len(),
    ensures
        whole(gaps, parts).skip(woven(gaps, parts, n).len() as int) == gaps[n] + parts[n] + whole(
            gaps,
            parts,
        ).skip(woven(gaps, parts, n + 1).len() as int),
        woven(gaps, parts, n + 1).len() <= whole(gaps, parts).len(),
        woven(gaps, parts, n + 1).len() == woven(gaps, parts, n).len() + gaps[n].len()
            + parts[n].len(),
{
    let all = whole(gaps, parts);
    let a = woven(gaps, parts, n);
    let b = woven(gaps, parts, n + 1);
    lemma_woven_grows(gaps, parts, n + 1, parts.len() as int);
    assert(all.take(b.len() as int) =~= b);
    assert(all =~= b + all.skip(b.len() as int));
    assert(all.skip(a.len() as int) =~= gaps[n] + parts[n] + all.skip(b.len() as int));
}

proof fn lemma_place_is(haystack: Seq<Seq<char>>, needle: Seq<Seq<char>>, from: int, at: int)
    requires
        0 <= from <= at,
        needle.len() > 0,
        begins(haystack.skip(at), needle),
        at <= haystack.len(),
        forall|k: int| from <= k < at ==> !begins(#[trigger] haystack.skip(k), needle),
    ensures
        place(haystack, needle, from) == at,
    decreases at - from,
{
    let n = needle.len() as int;
    assert(haystack.skip(from).take(n) =~= haystack.subrange(from, from + n)) by {
        assert(haystack.skip(at).take(n).len() == n);
    }
    if from < at {
        assert(!begins(haystack.skip(from), needle));
        lemma_place_is(haystack, needle, from + 1, at);
    }
}

/// Where lines were found they stand, and they stand nowhere before.
proof fn lemma_placed(haystack: Seq<Seq<char>>, needle: Seq<Seq<char>>, from: int)
    requires
        0 <= from,
    ensures
        place(haystack, needle, from) >= 0 ==> {
            let at = place(haystack, needle, from);
            &&& from <= at
            &&& at + needle.len() <= haystack.len()
            &&& haystack.subrange(at, at + needle.len()) == needle
        },
        place(haystack, needle, from) < 0 && needle.len() > 0 ==> forall|k: int|
            from <= k && k + needle.len() <= haystack.len() ==> !begins(
                #[trigger] haystack.skip(k),
                needle,
            ),
        place(haystack, needle, from) >= 0 ==> forall|k: int|
            from <= k < place(haystack, needle, from) ==> !begins(
                #[trigger] haystack.skip(k),
                needle,
            ),
    decreases haystack.len() - from,
{
    if needle.len() > 0 && from + needle.len() <= haystack.len() {
        assert(haystack.skip(from).take(needle.len() as int) =~= haystack.subrange(
            from,
            from + needle.len(),
        ));
        if !stands_at(haystack, needle, from) {
            lemma_placed(haystack, needle, from + 1);
        }
    }
}

/// Hunks replace the lines that they find: where a file is made of gaps and the old lines of the
/// hunks, in order, each standing first where its gap ends, the result is made of the same gaps and
/// the new lines, however many lines a hunk takes away or puts in.
pub proof fn law_hunks_replace_the_lines_they_find(
    gaps: Seq<Seq<Seq<char>>>,
    todo: Seq<HunkView>,
)
    requires
        gaps.len() == todo.len() + 1,
        forall|i: int| 0 <= i < todo.len() ==> (#[trigger] todo[i]).old_lines.len() > 0,
        are_first(gaps, todo),
    ensures
        patched(whole(gaps, olds(todo)), todo) matches Some((lines, _)) && lines == whole(
            gaps,
            news(todo),
        ),
{
    lemma_hunks_so_far(gaps, todo, todo.len() as int);
    let n = todo.len() as int;
    assert(todo.take(n) =~= todo);
    assert(whole(gaps, olds(todo)).skip(woven(gaps, olds(todo), n).len() as int) =~= gaps[n]);
}

proof fn lemma_hunks_so_far(gaps: Seq<Seq<Seq<char>>>, todo: Seq<HunkView>, n: int)
    requires
        gaps.len() == todo.len() + 1,
        forall|i: int| 0 <= i < todo.len() ==> (#[trigger] todo[i]).old_lines.len() > 0,
        are_first(gaps, todo),
        0 <= n <= todo.len(),
    ensures
        patched(whole(gaps, olds(todo)), todo.take(n)) == Some(
            (
                woven(gaps, news(todo), n) + whole(gaps, olds(todo)).skip(
                    woven(gaps, olds(todo), n).len() as int,
                ),
                woven(gaps, news(todo), n).len() as int,
            ),
        ),
    decreases n,
{
    let all = whole(gaps, olds(todo));
    if n == 0 {
        assert(todo.take(0) =~= Seq::empty());
        assert(all.skip(0) =~= all);
        assert(Seq::<Seq<char>>::empty() + all =~= all);
    } else {
        let i = n - 1;
        lemma_hunks_so_far(gaps, todo, i);
        assert(todo.take(n).drop_last() =~= todo.take(i));
        assert(todo.take(n).last() == todo[i]);
        let hunk = todo[i];
        assert(olds(todo)[i] == hunk.old_lines);
        assert(news(todo)[i] == hunk.new_lines);
        let o = woven(gaps, olds(todo), i);
        let w = woven(gaps, news(todo), i);
        let rest = all.skip(woven(gaps, olds(todo), n).len() as int);
        lemma_whole_at(gaps, olds(todo), i);
        let so_far = w + all.skip(o.len() as int);
        let from = w.len() as int;
        let at = from + gaps[i].len();
        assert(all.skip(o.len() as int) == gaps[i] + hunk.old_lines + rest);
        assert(so_far.skip(at) =~= hunk.old_lines + rest);
        assert((hunk.old_lines + rest).take(hunk.old_lines.len() as int) =~= hunk.old_lines);
        assert forall|k: int| from <= k < at implies !begins(
            #[trigger] so_far.skip(k),
            hunk.old_lines,
        ) by {
            let j = k - from;
            assert(so_far.skip(k) =~= all.skip(o.len() + j));
            assert(!begins(all.skip(woven(gaps, olds(todo), i).len() + j), todo[i].old_lines));
        }
        lemma_place_is(so_far, hunk.old_lines, from, at);
        assert(so_far.take(at) =~= w + gaps[i]);
        assert(so_far.skip(at + hunk.old_lines.len()) =~= rest);
        assert(spliced(so_far, at, hunk.old_lines.len() as int, hunk.new_lines) =~= woven(
            gaps,
            news(todo),
            n,
        ) + rest);
    }
}

/// Hunks apply wherever their lines stand: whatever gaps a file has before, between and behind the old
/// lines of the hunks, in order, applying them succeeds.
pub proof fn law_hunks_apply_wherever_their_lines_stand(
    gaps: Seq<Seq<Seq<char>>>,
    todo: Seq<HunkView>,
)
    requires
        gaps.len() == todo.len() + 1,
        forall|i: int| 0 <= i < todo.len() ==> (#[trigger] todo[i]).old_lines.len() > 0,
    ensures
        patched(whole(gaps, olds(todo)), todo) is Some,
{
    let n = lemma_hunks_reach(gaps, todo, todo.len() as int);
    assert(todo.take(todo.len() as int) =~= todo);
}

proof fn lemma_hunks_reach(gaps: Seq<Seq<Seq<char>>>, todo: Seq<HunkView>, n: int) -> (o: int)
    requires
        gaps.len() == todo.len() + 1,
        forall|i: int| 0 <= i < todo.len() ==> (#[trigger] todo[i]).old_lines.len() > 0,
        0 <= n <= todo.len(),
    ensures
        0 <= o <= woven(gaps, olds(todo), n).len(),
        patched(whole(gaps, olds(todo)), todo.take(n)) matches Some((so_far, cursor)) && {
            &&& 0 <= cursor <= so_far.len()
            &&& so_far.skip(cursor) == whole(gaps, olds(todo)).skip(o)
        },
    decreases n,
{
    let all = whole(gaps, olds(todo));
    if n == 0 {
        assert(todo.take(0) =~= Seq::empty());
        0
    } else {
        let i = n - 1;
        let o = lemma_hunks_reach(gaps, todo, i);
        assert(todo.take(n).drop_last() =~= todo.take(i));
        assert(todo.take(n).last() == todo[i]);
        let hunk = todo[i];
        assert(olds(todo)[i] == hunk.old_lines);
        lemma_whole_at(gaps, olds(todo), i);
        let (so_far, cursor) = patched(all, todo.take(i))->0;
        let own = woven(gaps, olds(todo), i).len() as int + gaps[i].len();
        let end = woven(gaps, olds(todo), n).len() as int;
        // The hunk's own place, counted from the cursor.
        let k = cursor + (own - o);
        assert(so_far.skip(cursor).len() == all.skip(o).len());
        assert(all.skip(own).take(hunk.old_lines.len() as int) =~= hunk.old_lines) by {
            let a = woven(gaps, olds(todo), i).len() as int;
            assert(all.skip(own) =~= all.skip(a).skip(own - a));
        }
        assert(so_far.skip(k) =~= so_far.skip(cursor).skip(own - o));
        assert(all.skip(own) =~= all.skip(o).skip(own - o));
        assert(begins(so_far.skip(k), hunk.old_lines));
        lemma_placed(so_far, hunk.old_lines, cursor);
        let at = place(so_far, hunk.old_lines, cursor);
        assert(0 <= at <= k);
        let next = spliced(so_far, at, hunk.old_lines.len() as int, hunk.new_lines);
        let after = at + hunk.new_lines.len();
        let o2 = o + (at - cursor) + hunk.old_lines.len();
        assert(next.skip(after) =~= so_far.skip(at + hunk.old_lines.len()));
        assert(so_far.skip(at + hunk.old_lines.len()) =~= so_far.skip(cursor).skip(
            at - cursor + hunk.old_lines.len(),
        ));
        assert(all.skip(o2) =~= all.skip(o).skip(at - cursor + hunk.old_lines.len()));
        o2
    }
}

/// Hunks change nothing but the lines that they find: where applying them succeeds, the file is made of
/// gaps and the old lines, in order, and the result of the same gaps and the new lines.
pub proof fn law_hunks_change_nothing_else(lines: Seq<Seq<char>>, todo: Seq<HunkView>)
    requires
        patched(lines, todo) is Some,
    ensures
        exists|gaps: Seq<Seq<Seq<char>>>|
            gaps.len() == todo.len() + 1 && lines == #[trigger] whole(gaps, olds(todo))
                && (patched(lines, todo) matches Some((after, _)) && after == whole(
                gaps,
                news(todo),
            )),
{
    let gaps = lemma_gaps(lines, todo);
    let n = todo.len() as int;
    let o = woven(gaps, olds(todo), n).len() as int;
    let every = gaps.push(lines.skip(o));
    lemma_same_gaps(gaps, every, olds(todo), n);
    lemma_same_gaps(gaps, every, news(todo), n);
    assert(lines =~= whole(every, olds(todo)));
}

proof fn lemma_same_gaps(
    a: Seq<Seq<Seq<char>>>,
    b: Seq<Seq<Seq<char>>>,
    parts: Seq<Seq<Seq<char>>>,
    n: int,
)
    requires
        0 <= n <= a.len(),
        n <= b.len(),
        forall|i: int| 0 <= i < n ==> a[i] == b[i],
    ensures
        woven(a, parts, n) == woven(b, parts, n),
    decreases n,
{
    if n > 0 {
        lemma_same_gaps(a, b, parts, n - 1);
    }
}

proof fn lemma_same_parts(
    gaps: Seq<Seq<Seq<char>>>,
    a: Seq<Seq<Seq<char>>>,
    b: Seq<Seq<Seq<char>>>,
    n: int,
)
    requires
        0 <= n <= a.len(),
        n <= b.len(),
        forall|i: int| 0 <= i < n ==> a[i] == b[i],
    ensures
        woven(gaps, a, n) == woven(gaps, b, n),
    decreases n,
{
    if n > 0 {
        lemma_same_parts(gaps, a, b, n - 1);
    }
}

proof fn lemma_gaps(lines: Seq<Seq<char>>, todo: Seq<HunkView>) -> (gaps: Seq<Seq<Seq<char>>>)
    requires
        patched(lines, todo) is Some,
    ensures
        gaps.len() == todo.len(),
        ({
            let n = todo.len() as int;
            let o = woven(gaps, olds(todo), n);
            let w = woven(gaps, news(todo), n);
            &&& o.len() <= lines.len()
            &&& lines.take(o.len() as int) == o
            &&& patched(lines, todo) == Some((w + lines.skip(o.len() as int), w.len() as int))
        }),
    decreases todo.len(),
{
    if todo.len() == 0 {
        let gaps = Seq::<Seq<Seq<char>>>::empty();
        assert(lines.skip(0) =~= lines);
        assert(Seq::<Seq<char>>::empty() + lines =~= lines);
        assert(lines.take(0) =~= Seq::empty());
        gaps
    } else {
        let before = todo.drop_last();
        let hunk = todo.last();
        let gaps = lemma_gaps(lines, before);
        let m = before.len() as int;
        let o = woven(gaps, olds(before), m);
        let w = woven(gaps, news(before), m);
        let so_far = w + lines.skip(o.len() as int);
        lemma_placed(so_far, hunk.old_lines, w.len() as int);
        let at = place(so_far, hunk.old_lines, w.len() as int);
        let gap = so_far.subrange(w.len() as int, at);
        let every = gaps.push(gap);
        lemma_same_gaps(gaps, every, olds(before), m);
        lemma_same_gaps(gaps, every, news(before), m);
        lemma_same_parts(every, olds(before), olds(todo), m);
        lemma_same_parts(every, news(before), news(todo), m);
        let o2 = woven(every, olds(todo), m + 1);
        let w2 = woven(every, news(todo), m + 1);
        assert(o2 =~= o + gap + hunk.old_lines);
        assert(w2 =~= w + gap + hunk.new_lines);
        assert(so_far.subrange(at, at + hunk.old_lines.len()) =~= hunk.old_lines);
        assert(lines =~= o + lines.skip(o.len() as int));
        assert(lines.take(o2.len() as int) =~= o2) by {
            assert forall|i: int| 0 <= i < o2.len() implies lines[i] == o2[i] by {
                if i >= o.len() {
                    let j = i - o.len() + w.len();
                    assert(so_far[j] == lines[i]);
                    if j >= at {
                        assert(so_far.subrange(at, at + hunk.old_lines.len())[j - at] == so_far[j]);
                    }
                } else {
                    assert(lines.take(o.len() as int)[i] == o[i]);
                }
            }
        }
        assert(so_far.take(at) =~= w + gap);
        assert(so_far.skip(at + hunk.old_lines.len()) =~= lines.skip(o2.len() as int));
        assert(spliced(so_far, at, hunk.old_lines.len() as int, hunk.new_lines) =~= w2
            + lines.skip(o2.len() as int));
        every
    }
}

// ---------------------------------------------------------------------------------------------
// What hunks do to the text of a file
// ---------------------------------------------------------------------------------------------

/// The text of lines with an ending between each two, and one behind the last where it is closed.
pub open spec fn file_text(lines: Seq<Seq<char>>, end: Seq<char>, closed: bool) -> Seq<char> {
    if lines.len() == 0 {
        Seq::empty()
    } else {
        text_laws::ended(lines.drop_last(), end) + lines.last() + (if closed {
            end
        } else {
            Seq::empty()
        })
    }
}

proof fn lemma_file_text(lines: Seq<Seq<char>>, end: Seq<char>, closed: bool)
    ensures
        content_text(lines, end, closed) == file_text(lines, end, closed),
        lines.len() > 0 ==> text_laws::ended(lines, end) == text::joined(lines, end) + end,
    decreases lines.len(),
{
    if lines.len() > 0 {
        let before = lines.drop_last();
        lemma_file_text(before, end, closed);
        assert(text::joined(lines, end) =~= text_laws::ended(before, end) + lines.last());
        assert(text::joined(lines, end) + Seq::<char>::empty() =~= text::joined(lines, end));
        assert(text_laws::ended(lines, end) =~= text::joined(lines, end) + end);
    } else {
        assert(text::joined(lines, end) =~= Seq::empty());
    }
}

/// Whether a line feed stands right behind a carriage return somewhere.
spec fn has_crlf(s: Seq<char>) -> bool {
    exists|i: int| 0 <= i < s.len() - 1 && #[trigger] s[i] == '\r' && s[i + 1] == '\n'
}

proof fn lemma_no_crlf(lines: Seq<Seq<char>>)
    requires
        text_laws::are_lines(lines),
    ensures
        !has_crlf(text_laws::ended(lines, seq!['\n'])),
        text_laws::ended(lines, seq!['\n']).len() > 0 ==> text_laws::ended(lines, seq!['\n']).last()
            == '\n',
    decreases lines.len(),
{
    if lines.len() > 0 {
        let before = lines.drop_last();
        assert(text_laws::are_lines(before)) by {
            assert forall|i: int| 0 <= i < before.len() implies text_laws::is_line(
                #[trigger] before[i],
            ) by {
                assert(before[i] == lines[i]);
            }
        }
        lemma_no_crlf(before);
        let a = text_laws::ended(before, seq!['\n']);
        let line = lines.last();
        assert(text_laws::is_line(line));
        lemma_no_crlf_behind(a, line + seq!['\n']);
        assert(a + line + seq!['\n'] =~= a + (line + seq!['\n']));
    }
}

proof fn lemma_no_crlf_behind(a: Seq<char>, b: Seq<char>)
    requires
        !has_crlf(a),
        !has_crlf(b),
        a.len() > 0 ==> a.last() == '\n',
    ensures
        !has_crlf(a + b),
{
    let s = a + b;
    if has_crlf(s) {
        let i = choose|i: int| 0 <= i < s.len() - 1 && #[trigger] s[i] == '\r' && s[i + 1] == '\n';
        if i + 1 < a.len() {
            assert(a[i] == '\r' && a[i + 1] == '\n');
        } else if i < a.len() {
            assert(s[i] == a.last());
        } else {
            assert(b[i - a.len()] == '\r' && b[i - a.len() + 1] == '\n');
        }
    }
}

proof fn lemma_unified_ended(lines: Seq<Seq<char>>, tail: Seq<char>)
    requires
        text_laws::are_lines(lines),
    ensures
        unified(text_laws::ended(lines, seq!['\r', '\n']) + tail) == text_laws::ended(
            lines,
            seq!['\n'],
        ) + unified(tail),
    decreases lines.len(),
{
    reveal_strlit("\r\n");
    reveal_strlit("\n");
    let crlf = seq!['\r', '\n'];
    let lf = seq!['\n'];
    assert("\r\n"@ =~= crlf);
    assert("\n"@ =~= lf);
    if lines.len() == 0 {
        assert(Seq::<char>::empty() + tail =~= tail);
        assert(Seq::<char>::empty() + unified(tail) =~= unified(tail));
    } else {
        let before = lines.drop_last();
        let line = lines.last();
        assert(text_laws::are_lines(before)) by {
            assert forall|i: int| 0 <= i < before.len() implies text_laws::is_line(
                #[trigger] before[i],
            ) by {
                assert(before[i] == lines[i]);
            }
        }
        assert(text_laws::is_line(line));
        let rest = line + crlf + tail;
        lemma_unified_ended(before, rest);
        assert forall|i: int| 0 <= i < line.len() implies !text::occurs_at(rest, crlf, i) by {
            if text::occurs_at(rest, crlf, i) {
                assert(rest.subrange(i, i + 2)[1] == rest[i + 1]);
            }
        }
        text_laws::law_replacing_puts_a_text_in_each_place(line, crlf, tail, lf);
        assert(text_laws::ended(lines, crlf) + tail =~= text_laws::ended(before, crlf) + rest);
        assert(text_laws::ended(before, lf) + (line + lf + unified(tail)) =~= text_laws::ended(
            lines,
            lf,
        ) + unified(tail));
    }
}

/// Lines that were written into a file are its lines, with the ending that they were written with and
/// closed as they were.
pub proof fn law_a_files_lines_are_those_written(
    lines: Seq<Seq<char>>,
    end: Seq<char>,
    closed: bool,
)
    requires
        text_laws::are_lines(lines),
        lines.len() > 0,
        !closed ==> lines.last().len() > 0,
        end == seq!['\n'] || (end == seq!['\r', '\n'] && (closed || lines.len() > 1)),
    ensures
        content_lines(file_text(lines, end, closed)) == lines,
        ending(file_text(lines, end, closed)) == end,
        is_closed(file_text(lines, end, closed)) == closed,
{
    reveal_strlit("\r\n");
    reveal_strlit("\n");
    let crlf = seq!['\r', '\n'];
    let lf = seq!['\n'];
    assert("\r\n"@ =~= crlf);
    assert("\n"@ =~= lf);
    let c = file_text(lines, end, closed);
    let plain = file_text(lines, lf, closed);
    let before = lines.drop_last();
    let last = lines.last();
    assert(text_laws::is_line(last));
    assert(text_laws::are_lines(before)) by {
        assert forall|i: int| 0 <= i < before.len() implies text_laws::is_line(
            #[trigger] before[i],
        ) by {
            assert(before[i] == lines[i]);
        }
    }
    lemma_no_crlf(before);
    let e = Seq::<char>::empty();
    let tail = last + (if closed {
        lf
    } else {
        e
    });
    assert(plain =~= text_laws::ended(before, lf) + tail);
    lemma_no_crlf_behind(text_laws::ended(before, lf), tail);
    assert(!text::contains_text(plain, crlf)) by {
        if text::contains_text(plain, crlf) {
            let i = choose|i: int| text::occurs_at(plain, crlf, i);
            assert(plain.subrange(i, i + 2)[0] == plain[i]);
            assert(plain.subrange(i, i + 2)[1] == plain[i + 1]);
        }
    }
    lemma_unified_lf(plain);
    assert(unified(c) == plain) by {
        if end != lf {
            let own = last + (if closed {
                crlf
            } else {
                e
            });
            assert(c =~= text_laws::ended(before, crlf) + own);
            lemma_unified_ended(before, own);
            assert(unified(own) =~= tail) by {
                if closed {
                    let one = seq![last];
                    assert(text_laws::are_lines(one)) by {
                        assert forall|i: int| 0 <= i < one.len() implies text_laws::is_line(
                            #[trigger] one[i],
                        ) by {
                            assert(one[i] == last);
                        }
                    }
                    lemma_unified_ended(one, e);
                    assert(one.drop_last() =~= Seq::empty());
                    assert(text_laws::ended(one.drop_last(), crlf) =~= e);
                    assert(text_laws::ended(one.drop_last(), lf) =~= e);
                    assert(text_laws::ended(one, crlf) + e =~= own);
                    assert(unified(e) =~= e);
                    assert(text_laws::ended(one, lf) + e =~= tail);
                } else {
                    assert(own =~= last);
                    assert(!text::contains_text(last, crlf)) by {
                        if text::contains_text(last, crlf) {
                            let i = choose|i: int| text::occurs_at(last, crlf, i);
                            assert(last.subrange(i, i + 2)[1] == last[i + 1]);
                        }
                    }
                    lemma_unified_lf(last);
                    assert(tail =~= last);
                }
            }
        }
    }
    assert(ending(c) == end) by {
        if end != lf {
            if closed {
                text_laws::law_a_contained_text_stands_between(
                    text_laws::ended(before, crlf) + last,
                    crlf,
                    e,
                    e,
                );
                assert(c =~= text_laws::ended(before, crlf) + last + crlf + e);
            } else {
                let a = text_laws::ended(before.drop_last(), crlf) + before.last();
                text_laws::law_a_contained_text_stands_between(a, crlf, last, e);
                assert(c =~= a + crlf + last);
            }
        }
    }
    lemma_file_text(lines, lf, closed);
    assert(text_laws::all_lack(lines, '\n')) by {
        assert forall|i: int| 0 <= i < lines.len() implies text_laws::lacks(
            #[trigger] lines[i],
            '\n',
        ) by {
            assert(text_laws::is_line(lines[i]));
        }
    }
    text_laws::law_pieces_make_the_text(e, lines, '\n');
    if closed {
        assert(plain.last() == '\n');
        assert(plain.drop_last() =~= text::joined(lines, lf));
    } else {
        assert(plain.last() == last.last());
        assert(plain =~= text::joined(lines, lf));
    }
}

/// An update rewrites the text of its file: of a file made of gaps and the old lines of the hunks, in
/// order, each standing first where its gap ends, it leaves a file made of the same gaps and the new
/// lines, with the same line endings, and closed as before.
pub proof fn law_an_update_rewrites_the_text(
    gaps: Seq<Seq<Seq<char>>>,
    todo: Seq<HunkView>,
    end: Seq<char>,
    closed: bool,
    name: Seq<char>,
)
    requires
        gaps.len() == todo.len() + 1,
        forall|i: int| 0 <= i < todo.len() ==> (#[trigger] todo[i]).old_lines.len() > 0,
        are_first(gaps, todo),
        text_laws::are_lines(whole(gaps, olds(todo))),
        whole(gaps, olds(todo)).len() > 0,
        !closed ==> whole(gaps, olds(todo)).last().len() > 0,
        end == seq!['\n'] || (end == seq!['\r', '\n'] && (closed || whole(gaps, olds(todo)).len()
            > 1)),
    ensures
        updated(file_text(whole(gaps, olds(todo)), end, closed), todo, name) == Ok::<
            Seq<char>,
            Failure,
        >(file_text(whole(gaps, news(todo)), end, closed)),
{
    law_a_files_lines_are_those_written(whole(gaps, olds(todo)), end, closed);
    law_hunks_replace_the_lines_they_find(gaps, todo);
    lemma_file_text(whole(gaps, news(todo)), end, closed);
}

// ---------------------------------------------------------------------------------------------
// What a patch says
// ---------------------------------------------------------------------------------------------

/// A section of a patch as it is written: an update with the lines of a hunk that may stand before the
/// first `@@` and those of the hunks behind one, each with what stands on the line of its `@@`.
pub enum Section {
    Update { path: Seq<char>, first: Seq<Seq<char>>, headed: Seq<(Seq<char>, Seq<Seq<char>>)> },
    Add { path: Seq<char>, content: Seq<Seq<char>> },
    Delete { path: Seq<char> },
}

/// What a line of a hunk says behind its mark; an empty line says nothing.
pub open spec fn unmarked(line: Seq<char>) -> Seq<char> {
    if line.len() == 0 {
        line
    } else {
        line.skip(1)
    }
}

/// Whether a line of a hunk has a mark.
pub open spec fn has_mark(line: Seq<char>, mark: char) -> bool {
    line.len() > 0 && line[0] == mark
}

/// The lines of a hunk that do not have a mark, without theirs.
pub open spec fn without_mark(raw: Seq<Seq<char>>, mark: char) -> Seq<Seq<char>>
    decreases raw.len(),
{
    if raw.len() == 0 {
        Seq::empty()
    } else if has_mark(raw.last(), mark) {
        without_mark(raw.drop_last(), mark)
    } else {
        without_mark(raw.drop_last(), mark).push(unmarked(raw.last()))
    }
}

/// What the lines of a hunk come to: in the file before it stands what is kept or removed, and in the
/// file after it what is kept or added.
pub open spec fn hunk_said(raw: Seq<Seq<char>>) -> HunkView {
    HunkView { old_lines: without_mark(raw, '+'), new_lines: without_mark(raw, '-') }
}

/// The lines of hunks, each behind its `@@`.
pub open spec fn headed_lines(headed: Seq<(Seq<char>, Seq<Seq<char>>)>) -> Seq<Seq<char>>
    decreases headed.len(),
{
    if headed.len() == 0 {
        Seq::empty()
    } else {
        headed_lines(headed.drop_last()) + seq!["@@"@ + headed.last().0] + headed.last().1
    }
}

/// What hunks come to, each behind its `@@`.
pub open spec fn headed_said(headed: Seq<(Seq<char>, Seq<Seq<char>>)>) -> Seq<HunkView> {
    Seq::new(headed.len(), |i: int| hunk_said(headed[i].1))
}

/// The lines of a section.
pub open spec fn section_lines(section: Section) -> Seq<Seq<char>> {
    match section {
        Section::Update { path, first, headed } => seq!["*** Update File: "@ + path] + (first
            + headed_lines(headed)),
        Section::Add { path, content } => seq!["*** Add File: "@ + path] + Seq::new(
            content.len(),
            |i: int| "+"@ + content[i],
        ),
        Section::Delete { path } => seq!["*** Delete File: "@ + path],
    }
}

/// What a section asks for.
pub open spec fn section_said(section: Section) -> OperationView {
    match section {
        Section::Update { path, first, headed } => OperationView::Update {
            path,
            hunks: if first.len() > 0 {
                seq![hunk_said(first)] + headed_said(headed)
            } else {
                headed_said(headed)
            },
        },
        Section::Add { path, content } => OperationView::Add { path, content },
        Section::Delete { path } => OperationView::Delete { path },
    }
}

/// Whether a line can stand in a hunk: it has one of the three marks or is empty, and does not close
/// the patch.
pub open spec fn is_hunk_line(line: Seq<char>) -> bool {
    &&& text_laws::is_line(line)
    &&& line.len() > 0 ==> line[0] == ' ' || line[0] == '-' || line[0] == '+'
    &&& text::trimmed(line) != "*** End Patch"@
}

/// Whether lines can stand in a hunk, and one of them says where.
pub open spec fn is_hunk(raw: Seq<Seq<char>>) -> bool {
    &&& forall|i: int| 0 <= i < raw.len() ==> is_hunk_line(#[trigger] raw[i])
    &&& without_mark(raw, '+').len() > 0
}

/// Whether a section can be written.
pub open spec fn is_sound(section: Section) -> bool {
    match section {
        Section::Update { path, first, headed } => {
            &&& text_laws::is_line(path) && text_laws::is_tight(path)
            &&& first.len() > 0 ==> is_hunk(first)
            &&& first.len() > 0 || headed.len() > 0
            &&& forall|i: int|
                0 <= i < headed.len() ==> text_laws::is_line((#[trigger] headed[i]).0) && is_hunk(
                    headed[i].1,
                )
        },
        Section::Add { path, content } => {
            &&& text_laws::is_line(path) && text_laws::is_tight(path)
            &&& text_laws::are_lines(content)
        },
        Section::Delete { path } => text_laws::is_line(path) && text_laws::is_tight(path),
    }
}

/// The lines of the first `n` sections.
pub open spec fn lines_so_far(list: Seq<Section>, n: int) -> Seq<Seq<char>>
    decreases n,
{
    if n <= 0 {
        Seq::empty()
    } else {
        lines_so_far(list, n - 1) + section_lines(list[n - 1])
    }
}

/// A patch: its sections between the line that opens it and the line that closes it.
pub open spec fn patch_text(list: Seq<Section>) -> Seq<char> {
    text_laws::ended(
        seq!["*** Begin Patch"@] + lines_so_far(list, list.len() as int) + seq!["*** End Patch"@],
        seq!['\n'],
    )
}

proof fn lemma_scanned_hunk(before: Seq<Seq<char>>, raw: Seq<Seq<char>>)
    requires
        scanned(before).bad is None,
        !scanned(before).has_content,
        scanned(before).current == no_lines(),
        forall|i: int| 0 <= i < raw.len() ==> is_hunk_line(#[trigger] raw[i]),
    ensures
        scanned(before + raw) == (Scan {
            hunks: scanned(before).hunks,
            current: hunk_said(raw),
            has_content: raw.len() > 0,
            bad: None,
        }),
    decreases raw.len(),
{
    if raw.len() == 0 {
        assert(before + raw =~= before);
    } else {
        let short = raw.drop_last();
        let line = raw.last();
        assert forall|i: int| 0 <= i < short.len() implies is_hunk_line(#[trigger] short[i]) by {
            assert(short[i] == raw[i]);
        }
        lemma_scanned_hunk(before, short);
        assert((before + raw).drop_last() =~= before + short);
        assert((before + raw).last() == line);
        assert(is_hunk_line(line));
        reveal_strlit("@@");
        assert(!"@@"@.is_prefix_of(line)) by {
            if "@@"@.is_prefix_of(line) {
                assert(line.subrange(0, 2)[0] == '@');
            }
        }
        if line.len() == 0 {
            assert(line =~= Seq::empty());
        }
    }
}

proof fn lemma_scanned_headed(
    before: Seq<Seq<char>>,
    headed: Seq<(Seq<char>, Seq<Seq<char>>)>,
    done: Seq<HunkView>,
)
    requires
        scanned(before).bad is None,
        done == (if scanned(before).has_content {
            scanned(before).hunks.push(scanned(before).current)
        } else {
            scanned(before).hunks
        }),
        !scanned(before).has_content ==> scanned(before).current == no_lines(),
        forall|i: int| 0 <= i < headed.len() ==> is_hunk((#[trigger] headed[i]).1),
    ensures
        scanned(before + headed_lines(headed)).bad is None,
        (if scanned(before + headed_lines(headed)).has_content {
            scanned(before + headed_lines(headed)).hunks.push(
                scanned(before + headed_lines(headed)).current,
            )
        } else {
            scanned(before + headed_lines(headed)).hunks
        }) == done + headed_said(headed),
        !scanned(before + headed_lines(headed)).has_content ==> scanned(
            before + headed_lines(headed),
        ).current == no_lines(),
    decreases headed.len(),
{
    if headed.len() == 0 {
        assert(before + headed_lines(headed) =~= before);
        assert(done + headed_said(headed) =~= done);
    } else {
        let some = headed.drop_last();
        let (note, raw) = headed.last();
        assert forall|i: int| 0 <= i < some.len() implies is_hunk((#[trigger] some[i]).1) by {
            assert(some[i] == headed[i]);
        }
        lemma_scanned_headed(before, some, done);
        let a = before + headed_lines(some);
        let head = "@@"@ + note;
        assert(headed[headed.len() - 1] == headed.last());
        assert(is_hunk(raw));
        let b = a.push(head);
        assert(b.drop_last() =~= a);
        reveal_strlit("@@");
        assert("@@"@.is_prefix_of(head)) by {
            assert(head.subrange(0, 2) =~= "@@"@);
        }
        assert(scanned(b).hunks == done + headed_said(some));
        lemma_scanned_hunk(b, raw);
        assert(before + headed_lines(headed) =~= b + raw);
        assert(raw.len() > 0);
        assert((done + headed_said(some)).push(hunk_said(raw)) =~= done + headed_said(headed));
    }
}

proof fn lemma_hunks_said(first: Seq<Seq<char>>, headed: Seq<(Seq<char>, Seq<Seq<char>>)>)
    requires
        first.len() > 0 ==> is_hunk(first),
        first.len() > 0 || headed.len() > 0,
        forall|i: int| 0 <= i < headed.len() ==> is_hunk((#[trigger] headed[i]).1),
    ensures
        hunks_of(first + headed_lines(headed)) == Ok::<Seq<HunkView>, Failure>(
            if first.len() > 0 {
                seq![hunk_said(first)] + headed_said(headed)
            } else {
                headed_said(headed)
            },
        ),
{
    let e = Seq::<Seq<char>>::empty();
    assert(e + first =~= first);
    lemma_scanned_hunk(e, first);
    let done = if first.len() > 0 {
        seq![hunk_said(first)]
    } else {
        Seq::empty()
    };
    assert(Seq::<HunkView>::empty().push(hunk_said(first)) =~= seq![hunk_said(first)]);
    if first.len() == 0 {
        assert(first =~= e);
    }
    lemma_scanned_headed(first, headed, done);
    let all = done + headed_said(headed);
    if first.len() == 0 {
        assert(all =~= headed_said(headed));
    }
    assert(are_located(all)) by {
        assert forall|i: int| 0 <= i < all.len() implies (#[trigger] all[i]).old_lines.len() > 0 by {
            if i < done.len() {
                assert(all[i] == hunk_said(first));
            } else {
                assert(all[i] == hunk_said(headed[i - done.len()].1));
            }
        }
    }
}

proof fn lemma_section_end_is(body: Seq<Seq<char>>, i: int, end: int)
    requires
        0 <= i <= end <= body.len(),
        forall|j: int| i <= j < end ==> !is_section(#[trigger] body[j]),
        end == body.len() || is_section(body[end]),
    ensures
        section_end(body, i) == end,
    decreases end - i,
{
    if i < end {
        lemma_section_end_is(body, i + 1, end);
    }
}

proof fn lemma_no_star_no_section(line: Seq<char>)
    requires
        line.len() > 0 ==> line[0] != '*',
    ensures
        !is_section(line),
        line.len() > 0 && !text::is_white_space(line[0]) ==> text::trimmed(line)
            != "*** End Patch"@,
{
    reveal_strlit("*** Update File: ");
    reveal_strlit("*** Add File: ");
    reveal_strlit("*** Delete File: ");
    reveal_strlit("*** End Patch");
    if "*** Update File: "@.is_prefix_of(line) {
        assert(line.subrange(0, 17)[0] == '*');
    }
    if "*** Add File: "@.is_prefix_of(line) {
        assert(line.subrange(0, 14)[0] == '*');
    }
    if "*** Delete File: "@.is_prefix_of(line) {
        assert(line.subrange(0, 17)[0] == '*');
    }
    if line.len() > 0 && !text::is_white_space(line[0]) {
        lemma_trimmed_end_is_prefix(line);
    }
}

proof fn lemma_trimmed_end_is_prefix(s: Seq<char>)
    ensures
        text::trimmed_end(s).len() <= s.len(),
        forall|i: int| 0 <= i < text::trimmed_end(s).len() ==> text::trimmed_end(s)[i] == s[i],
    decreases s.len(),
{
    if s.len() > 0 && text::is_white_space(s.last()) {
        lemma_trimmed_end_is_prefix(s.drop_last());
        assert forall|i: int| 0 <= i < text::trimmed_end(s).len() implies text::trimmed_end(s)[i]
            == s[i] by {
            assert(s.drop_last()[i] == s[i]);
        }
    }
}

proof fn lemma_heading(front: Seq<char>, path: Seq<char>)
    requires
        front == "*** Update File: "@ || front == "*** Add File: "@ || front
            == "*** Delete File: "@,
        text_laws::is_line(path),
        text_laws::is_tight(path),
    ensures
        is_section(front + path),
        text::after_prefix(front + path, front) == Some(path),
        front != "*** Update File: "@ ==> text::after_prefix(front + path, "*** Update File: "@)
            is None,
        front == "*** Delete File: "@ ==> text::after_prefix(front + path, "*** Add File: "@)
            is None,
        text::trimmed(path) == path,
        text::trimmed(front + path) != "*** End Patch"@,
        text_laws::is_line(front + path),
{
    reveal_strlit("*** Update File: ");
    reveal_strlit("*** Add File: ");
    reveal_strlit("*** Delete File: ");
    reveal_strlit("*** End Patch");
    let line = front + path;
    let e = Seq::<char>::empty();
    text_laws::law_a_prefix_comes_off(front, path);
    text_laws::law_trimming_takes_the_white_space_around(e, path, e);
    assert(e + path + e =~= path);
    assert(line.subrange(0, front.len() as int) =~= front);
    assert(line[4] == front[4]);
    if front != "*** Update File: "@ && "*** Update File: "@.is_prefix_of(line) {
        assert(line.subrange(0, 17)[4] == 'U');
    }
    if front == "*** Delete File: "@ && "*** Add File: "@.is_prefix_of(line) {
        assert(line.subrange(0, 14)[4] == 'A');
    }
    lemma_trimmed_end_is_prefix(line);
    assert(text::trimmed(line)[4] == 'E' ==> line[4] == 'E' || text::trimmed(line).len() < 5);
    if path.len() == 0 {
        assert(line =~= front);
    }
}

/// What every line of a written section is, and that none but the first opens one.
proof fn lemma_section_lines(section: Section)
    requires
        is_sound(section),
    ensures
        section_lines(section).len() > 0,
        is_section(section_lines(section)[0]),
        forall|i: int|
            0 < i < section_lines(section).len() ==> !is_section(
                #[trigger] section_lines(section)[i],
            ),
        forall|i: int|
            0 <= i < section_lines(section).len() ==> text_laws::is_line(
                #[trigger] section_lines(section)[i],
            ) && text::trimmed(section_lines(section)[i]) != "*** End Patch"@,
{
    let all = section_lines(section);
    reveal_strlit("+");
    match section {
        Section::Update { path, first, headed } => {
            lemma_heading("*** Update File: "@, path);
            lemma_headed_lines(headed);
            assert forall|i: int| 0 < i < all.len() implies !is_section(#[trigger] all[i])
                && text_laws::is_line(all[i]) && text::trimmed(all[i]) != "*** End Patch"@ by {
                if i - 1 < first.len() {
                    assert(all[i] == first[i - 1]);
                    assert(is_hunk_line(first[i - 1]));
                    lemma_no_star_no_section(all[i]);
                } else {
                    assert(all[i] == headed_lines(headed)[i - 1 - first.len()]);
                }
            }
        },
        Section::Add { path, content } => {
            lemma_heading("*** Add File: "@, path);
            assert forall|i: int| 0 < i < all.len() implies !is_section(#[trigger] all[i])
                && text_laws::is_line(all[i]) && text::trimmed(all[i]) != "*** End Patch"@ by {
                assert(all[i] == "+"@ + content[i - 1]);
                assert(text_laws::is_line(content[i - 1]));
                lemma_no_star_no_section(all[i]);
                if content[i - 1].len() == 0 {
                    assert(all[i].last() == '+');
                }
            }
        },
        Section::Delete { path } => {
            lemma_heading("*** Delete File: "@, path);
        },
    }
}

proof fn lemma_headed_lines(headed: Seq<(Seq<char>, Seq<Seq<char>>)>)
    requires
        forall|i: int|
            0 <= i < headed.len() ==> text_laws::is_line((#[trigger] headed[i]).0) && is_hunk(
                headed[i].1,
            ),
    ensures
        forall|i: int|
            0 <= i < headed_lines(headed).len() ==> !is_section(#[trigger] headed_lines(headed)[i])
                && text_laws::is_line(headed_lines(headed)[i]) && text::trimmed(
                headed_lines(headed)[i],
            ) != "*** End Patch"@,
    decreases headed.len(),
{
    if headed.len() > 0 {
        let some = headed.drop_last();
        let (note, raw) = headed.last();
        assert forall|i: int| 0 <= i < some.len() implies text_laws::is_line((#[trigger] some[i]).0)
            && is_hunk(some[i].1) by {
            assert(some[i] == headed[i]);
        }
        lemma_headed_lines(some);
        assert(headed[headed.len() - 1] == headed.last());
        let all = headed_lines(headed);
        let n = headed_lines(some).len();
        reveal_strlit("@@");
        assert forall|i: int| 0 <= i < all.len() implies !is_section(#[trigger] all[i])
            && text_laws::is_line(all[i]) && text::trimmed(all[i]) != "*** End Patch"@ by {
            if i < n {
                assert(all[i] == headed_lines(some)[i]);
            } else if i == n {
                assert(all[i] == "@@"@ + note);
                lemma_no_star_no_section(all[i]);
                if note.len() == 0 {
                    assert(all[i].last() == '@');
                }
            } else {
                assert(all[i] == raw[i - n - 1]);
                assert(is_hunk_line(raw[i - n - 1]));
                lemma_no_star_no_section(all[i]);
            }
        }
    }
}

proof fn lemma_lines_so_far(list: Seq<Section>, n: int, m: int)
    requires
        0 <= n <= m,
    ensures
        lines_so_far(list, n).len() <= lines_so_far(list, m).len(),
        forall|i: int|
            0 <= i < lines_so_far(list, n).len() ==> lines_so_far(list, m)[i] == lines_so_far(
                list,
                n,
            )[i],
    decreases m - n,
{
    if n < m {
        lemma_lines_so_far(list, n, m - 1);
    }
}

proof fn lemma_sections_said(list: Seq<Section>, k: int)
    requires
        0 <= k <= list.len(),
        forall|i: int| 0 <= i < list.len() ==> is_sound(#[trigger] list[i]),
    ensures
        sections(lines_so_far(list, list.len() as int), lines_so_far(list, k).len() as int) == Ok::<
            Seq<OperationView>,
            Failure,
        >(Seq::new((list.len() - k) as nat, |i: int| section_said(list[k + i]))),
    decreases list.len() - k,
{
    let body = lines_so_far(list, list.len() as int);
    let at = lines_so_far(list, k).len() as int;
    let all = Seq::new((list.len() - k) as nat, |i: int| section_said(list[k + i]));
    if k == list.len() {
        assert(all =~= Seq::empty());
    } else {
        lemma_sections_said(list, k + 1);
        let rest = Seq::new((list.len() - (k + 1)) as nat, |i: int| section_said(list[k + 1 + i]));
        let section = list[k];
        let own = section_lines(section);
        lemma_section_lines(section);
        lemma_lines_so_far(list, k + 1, list.len() as int);
        let next = lines_so_far(list, k + 1);
        let end = next.len() as int;
        assert(next == lines_so_far(list, k) + own);
        assert forall|j: int| 0 <= j < own.len() implies body[at + j] == #[trigger] own[j] by {
            assert(next[at + j] == own[j]);
        }
        assert(body[at] == own[0]);
        assert(body.subrange(at + 1, end) =~= own.skip(1)) by {
            assert forall|j: int| 0 <= j < own.len() - 1 implies body[at + 1 + j]
                == #[trigger] own.skip(1)[j] by {
                assert(own.skip(1)[j] == own[j + 1]);
            }
        }
        if k + 1 < list.len() {
            lemma_section_lines(list[k + 1]);
            lemma_lines_so_far(list, k + 2, list.len() as int);
            assert(lines_so_far(list, k + 2)[end] == section_lines(list[k + 1])[0]);
        }
        assert forall|j: int| at + 1 <= j < end implies !is_section(#[trigger] body[j]) by {
            assert(body[j] == own[j - at]);
        }
        lemma_section_end_is(body, at + 1, end);
        assert(seq![section_said(section)] + rest =~= all);
        assert(section_end(body, at + 1) == end);
        assert(self::section(body, at + 1) == own.skip(1));
        assert(sections(body, end) == Ok::<Seq<OperationView>, Failure>(rest));
        match section {
            Section::Update { path, first, headed } => {
                lemma_heading("*** Update File: "@, path);
                assert(own.skip(1) =~= first + headed_lines(headed));
                assert forall|i: int| 0 <= i < headed.len() implies is_hunk(
                    (#[trigger] headed[i]).1,
                ) by {
                }
                lemma_hunks_said(first, headed);
                assert(sections(body, at) == after_operations(
                    seq![section_said(section)],
                    sections(body, end),
                ));
            },
            Section::Add { path, content } => {
                reveal_strlit("*** Update File: ");
                reveal_strlit("*** Add File: ");
                reveal_strlit("*** Delete File: ");
                assert("*** Update File: "@[4] == 'U' && "*** Add File: "@[4] == 'A'
                    && "*** Delete File: "@[4] == 'D');
                lemma_heading("*** Add File: "@, path);
                assert(added_lines(own.skip(1)) =~= content) by {
                    reveal_strlit("+");
                    assert forall|i: int| 0 <= i < content.len() implies added_lines(own.skip(1))[i]
                        =~= #[trigger] content[i] by {
                        assert(own.skip(1)[i] == "+"@ + content[i]);
                        assert(("+"@ + content[i]).skip(1) =~= content[i]);
                    }
                }
                assert(sections(body, at) == after_operations(
                    seq![section_said(section)],
                    sections(body, end),
                ));
            },
            Section::Delete { path } => {
                reveal_strlit("*** Update File: ");
                reveal_strlit("*** Add File: ");
                reveal_strlit("*** Delete File: ");
                assert("*** Update File: "@[4] == 'U' && "*** Add File: "@[4] == 'A'
                    && "*** Delete File: "@[4] == 'D');
                lemma_heading("*** Delete File: "@, path);
                assert(end == at + 1);
                assert(sections(body, at) == after_operations(
                    seq![section_said(section)],
                    sections(body, end),
                ));
            },
        }
    }
}

proof fn lemma_closing_is(lines: Seq<Seq<char>>, i: int, end: int)
    requires
        0 <= i <= end < lines.len(),
        forall|j: int| i <= j < end ==> text::trimmed(#[trigger] lines[j]) != "*** End Patch"@,
        text::trimmed(lines[end]) == "*** End Patch"@,
    ensures
        closing(lines, i) == end,
    decreases end - i,
{
    if i < end {
        lemma_closing_is(lines, i + 1, end);
    }
}

proof fn lemma_so_far_sound(list: Seq<Section>, n: int)
    requires
        0 <= n <= list.len(),
        forall|i: int| 0 <= i < list.len() ==> is_sound(#[trigger] list[i]),
    ensures
        forall|i: int|
            0 <= i < lines_so_far(list, n).len() ==> text_laws::is_line(
                #[trigger] lines_so_far(list, n)[i],
            ) && text::trimmed(lines_so_far(list, n)[i]) != "*** End Patch"@,
    decreases n,
{
    if n > 0 {
        lemma_so_far_sound(list, n - 1);
        lemma_section_lines(list[n - 1]);
        let a = lines_so_far(list, n - 1);
        let all = lines_so_far(list, n);
        assert forall|i: int| 0 <= i < all.len() implies text_laws::is_line(#[trigger] all[i])
            && text::trimmed(all[i]) != "*** End Patch"@ by {
            if i < a.len() {
                assert(all[i] == a[i]);
            } else {
                assert(all[i] == section_lines(list[n - 1])[i - a.len()]);
            }
        }
    }
}

/// A patch is read as it was written: each of its sections, in order, with its path and with the lines
/// that it keeps, removes and adds.
pub proof fn law_a_patch_is_read_as_written(list: Seq<Section>)
    requires
        list.len() > 0,
        forall|i: int| 0 <= i < list.len() ==> is_sound(#[trigger] list[i]),
    ensures
        parsed(patch_text(list)) == Ok::<Seq<OperationView>, Failure>(
            Seq::new(list.len(), |i: int| section_said(list[i])),
        ),
{
    let body = lines_so_far(list, list.len() as int);
    let lines = seq!["*** Begin Patch"@] + body + seq!["*** End Patch"@];
    let e = Seq::<char>::empty();
    reveal_strlit("*** Begin Patch");
    reveal_strlit("*** End Patch");
    lemma_so_far_sound(list, list.len() as int);
    assert(text_laws::are_lines(lines)) by {
        assert forall|i: int| 0 <= i < lines.len() implies text_laws::is_line(
            #[trigger] lines[i],
        ) by {
            if 0 < i < lines.len() - 1 {
                assert(lines[i] == body[i - 1]);
            }
        }
    }
    text_laws::law_lines_are_what_stands_between_their_endings(lines, seq!['x'], seq!['\n']);
    text_laws::law_trimming_takes_the_white_space_around(e, "*** Begin Patch"@, e);
    text_laws::law_trimming_takes_the_white_space_around(e, "*** End Patch"@, e);
    assert(e + "*** Begin Patch"@ + e =~= "*** Begin Patch"@);
    assert(e + "*** End Patch"@ + e =~= "*** End Patch"@);
    let end = body.len() + 1;
    assert forall|j: int| 1 <= j < end implies text::trimmed(#[trigger] lines[j])
        != "*** End Patch"@ by {
        assert(lines[j] == body[j - 1]);
    }
    lemma_closing_is(lines, 1, end as int);
    assert(lines.subrange(1, end as int) =~= body);
    lemma_sections_said(list, 0);
    assert(Seq::new((list.len() - 0) as nat, |i: int| section_said(list[0 + i])) =~= Seq::new(
        list.len(),
        |i: int| section_said(list[i]),
    ));
}

// ---------------------------------------------------------------------------------------------
// What operations do to files
// ---------------------------------------------------------------------------------------------

/// An operation that succeeds does what its section says: an added file was not there and holds the
/// lines of its section, each closed by a line feed; a deleted file was there and is gone; an updated
/// file holds what its hunks make of what it held.
pub proof fn law_operations_do_what_they_say(
    site: path::Site,
    before: files::Contents,
    op: OperationView,
    target: Seq<char>,
)
    requires
        path::resolution(site, named(op)) == Ok::<Seq<char>, Failure>(target),
    ensures
        operated(site, before, op) matches Ok(after) ==> match op {
            OperationView::Add { path, content } => {
                &&& files::at(before, target) is None || files::at(before, target) == Some(
                    files::Entry::Gone,
                )
                &&& files::content(after, target) == Some(
                    text_laws::ended(content, seq!['\n']),
                )
            },
            OperationView::Delete { path } => {
                &&& files::is_file(before, target)
                &&& !files::exists_at(after, target)
            },
            OperationView::Update { path, hunks } => {
                &&& files::content(before, target) matches Some(c)
                &&& updated(c, hunks, path) matches Ok(new)
                &&& files::content(after, target) == Some(new)
            },
        },
{
    reveal_strlit("\n");
    assert("\n"@ =~= seq!['\n']);
    files::law_a_removed_file_is_gone(before, target, target);
    match op {
        OperationView::Add { path, content } => {
            lemma_file_text(content, "\n"@, true);
            files::law_reading_gives_back_what_was_written(
                before,
                target,
                new_content(content),
                target,
            );
        },
        OperationView::Delete { path } => {},
        OperationView::Update { path, hunks } => {
            if let Some(files::Entry::Text(c)) = files::at(before, target) {
                if let Ok(new) = updated(c, hunks, path) {
                    files::law_reading_gives_back_what_was_written(before, target, new, target);
                }
            }
        },
    }
}

/// Operations are performed in order, each on the files that those before it left; the first that fails
/// ends the patch.
pub proof fn law_operations_are_performed_in_order(
    site: path::Site,
    before: files::Contents,
    a: Seq<OperationView>,
    op: OperationView,
    b: Seq<OperationView>,
)
    ensures
        performed(site, before, a).failure is Some ==> performed(site, before, a + b) == performed(
            site,
            before,
            a,
        ),
        performed(site, before, a).failure is None ==> performed(site, before, a + b) == performed(
            site,
            performed(site, before, a).files,
            b,
        ),
        performed(site, before, seq![op]) == (match operated(site, before, op) {
            Ok(after) => Progress { files: after, failure: None },
            Err(e) => Progress { files: before, failure: Some(e) },
        }),
    decreases b.len(),
{
    assert(seq![op].drop_last() =~= Seq::empty());
    assert(performed(site, before, seq![op].drop_last()) == (Progress {
        files: before,
        failure: None,
    }));
    if b.len() == 0 {
        assert(a + b =~= a);
    } else {
        law_operations_are_performed_in_order(site, before, a, op, b.drop_last());
        assert((a + b).drop_last() =~= a + b.drop_last());
        assert((a + b).last() == b.last());
    }
}

} // verus!
