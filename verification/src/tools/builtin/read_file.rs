//! Reading a text file.

use vstd::prelude::*;

use crate::text;
use crate::text_laws;
use crate::text::{cat3, decode_strict, lines, number};
use crate::tools::contract;
use crate::tools::contract::{
    is_a_directory, Failure, FailureKind, ToolCallId, ToolDefinition, ToolError, ToolOutput,
    ToolResult, ToolStatus,
};
use crate::tools::path;
use crate::tools::path::{resolve_workspace_path, Workspace};
use crate::tools::permissions::PermissionReason;
use crate::tools::workspace;
use crate::tools::workspace::looks_binary;

verus! {

/// How many lines are given when no range is asked for.
pub const DEFAULT_MAX_LINES: usize = 300;

/// The name of the tool.
pub const NAME: &'static str = "read_file";

/// What the model is told of the tool.
pub const DESCRIPTION: &'static str = "Read UTF-8 text from a file inside the current project. Use start_line/end_line (1-based) for large files. Do not use this tool for binary files; it will reject them.";

/// The JSON schema of its arguments.
pub const SCHEMA: &'static str = "{\"type\":\"object\",\"properties\":{\"path\":{\"type\":\"string\",\"description\":\"Project-relative file path\"},\"start_line\":{\"type\":\"integer\",\"minimum\":1},\"end_line\":{\"type\":\"integer\",\"minimum\":1}},\"required\":[\"path\"],\"additionalProperties\":false}";

/// Says what the tool does and takes.
pub fn definition() -> (r: ToolDefinition)
    ensures
        r.says(NAME@, DESCRIPTION@, SCHEMA@),
{
    ToolDefinition::new(NAME, DESCRIPTION, SCHEMA)
}

/// The arguments of the tool.
#[derive(Debug, PartialEq, Eq)]
pub struct ReadRequest {
    pub path: String,
    /// First line, counted from one.
    pub start_line: Option<usize>,
    /// Last line, counted from one.
    pub end_line: Option<usize>,
}

/// What is found at a path.
#[derive(Debug, PartialEq, Eq)]
pub enum Found {
    /// A directory.
    Directory,
    /// Nothing.
    Missing,
    /// A file that could not be read, and why.
    Unreadable(String),
    /// A file.
    Content(Vec<u8>),
}

/// The first line that is given.
pub open spec fn first_line(request: ReadRequest) -> int {
    match request.start_line {
        Some(n) => if n >= 1 {
            n as int
        } else {
            1
        },
        None => 1,
    }
}

/// Whether a range is asked for.
pub open spec fn has_range(request: ReadRequest) -> bool {
    request.start_line is Some || request.end_line is Some
}

/// The last line that is given, of so many.
pub open spec fn last_line(request: ReadRequest, total: int) -> int {
    let end = match request.end_line {
        Some(n) => n as int,
        None => if has_range(request) {
            total
        } else {
            first_line(request) + DEFAULT_MAX_LINES - 1
        },
    };
    if end < total {
        end
    } else {
        total
    }
}

/// Whether the range that is asked for ends before it begins, inside the file.
pub open spec fn is_backward(request: ReadRequest, total: int) -> bool {
    first_line(request) <= total && last_line(request, total) < first_line(request) - 1
}

/// Tells whether the range that is asked for ends before it begins, in a file with so many lines.
pub fn reads_backward(request: &ReadRequest, total: usize) -> (r: bool)
    ensures
        r == is_backward(*request, total as int),
{
    let (start, end) = range_of(request, total);
    start <= total && end < start - 1
}

/// Lines with their numbers, from one to another, the first excluded.
pub open spec fn numbered(lines: Seq<Seq<char>>, from: int, to: int) -> Seq<char>
    decreases to - from,
{
    if to <= from {
        Seq::empty()
    } else {
        numbered(lines, from, to - 1) + (text::decimal(to as nat) + " | "@ + lines[to - 1] + "\n"@)
    }
}

/// Whether something is left out that was not asked to be.
pub open spec fn is_cut(request: ReadRequest, total: int) -> bool {
    !has_range(request) && last_line(request, total) < total
}

/// What is given of a text.
pub open spec fn excerpt(lines: Seq<Seq<char>>, request: ReadRequest) -> Seq<char> {
    let total = lines.len() as int;
    let start = first_line(request);
    let end = last_line(request, total);
    let body = if start > total {
        "(the requested range is beyond the end of the file)\n"@
    } else {
        numbered(lines, start - 1, end)
    };
    if is_cut(request, total) {
        body + ("[Showing lines "@ + text::decimal(start as nat) + "-"@ + text::decimal(end as nat)
            + " of "@ + text::decimal(total as nat)
            + ". Request another range to continue.]\n"@)
    } else {
        body
    }
}

/// Gives the first and the last line of the range.
fn range_of(request: &ReadRequest, total: usize) -> (r: (usize, usize))
    ensures
        r.0 == first_line(*request),
        r.1 == last_line(*request, total as int),
{
    let start: usize = match request.start_line {
        Some(n) => if n >= 1 {
            n
        } else {
            1
        },
        None => 1,
    };
    let end: usize = match request.end_line {
        Some(n) => n,
        None => if request.start_line.is_some() {
            total
        } else {
            DEFAULT_MAX_LINES
        },
    };
    (
        start,
        if end < total {
            end
        } else {
            total
        },
    )
}

/// Gives the lines of a text that are asked for, and tells whether something was left out.
pub fn render(content: &str, request: &ReadRequest) -> (r: (String, bool))
    requires
        !is_backward(*request, text::lines_of(content@).len() as int),
    ensures
        r.0@ == excerpt(text::lines_of(content@), *request),
        r.1 == is_cut(*request, text::lines_of(content@).len() as int),
{
    let all: Vec<String> = lines(content);
    let ghost every = text::texts(all@);
    let total: usize = all.len();
    assert(every.len() == total);
    let (start, end) = range_of(request, total);
    let mut out: String = String::new();
    if start > total {
        out = "(the requested range is beyond the end of the file)\n".to_owned();
    } else {
        let from: usize = start - 1;
        let mut i: usize = from;
        assert(out@ =~= numbered(every, from as int, from as int));
        while i < end
            invariant
                from <= i <= end <= total,
                total == all.len(),
                every == text::texts(all@),
                out@ == numbered(every, from as int, i as int),
            decreases end - i,
        {
            assert(every[i as int] == all@[i as int]@);
            let n: String = number((i + 1) as u64);
            let line: String = text::cat4(n.as_str(), " | ", all[i].as_str(), "\n");
            out.append(line.as_str());
            i = i + 1;
        }
    }
    let cut: bool = request.start_line.is_none() && request.end_line.is_none() && end < total;
    if cut {
        let a: String = number(start as u64);
        let b: String = number(end as u64);
        let c: String = number(total as u64);
        let front: String = text::cat5("[Showing lines ", a.as_str(), "-", b.as_str(), " of ");
        let note: String = cat3(
            front.as_str(),
            c.as_str(),
            ". Request another range to continue.]\n",
        );
        out.append(note.as_str());
    }
    (out, cut)
}

/// The text that is found, or why there is none.
pub open spec fn readable(
    site: path::Site,
    request: ReadRequest,
    permission: Result<(), PermissionReason>,
    found: Found,
) -> Result<Seq<char>, Failure> {
    match permission {
        Err(reason) => Err(Failure { kind: FailureKind::PermissionDenied, text: reason.0@ }),
        Ok(_) => match path::resolution(site, request.path@) {
            Err(e) => Err(e),
            Ok(resolved) => match found {
                Found::Directory => Err(
                    contract::wrong(request.path@ + " is a directory, not a file"@),
                ),
                Found::Missing => Err(Failure { kind: FailureKind::NotFound, text: resolved }),
                Found::Unreadable(why) => Err(
                    Failure {
                        kind: FailureKind::Io,
                        text: "could not read "@ + resolved + ": "@ + why@,
                    },
                ),
                Found::Content(bytes) => if workspace::is_binary(bytes@) {
                    Err(
                        Failure {
                            kind: FailureKind::UnsupportedFileType,
                            text: "cannot read `"@ + request.path@
                                + "` as text because it appears to be a binary file"@,
                        },
                    )
                } else if !vstd::utf8::valid_utf8(bytes@) {
                    Err(
                        Failure {
                            kind: FailureKind::UnsupportedFileType,
                            text: "`"@ + request.path@ + "` does not contain valid UTF-8 text"@,
                        },
                    )
                } else {
                    Ok(vstd::utf8::decode_utf8(bytes@))
                },
            },
        },
    }
}

/// Gives the text that is found.
pub fn read_text(
    workspace: &Workspace,
    request: &ReadRequest,
    permission: Result<(), PermissionReason>,
    found: &Found,
) -> (r: Result<String, ToolError>)
    ensures
        contract::outcome(r) == readable(workspace@, *request, permission, *found),
{
    if let Err(reason) = permission {
        return Err(ToolError::PermissionDenied(reason.0));
    }
    let resolved: String = match resolve_workspace_path(workspace, request.path.as_str()) {
        Ok(p) => p,
        Err(e) => {
            return Err(e);
        },
    };
    match found {
        Found::Directory => Err(is_a_directory(request.path.as_str())),
        Found::Missing => Err(ToolError::NotFound(resolved)),
        Found::Unreadable(why) => Err(
            ToolError::Io(text::cat4("could not read ", resolved.as_str(), ": ", why.as_str())),
        ),
        Found::Content(bytes) => {
            if looks_binary(bytes.as_slice()) {
                return Err(
                    ToolError::UnsupportedFileType(
                        cat3(
                            "cannot read `",
                            request.path.as_str(),
                            "` as text because it appears to be a binary file",
                        ),
                    ),
                );
            }
            match decode_strict(bytes) {
                Some(t) => Ok(t),
                None => Err(
                    ToolError::UnsupportedFileType(
                        cat3("`", request.path.as_str(), "` does not contain valid UTF-8 text"),
                    ),
                ),
            }
        },
    }
}

/// Reads a file: the permission to read, then its path, its kind, and its lines.
pub fn read_file(
    workspace: &Workspace,
    call_id: ToolCallId,
    request: &ReadRequest,
    permission: Result<(), PermissionReason>,
    found: &Found,
) -> (r: Result<ToolResult, ToolError>)
    requires
        readable(workspace@, *request, permission, *found) matches Ok(content) ==> !is_backward(
            *request,
            text::lines_of(content).len() as int,
        ),
    ensures
        match readable(workspace@, *request, permission, *found) {
            Ok(content) => r matches Ok(t) && t.is_plain(
                call_id,
                ToolStatus::Success,
                excerpt(text::lines_of(content), *request),
                is_cut(*request, text::lines_of(content).len() as int),
            ),
            Err(e) => r matches Err(f) && f@ == e,
        },
{
    match read_text(workspace, request, permission, found) {
        Ok(t) => {
            let (content, truncated) = render(t.as_str(), request);
            Ok(ToolResult::success(call_id, ToolOutput { content, truncated }))
        },
        Err(e) => Err(e),
    }
}

// ---------------------------------------------------------------------------------------------
// Laws
// ---------------------------------------------------------------------------------------------

/// The lines of a file from the `from`-th to the `to`-th, counted from one, each behind its number.
pub open spec fn shown(lines: Seq<Seq<char>>, from: int, to: int) -> Seq<char> {
    text_laws::ended(
        Seq::new(
            (to - from + 1) as nat,
            |i: int| text::decimal((from + i) as nat) + " | "@ + lines[from + i - 1],
        ),
        seq!['\n'],
    )
}

proof fn lemma_shown(lines: Seq<Seq<char>>, from: int, to: int)
    requires
        1 <= from <= to + 1,
    ensures
        numbered(lines, from - 1, to) == shown(lines, from, to),
    decreases to - from + 1,
{
    reveal_strlit("\n");
    assert("\n"@ =~= seq!['\n']);
    let rows = Seq::new(
        (to - from + 1) as nat,
        |i: int| text::decimal((from + i) as nat) + " | "@ + lines[from + i - 1],
    );
    if from <= to {
        lemma_shown(lines, from, to - 1);
        let before = Seq::new(
            (to - from) as nat,
            |i: int| text::decimal((from + i) as nat) + " | "@ + lines[from + i - 1],
        );
        assert(rows.drop_last() =~= before);
        assert(numbered(lines, from - 1, to) =~= shown(lines, from, to));
    } else {
        assert(rows =~= Seq::empty());
    }
}

/// A range of a file is given whole: with a first line and no last one, every line from the first to the
/// end of the file; with a last line, every line up to it or to the end of the file. Nothing is marked
/// as left out.
pub proof fn law_a_range_is_given_whole(
    lines: Seq<Seq<char>>,
    request: ReadRequest,
    from: usize,
    to: usize,
)
    requires
        text_laws::are_lines(lines),
        1 <= from <= lines.len(),
        from <= to,
    ensures
        ({
            let all = text::lines_of(text_laws::ended(lines, seq!['\n']));
            let n = lines.len() as int;
            let end = if to < n {
                to as int
            } else {
                n
            };
            &&& request.start_line == Some(from) && request.end_line is None ==> {
                &&& excerpt(all, request) == shown(lines, from as int, n)
                &&& !is_cut(request, n)
            }
            &&& request.start_line == Some(from) && request.end_line == Some(to) ==> {
                &&& excerpt(all, request) == shown(lines, from as int, end)
                &&& !is_cut(request, n)
            }
            &&& request.start_line is None && request.end_line == Some(to) ==> {
                &&& excerpt(all, request) == shown(lines, 1, end)
                &&& !is_cut(request, n)
            }
            &&& request.start_line == Some(from) ==> !is_backward(request, n)
                || request.end_line is Some
        }),
{
    text_laws::law_lines_are_what_stands_between_their_endings(lines, seq!['x'], seq!['\n']);
    let n = lines.len() as int;
    let end = if to < n {
        to as int
    } else {
        n
    };
    lemma_shown(lines, from as int, n);
    lemma_shown(lines, from as int, end);
    lemma_shown(lines, 1, end);
}

/// Without a range the first three hundred lines are given. A file that is no longer is given whole and
/// not marked; of a longer one it is said which lines were given, of how many, and it is marked.
pub proof fn law_a_file_is_given_from_its_beginning(lines: Seq<Seq<char>>, request: ReadRequest)
    requires
        text_laws::are_lines(lines),
        request.start_line is None,
        request.end_line is None,
    ensures
        ({
            let all = text::lines_of(text_laws::ended(lines, seq!['\n']));
            let n = lines.len() as int;
            &&& 0 < n <= 300 ==> excerpt(all, request) == shown(lines, 1, n) && !is_cut(request, n)
            &&& n > 300 ==> {
                &&& excerpt(all, request) == shown(lines, 1, 300) + ("[Showing lines 1-300 of "@
                    + text::decimal(n as nat) + ". Request another range to continue.]\n"@)
                &&& is_cut(request, n)
            }
            &&& n == 0 ==> excerpt(all, request)
                == "(the requested range is beyond the end of the file)\n"@
        }),
{
    text_laws::law_lines_are_what_stands_between_their_endings(lines, seq!['x'], seq!['\n']);
    let n = lines.len() as int;
    if 0 < n <= 300 {
        lemma_shown(lines, 1, n);
    } else if n > 300 {
        lemma_shown(lines, 1, 300);
        reveal_with_fuel(text::decimal, 4);
        reveal_strlit("[Showing lines ");
        reveal_strlit("-");
        reveal_strlit(" of ");
        reveal_strlit("[Showing lines 1-300 of ");
        assert(text::decimal(1) =~= seq!['1']);
        assert(text::decimal(300) =~= seq!['3', '0', '0']);
        assert("[Showing lines "@ + text::decimal(1) + "-"@ + text::decimal(300) + " of "@
            =~= "[Showing lines 1-300 of "@);
        assert("[Showing lines "@ + text::decimal(1) + "-"@ + text::decimal(300) + " of "@
            + text::decimal(n as nat) + ". Request another range to continue.]\n"@
            =~= "[Showing lines 1-300 of "@ + text::decimal(n as nat)
            + ". Request another range to continue.]\n"@);
    }
}

/// A range that begins behind the end of a file is answered in words, with no line of the file.
pub proof fn law_a_range_behind_the_end_gives_no_line(
    lines: Seq<Seq<char>>,
    request: ReadRequest,
    from: usize,
)
    requires
        from > lines.len(),
        request.start_line == Some(from),
    ensures
        excerpt(lines, request) == "(the requested range is beyond the end of the file)\n"@,
        !is_cut(request, lines.len() as int),
{
}

} // verus!
