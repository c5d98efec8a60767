//! Inspecting the Git working tree.

use vstd::prelude::*;

use crate::text;
use crate::text_laws;
use crate::text::{byte_length, cat2, cat3, chars_of, cut_at, join, lines, text_of, trim_end};
use crate::tools::builtin;
use crate::tools::builtin::cap_chars;
use crate::tools::contract::{
    Failure, FailureKind, ToolCallId, ToolDefinition, ToolError, ToolOutput, ToolResult, ToolStatus,
};
use crate::tools::permissions::PermissionReason;
use crate::tools::process::{CommandRequest, ProcessError, ProcessResult};

verus! {

/// How many bytes of a diff are given.
pub const MAX_DIFF_CHARS: usize = 60_000;

/// How long a git command may run, in milliseconds.
pub const GIT_TIMEOUT_MS: u64 = 30_000;

/// The name of the status tool.
pub const STATUS_NAME: &'static str = "git_status";

/// What the model is told of the status tool.
pub const STATUS_DESCRIPTION: &'static str = "Show the current Git working tree status (staged, modified, untracked, and deleted files) for the project. Read-only.";

/// The JSON schema of the status tool's arguments.
pub const STATUS_SCHEMA: &'static str = "{\"type\":\"object\",\"properties\":{},\"additionalProperties\":false}";

/// The name of the diff tool.
pub const DIFF_NAME: &'static str = "git_diff";

/// What the model is told of the diff tool.
pub const DIFF_DESCRIPTION: &'static str = "Show the current Git diff for the project, optionally scoped to one path and optionally staged instead of the working tree. Read-only; output is bounded and marked when truncated.";

/// The JSON schema of the diff tool's arguments.
pub const DIFF_SCHEMA: &'static str = "{\"type\":\"object\",\"properties\":{\"path\":{\"type\":\"string\"},\"staged\":{\"type\":\"boolean\"}},\"additionalProperties\":false}";

/// Says what the status tool does and takes.
pub fn status_definition() -> (r: ToolDefinition)
    ensures
        r.says(STATUS_NAME@, STATUS_DESCRIPTION@, STATUS_SCHEMA@),
{
    ToolDefinition::new(STATUS_NAME, STATUS_DESCRIPTION, STATUS_SCHEMA)
}

/// Says what the diff tool does and takes.
pub fn diff_definition() -> (r: ToolDefinition)
    ensures
        r.says(DIFF_NAME@, DIFF_DESCRIPTION@, DIFF_SCHEMA@),
{
    ToolDefinition::new(DIFF_NAME, DIFF_DESCRIPTION, DIFF_SCHEMA)
}

/// The arguments of the diff tool.
#[derive(Debug, PartialEq, Eq)]
pub struct DiffRequest {
    pub path: Option<String>,
    pub staged: bool,
}

/// What to do next with a question to git.
#[derive(Debug, PartialEq, Eq)]
pub enum Next {
    /// Run it.
    Run(CommandRequest),
    /// Answer at once.
    Answer(ToolResult),
}

/// A git command.
pub open spec fn is_git(request: CommandRequest, cwd: Seq<char>, args: Seq<Seq<char>>) -> bool {
    &&& request.program@ == "git"@
    &&& text::texts(request.args@) == args
    &&& request.cwd@ == cwd
    &&& !request.shell
    &&& request.timeout_ms == GIT_TIMEOUT_MS
}

/// Whether a question to git goes on as it should: it is refused, the project has no repository, or
/// git is run.
pub open spec fn goes_on(
    r: Result<Next, ToolError>,
    root: Seq<char>,
    call_id: ToolCallId,
    permission: Result<(), PermissionReason>,
    is_repository: bool,
    args: Seq<Seq<char>>,
) -> bool {
    match permission {
        Err(reason) => r matches Err(f) && f@ == (Failure {
            kind: FailureKind::PermissionDenied,
            text: reason.0@,
        }),
        Ok(_) => if is_repository {
            r matches Ok(Next::Run(c)) && is_git(c, root, args)
        } else {
            &&& r matches Ok(Next::Answer(t))
            &&& t.is_plain(
                call_id,
                ToolStatus::Success,
                "This project is not inside a Git repository."@,
                false,
            )
        },
    }
}

/// Goes on with a question to git.
fn proceed(
    root: &str,
    call_id: ToolCallId,
    permission: Result<(), PermissionReason>,
    is_repository: bool,
    args: Vec<String>,
) -> (r: Result<Next, ToolError>)
    ensures
        goes_on(r, root@, call_id, permission, is_repository, text::texts(args@)),
{
    if let Err(reason) = permission {
        return Err(ToolError::PermissionDenied(reason.0));
    }
    if !is_repository {
        return Ok(
            Next::Answer(
                ToolResult::success(
                    call_id,
                    ToolOutput::new("This project is not inside a Git repository.".to_owned()),
                ),
            ),
        );
    }
    Ok(
        Next::Run(
            CommandRequest {
                program: "git".to_owned(),
                args,
                cwd: root.to_owned(),
                shell: false,
                timeout_ms: GIT_TIMEOUT_MS,
            },
        ),
    )
}

/// What a git command that could not be started comes to.
pub fn spawn_failed(error: ProcessError) -> (r: ToolError)
    ensures
        error matches ProcessError::SpawnFailed(m) ==> r@ == (Failure {
            kind: FailureKind::Internal,
            text: "could not run git: "@ + m@,
        }),
{
    match error {
        ProcessError::SpawnFailed(m) => ToolError::Internal(cat2("could not run git: ", m.as_str())),
    }
}

/// Asks git for the state of the working tree.
pub fn ask_status(
    root: &str,
    call_id: ToolCallId,
    permission: Result<(), PermissionReason>,
    is_repository: bool,
) -> (r: Result<Next, ToolError>)
    ensures
        goes_on(r, root@, call_id, permission, is_repository, seq!["status"@, "--porcelain"@]),
{
    let mut args: Vec<String> = Vec::new();
    args.push("status".to_owned());
    args.push("--porcelain".to_owned());
    assert(text::texts(args@) =~= seq!["status"@, "--porcelain"@]);
    proceed(root, call_id, permission, is_repository, args)
}

/// The kind of change that a line of the state stands for.
#[derive(Clone, Copy, Debug, PartialEq, Eq, Structural)]
pub enum StatusKind {
    Staged,
    Modified,
    Deleted,
    Untracked,
    /// A line that is not shown.
    Other,
}

/// Whether a line of the state has its path behind three bytes, or is too short to have one.
pub open spec fn is_status_line(line: Seq<char>) -> bool {
    text::byte_len(line) < 3 || text::byte_cut(line, 3) is Some
}

/// Whether every line of the state has its path behind three bytes, or is too short to have one.
pub open spec fn is_status(porcelain: Seq<char>) -> bool {
    forall|i: int|
        0 <= i < text::lines_of(porcelain).len() ==> is_status_line(
            #[trigger] text::lines_of(porcelain)[i],
        )
}

/// The kind of change that a line stands for, by the state in the index and in the working tree.
pub open spec fn status_kind(line: Seq<char>) -> StatusKind {
    let index = line[0];
    let tree_is = |c: char| text::width(index) == 1 && line[1] == c;
    if text::byte_len(line) < 3 {
        StatusKind::Other
    } else if index == '?' && tree_is('?') {
        StatusKind::Untracked
    } else if index == 'D' || tree_is('D') {
        StatusKind::Deleted
    } else if tree_is('M') {
        StatusKind::Modified
    } else if index != ' ' {
        StatusKind::Staged
    } else {
        StatusKind::Other
    }
}

/// The path of a line, behind its first three bytes.
pub open spec fn status_path(line: Seq<char>) -> Seq<char> {
    match text::byte_cut(line, 3) {
        Some(front) => line.skip(front.len() as int),
        None => Seq::empty(),
    }
}

/// The paths of one kind.
pub open spec fn paths_of(lines: Seq<Seq<char>>, kind: StatusKind) -> Seq<Seq<char>>
    decreases lines.len(),
{
    if lines.len() == 0 {
        Seq::empty()
    } else if status_kind(lines.last()) == kind {
        paths_of(lines.drop_last(), kind).push(status_path(lines.last()))
    } else {
        paths_of(lines.drop_last(), kind)
    }
}

/// The paths of one section, each on a line.
pub open spec fn path_lines(paths: Seq<Seq<char>>) -> Seq<char>
    decreases paths.len(),
{
    if paths.len() == 0 {
        Seq::empty()
    } else {
        path_lines(paths.drop_last()) + ("  "@ + paths.last() + "\n"@)
    }
}

/// One section, unless it has no paths.
pub open spec fn section(label: Seq<char>, paths: Seq<Seq<char>>) -> Seq<Seq<char>> {
    if paths.len() == 0 {
        Seq::empty()
    } else {
        seq![label + ":\n"@ + path_lines(paths)]
    }
}

/// The sections of the state.
pub open spec fn sections(lines: Seq<Seq<char>>) -> Seq<Seq<char>> {
    section("Staged"@, paths_of(lines, StatusKind::Staged)) + section(
        "Modified"@,
        paths_of(lines, StatusKind::Modified),
    ) + section("Deleted"@, paths_of(lines, StatusKind::Deleted)) + section(
        "Untracked"@,
        paths_of(lines, StatusKind::Untracked),
    )
}

/// What is shown of the state.
pub open spec fn status_text(porcelain: Seq<char>) -> Seq<char> {
    let all = sections(text::lines_of(porcelain));
    if all.len() == 0 {
        "The working tree is clean."@
    } else {
        text::trimmed_end(text::joined(all, "\n"@))
    }
}

proof fn lemma_cut(line: Seq<char>)
    requires
        text::byte_len(line) >= 3,
        text::byte_cut(line, 3) is Some,
    ensures
        line.len() > 0,
        text::byte_cut(line, 3)->0.len() <= line.len(),
        text::width(line[0]) == 1 ==> line.len() > 1,
{
    lemma_cut_is_short(line, 3);
    reveal_with_fuel(text::byte_len, 2);
}

proof fn lemma_cut_is_short(line: Seq<char>, n: nat)
    requires
        text::byte_cut(line, n) is Some,
    ensures
        text::byte_cut(line, n)->0.len() <= line.len(),
    decreases line.len(),
{
    if n > 0 && line.len() > 0 && text::width(line[0]) <= n {
        lemma_cut_is_short(line.skip(1), (n - text::width(line[0])) as nat);
    }
}

/// Reads one line of the state.
fn read_line(line: &str) -> (r: (StatusKind, String))
    requires
        is_status_line(line@),
    ensures
        r.0 == status_kind(line@),
        r.0 != StatusKind::Other ==> r.1@ == status_path(line@),
{
    if byte_length(line) < 3 {
        return (StatusKind::Other, String::new());
    }
    proof {
        lemma_cut(line@);
    }
    let all: Vec<char> = chars_of(line);
    let front: String = match cut_at(line, 3) {
        Some(f) => f,
        None => String::new(),
    };
    let from: usize = chars_of(front.as_str()).len();
    let path: String = text_of(&all, from, all.len());
    assert(path@ =~= line@.skip(front@.len() as int));
    let index: char = all[0];
    let narrow: bool = text::char_width(index) == 1;
    let tree: char = if narrow {
        all[1]
    } else {
        ' '
    };
    let kind: StatusKind = if index == '?' && narrow && tree == '?' {
        StatusKind::Untracked
    } else if index == 'D' || (narrow && tree == 'D') {
        StatusKind::Deleted
    } else if narrow && tree == 'M' {
        StatusKind::Modified
    } else if index != ' ' {
        StatusKind::Staged
    } else {
        StatusKind::Other
    };
    (kind, path)
}

/// Writes one section, unless it has no paths.
fn push_section(list: &mut Vec<String>, label: &str, paths: &Vec<String>)
    ensures
        text::texts(final(list)@) == text::texts(old(list)@) + section(
            label@,
            text::texts(paths@),
        ),
{
    let ghost before = text::texts(list@);
    let ghost all = text::texts(paths@);
    if paths.len() == 0 {
        assert(before + Seq::<Seq<char>>::empty() =~= before);
        return;
    }
    let mut body: String = String::new();
    let mut i: usize = 0;
    assert(all.take(0) =~= Seq::empty());
    assert(body@ =~= path_lines(all.take(0)));
    while i < paths.len()
        invariant
            i <= paths@.len(),
            all == text::texts(paths@),
            body@ == path_lines(all.take(i as int)),
        decreases paths@.len() - i,
    {
        assert(all[i as int] == paths@[i as int]@);
        assert(all.take(i + 1).drop_last() =~= all.take(i as int));
        assert(all.take(i + 1).last() == all[i as int]);
        let line: String = cat3("  ", paths[i].as_str(), "\n");
        body.append(line.as_str());
        i = i + 1;
    }
    assert(all.take(i as int) =~= all);
    let own: String = cat3(label, ":\n", body.as_str());
    let ghost text = own@;
    list.push(own);
    assert(text::texts(list@) =~= before + seq![text]);
}

/// Appends a path where the kinds agree.
fn push_path(list: &mut Vec<String>, path: &String, take: bool)
    ensures
        text::texts(final(list)@) == (if take {
            text::texts(old(list)@).push(path@)
        } else {
            text::texts(old(list)@)
        }),
{
    let ghost before = text::texts(list@);
    if take {
        list.push(path.clone());
        assert(text::texts(list@) =~= before.push(path@));
    }
}

/// Shows the state of the working tree.
pub fn format_status(porcelain: &str) -> (r: String)
    requires
        is_status(porcelain@),
    ensures
        r@ == status_text(porcelain@),
{
    let all: Vec<String> = lines(porcelain);
    let ghost every = text::texts(all@);
    let mut staged: Vec<String> = Vec::new();
    let mut modified: Vec<String> = Vec::new();
    let mut deleted: Vec<String> = Vec::new();
    let mut untracked: Vec<String> = Vec::new();
    let mut i: usize = 0;
    proof {
        assert(every.take(0) =~= Seq::empty());
        assert(text::texts(staged@) =~= Seq::empty());
        assert(text::texts(modified@) =~= Seq::empty());
        assert(text::texts(deleted@) =~= Seq::empty());
        assert(text::texts(untracked@) =~= Seq::empty());
    }
    while i < all.len()
        invariant
            i <= all@.len(),
            every == text::texts(all@),
            every == text::lines_of(porcelain@),
            is_status(porcelain@),
            text::texts(staged@) == paths_of(every.take(i as int), StatusKind::Staged),
            text::texts(modified@) == paths_of(every.take(i as int), StatusKind::Modified),
            text::texts(deleted@) == paths_of(every.take(i as int), StatusKind::Deleted),
            text::texts(untracked@) == paths_of(every.take(i as int), StatusKind::Untracked),
        decreases all@.len() - i,
    {
        proof {
            assert(every[i as int] == all@[i as int]@);
            assert(is_status_line(text::lines_of(porcelain@)[i as int]));
            assert(every.take(i + 1).drop_last() =~= every.take(i as int));
            assert(every.take(i + 1).last() == every[i as int]);
        }
        let (kind, path) = read_line(all[i].as_str());
        push_path(&mut staged, &path, kind == StatusKind::Staged);
        push_path(&mut modified, &path, kind == StatusKind::Modified);
        push_path(&mut deleted, &path, kind == StatusKind::Deleted);
        push_path(&mut untracked, &path, kind == StatusKind::Untracked);
        i = i + 1;
    }
    assert(every.take(i as int) =~= every);
    let mut list: Vec<String> = Vec::new();
    let ghost none = text::texts(list@);
    push_section(&mut list, "Staged", &staged);
    push_section(&mut list, "Modified", &modified);
    push_section(&mut list, "Deleted", &deleted);
    push_section(&mut list, "Untracked", &untracked);
    proof {
        assert(none =~= Seq::empty());
        assert(text::texts(list@) =~= sections(every));
        assert(text::texts(list@).len() == list@.len());
    }
    if list.len() == 0 {
        "The working tree is clean.".to_owned()
    } else {
        let t: String = join(&list, "\n");
        trim_end(t.as_str())
    }
}

/// Tells whether every line of the state has its path behind three bytes, or is too short to have
/// one.
pub fn check_status(porcelain: &str) -> (r: bool)
    ensures
        r == is_status(porcelain@),
{
    let all: Vec<String> = lines(porcelain);
    let ghost every = text::texts(all@);
    let mut i: usize = 0;
    while i < all.len()
        invariant
            i <= all@.len(),
            every == text::texts(all@),
            every == text::lines_of(porcelain@),
            forall|j: int| 0 <= j < i ==> is_status_line(#[trigger] every[j]),
        decreases all@.len() - i,
    {
        assert(every[i as int] == all@[i as int]@);
        if byte_length(all[i].as_str()) >= 3 && cut_at(all[i].as_str(), 3).is_none() {
            assert(!is_status_line(text::lines_of(porcelain@)[i as int]));
            return false;
        }
        i = i + 1;
    }
    true
}

/// Answers with the state of the working tree.
pub fn conclude_status(call_id: ToolCallId, process: &ProcessResult) -> (r: ToolResult)
    requires
        is_status(process.stdout@),
    ensures
        r.is_plain(call_id, ToolStatus::Success, status_text(process.stdout@), false),
{
    ToolResult::success(call_id, ToolOutput::new(format_status(process.stdout.as_str())))
}

/// The arguments of the git command that shows a diff.
pub open spec fn diff_args(request: DiffRequest) -> Seq<Seq<char>> {
    let front = if request.staged {
        seq!["diff"@, "--staged"@]
    } else {
        seq!["diff"@]
    };
    match request.path {
        Some(p) => front + seq!["--"@, p@],
        None => front,
    }
}

/// Asks git for a diff.
pub fn ask_diff(
    root: &str,
    call_id: ToolCallId,
    request: &DiffRequest,
    permission: Result<(), PermissionReason>,
    is_repository: bool,
) -> (r: Result<Next, ToolError>)
    ensures
        goes_on(r, root@, call_id, permission, is_repository, diff_args(*request)),
{
    let mut args: Vec<String> = Vec::new();
    args.push("diff".to_owned());
    if request.staged {
        args.push("--staged".to_owned());
    }
    if let Some(p) = &request.path {
        args.push("--".to_owned());
        args.push(p.clone());
    }
    assert(text::texts(args@) =~= diff_args(*request));
    proceed(root, call_id, permission, is_repository, args)
}

/// What is shown of a diff.
pub open spec fn diff_text(diff: Seq<char>) -> Seq<char> {
    if diff.len() == 0 {
        "No changes."@
    } else if text::byte_len(diff) > MAX_DIFF_CHARS {
        text::byte_fit(diff, MAX_DIFF_CHARS as nat) + "\n[Diff truncated at 60000 characters.]"@
    } else {
        diff
    }
}

/// Answers with a diff.
pub fn conclude_diff(call_id: ToolCallId, process: ProcessResult) -> (r: ToolResult)
    ensures
        r.is_plain(
            call_id,
            ToolStatus::Success,
            diff_text(process.stdout@),
            text::byte_len(process.stdout@) > MAX_DIFF_CHARS,
        ),
{
    let ghost diff = process.stdout@;
    let (kept, truncated) = cap_chars(process.stdout, MAX_DIFF_CHARS);
    proof {
        if truncated {
            assert(diff.len() > 0);
            assert(text::width(diff[0]) <= 4);
            assert(text::byte_fit(diff, MAX_DIFF_CHARS as nat).len() > 0);
        }
    }
    let content: String = if kept.as_str().is_empty() {
        "No changes.".to_owned()
    } else if truncated {
        cat2(kept.as_str(), "\n[Diff truncated at 60000 characters.]")
    } else {
        kept
    };
    ToolResult::success(call_id, ToolOutput { content, truncated })
}

/// Each line of git's state says of one path what became of it, by two marks: the path is given as it
/// stands behind the blank, under the heading that the marks call for.
pub proof fn law_the_marks_say_what_became_of_a_path(index: char, tree: char, p: Seq<char>)
    requires
        (index as u32) < 128,
        (tree as u32) < 128,
    ensures
        ({
            let line = seq![index, tree, ' '] + p;
            &&& is_status_line(line)
            &&& status_path(line) == p
            &&& index == '?' && tree == '?' ==> status_kind(line) == StatusKind::Untracked
            &&& index == 'D' || tree == 'D' ==> status_kind(line) == StatusKind::Deleted
            &&& index != 'D' && tree == 'M' ==> status_kind(line) == StatusKind::Modified
            &&& index != ' ' && index != 'D' && index != '?' && tree != 'D' && tree != 'M'
                ==> status_kind(line) == StatusKind::Staged
            &&& index == ' ' && tree != 'D' && tree != 'M' ==> status_kind(line)
                == StatusKind::Other
        }),
{
    let line = seq![index, tree, ' '] + p;
    assert(line.skip(1) =~= seq![tree, ' '] + p);
    assert(line.skip(1).skip(1) =~= seq![' '] + p);
    assert(line.skip(1).skip(1).skip(1) =~= p);
    reveal_with_fuel(text::byte_cut, 4);
    reveal_with_fuel(text::byte_len, 4);
    let front = seq![index] + (seq![tree] + (seq![' '] + Seq::<char>::empty()));
    assert(text::byte_cut(line, 3) == Some(front));
    assert(front.len() == 3);
    assert(line.skip(3) =~= p);
}

/// Every path stands under its own heading, in the order of the lines, and under no other.
pub proof fn law_paths_are_kept_in_order(
    a: Seq<Seq<char>>,
    b: Seq<Seq<char>>,
    line: Seq<char>,
    kind: StatusKind,
)
    ensures
        paths_of(a + b, kind) == paths_of(a, kind) + paths_of(b, kind),
        paths_of(seq![line], kind) == (if status_kind(line) == kind {
            seq![status_path(line)]
        } else {
            Seq::empty()
        }),
    decreases b.len(),
{
    assert(seq![line].drop_last() =~= Seq::empty());
    assert(paths_of(seq![line].drop_last(), kind) =~= Seq::empty());
    assert(Seq::empty().push(status_path(line)) =~= seq![status_path(line)]);
    if b.len() == 0 {
        assert(a + b =~= a);
        assert(paths_of(a, kind) + paths_of(b, kind) =~= paths_of(a, kind));
    } else {
        law_paths_are_kept_in_order(a, b.drop_last(), line, kind);
        assert((a + b).drop_last() =~= a + b.drop_last());
        assert(paths_of(a + b, kind) =~= paths_of(a, kind) + paths_of(b, kind));
    }
}

/// A tree in which one path changed is shown as the heading of the change and the path below it; a tree
/// without a change is said to be clean.
pub proof fn law_one_change_is_shown_under_its_heading(line: Seq<char>, p: Seq<char>)
    requires
        text_laws::is_line(line),
        status_path(line) == p,
        p.len() > 0,
        !text::is_white_space(p.last()),
    ensures
        ({
            let shown = status_text(text_laws::ended(seq![line], seq!['\n']));
            &&& status_kind(line) == StatusKind::Staged ==> shown == "Staged:\n  "@ + p
            &&& status_kind(line) == StatusKind::Modified ==> shown == "Modified:\n  "@ + p
            &&& status_kind(line) == StatusKind::Deleted ==> shown == "Deleted:\n  "@ + p
            &&& status_kind(line) == StatusKind::Untracked ==> shown == "Untracked:\n  "@ + p
            &&& status_kind(line) == StatusKind::Other ==> shown == "The working tree is clean."@
        }),
        status_text(Seq::empty()) == "The working tree is clean."@,
{
    let e = Seq::<Seq<char>>::empty();
    let one = seq![line];
    assert(text_laws::are_lines(one)) by {
        assert forall|i: int| 0 <= i < one.len() implies text_laws::is_line(#[trigger] one[i]) by {
            assert(one[i] == line);
        }
    }
    text_laws::law_lines_are_what_stands_between_their_endings(one, seq!['x'], seq!['\n']);
    law_paths_are_kept_in_order(e, e, line, StatusKind::Staged);
    law_paths_are_kept_in_order(e, e, line, StatusKind::Modified);
    law_paths_are_kept_in_order(e, e, line, StatusKind::Deleted);
    law_paths_are_kept_in_order(e, e, line, StatusKind::Untracked);
    lemma_one_section("Staged"@, "Staged:\n  "@, p);
    lemma_one_section("Modified"@, "Modified:\n  "@, p);
    lemma_one_section("Deleted"@, "Deleted:\n  "@, p);
    lemma_one_section("Untracked"@, "Untracked:\n  "@, p);
    assert(sections(one) =~= (match status_kind(line) {
        StatusKind::Staged => section("Staged"@, seq![p]),
        StatusKind::Modified => section("Modified"@, seq![p]),
        StatusKind::Deleted => section("Deleted"@, seq![p]),
        StatusKind::Untracked => section("Untracked"@, seq![p]),
        StatusKind::Other => e,
    }));
    text_laws::law_lines_are_what_stands_between_their_endings(e, seq!['x'], seq!['\n']);
    assert(text_laws::ended(e, seq!['\n']) =~= Seq::<char>::empty());
    assert(sections(e) =~= e);
}

proof fn lemma_one_section(label: Seq<char>, front: Seq<char>, p: Seq<char>)
    requires
        p.len() > 0,
        !text::is_white_space(p.last()),
        (label == "Staged"@ && front == "Staged:\n  "@) || (label == "Modified"@ && front
            == "Modified:\n  "@) || (label == "Deleted"@ && front == "Deleted:\n  "@) || (label
            == "Untracked"@ && front == "Untracked:\n  "@),
    ensures
        section(label, seq![p]).len() == 1,
        text::trimmed_end(text::joined(section(label, seq![p]), "\n"@)) == front + p,
{
    reveal_strlit("Staged");
    reveal_strlit("Modified");
    reveal_strlit("Deleted");
    reveal_strlit("Untracked");
    reveal_strlit("Staged:\n  ");
    reveal_strlit("Modified:\n  ");
    reveal_strlit("Deleted:\n  ");
    reveal_strlit("Untracked:\n  ");
    reveal_strlit(":\n");
    reveal_strlit("  ");
    reveal_strlit("\n");
    assert(seq![p].drop_last() =~= Seq::empty());
    assert(path_lines(seq![p].drop_last()) =~= Seq::empty());
    let whole = label + ":\n"@ + path_lines(seq![p]);
    assert(whole =~= (front + p) + seq!['\n']);
    let e = Seq::<char>::empty();
    let s = front + p;
    assert(s.last() == p.last());
    assert(s[0] == front[0]);
    text_laws::law_trimming_takes_the_white_space_around(e, s, seq!['\n']);
}

/// A diff is asked of what is staged or of what is not, and of the one path where one is given, which
/// is never taken for an option. It is shown as it is up to 60000 bytes; of a longer one its beginning.
pub proof fn law_a_diff_is_asked_for_and_shown(request: DiffRequest, diff: Seq<char>)
    ensures
        diff_args(request)[0] == "diff"@,
        request.path is None ==> diff_args(request).len() == (if request.staged {
            2int
        } else {
            1
        }),
        request.path matches Some(p) ==> ({
            let args = diff_args(request);
            let n = args.len();
            n == (if request.staged {
                4int
            } else {
                3
            }) && args[n - 1] == p@ && args[n - 2] == "--"@
        }),
        request.staged ==> diff_args(request)[1] == "--staged"@,
        diff.len() == 0 ==> diff_text(diff) == "No changes."@,
        0 < diff.len() && text::byte_len(diff) <= 60_000 ==> diff_text(diff) == diff,
        text::byte_len(diff) > 60_000 ==> exists|kept: Seq<char>| #[trigger]
            kept.is_prefix_of(diff) && text::byte_len(kept) <= 60_000 && diff_text(diff) == kept
                + "\n[Diff truncated at 60000 characters.]"@,
{
    text_laws::law_a_fitted_text_is_the_longest_that_fits(diff, 60_000);
    if request.staged {
        assert(diff_args(request)[1] == "--staged"@);
    }
}

} // verus!
