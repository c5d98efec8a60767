//! Git worktrees: making an isolated one for a task, listing them, and removing them. Every change
//! is left to `git worktree`; no directory is deleted here.

use vstd::prelude::*;

use crate::text;
use crate::text_laws;
use crate::text::{
    cat2, cat3, chars_of, contains, lines, same_opt, same_text, strip_prefix, trim,
};
use crate::tools::path;
use crate::tools::path::{file_name_of, join_path, parent_of, same_path};
use crate::tools::process::{CommandRequest, ProcessError, ProcessResult};

verus! {

/// How long a git command may run, in milliseconds.
pub const GIT_TIMEOUT_MS: u64 = 60_000;

/// Why a worktree operation failed, as shown to the user.
#[derive(Debug, PartialEq, Eq)]
pub enum WorktreeError {
    /// The directory is not inside a Git repository.
    NotAGitRepository,
    /// A worktree or branch name is not accepted.
    InvalidName(String),
    /// `git` could not be started.
    SpawnFailed(String),
    /// `git` failed; carries its error output.
    GitFailed(String),
    /// No worktree has the given name or path.
    NotFound(String),
    /// The repository's main worktree was to be removed.
    RefusedMainWorktree,
}

/// A worktree error over plain values.
pub enum Fault {
    NotAGitRepository,
    InvalidName(Seq<char>),
    SpawnFailed(Seq<char>),
    GitFailed(Seq<char>),
    NotFound(Seq<char>),
    RefusedMainWorktree,
}

impl View for WorktreeError {
    type V = Fault;

    open spec fn view(&self) -> Fault {
        match *self {
            WorktreeError::NotAGitRepository => Fault::NotAGitRepository,
            WorktreeError::InvalidName(s) => Fault::InvalidName(s@),
            WorktreeError::SpawnFailed(s) => Fault::SpawnFailed(s@),
            WorktreeError::GitFailed(s) => Fault::GitFailed(s@),
            WorktreeError::NotFound(s) => Fault::NotFound(s@),
            WorktreeError::RefusedMainWorktree => Fault::RefusedMainWorktree,
        }
    }
}

/// What is shown of a fault.
pub open spec fn fault_text(e: Fault) -> Seq<char> {
    match e {
        Fault::NotAGitRepository => "this directory is not inside a Git repository"@,
        Fault::InvalidName(reason) => "invalid name: "@ + reason,
        Fault::SpawnFailed(message) => "could not run git: "@ + message,
        Fault::GitFailed(message) => "git failed: "@ + message,
        Fault::NotFound(target) => "no worktree matches '"@ + target + "'"@,
        Fault::RefusedMainWorktree => "refusing to remove the repository's main worktree"@,
    }
}

impl WorktreeError {
    /// What is shown of the error.
    pub fn message(&self) -> (r: String)
        ensures
            r@ == fault_text(self@),
    {
        match self {
            WorktreeError::NotAGitRepository => {
                "this directory is not inside a Git repository".to_owned()
            },
            WorktreeError::InvalidName(reason) => cat2("invalid name: ", reason.as_str()),
            WorktreeError::SpawnFailed(message) => cat2("could not run git: ", message.as_str()),
            WorktreeError::GitFailed(message) => cat2("git failed: ", message.as_str()),
            WorktreeError::NotFound(target) => cat3("no worktree matches '", target.as_str(), "'"),
            WorktreeError::RefusedMainWorktree => {
                "refusing to remove the repository's main worktree".to_owned()
            },
        }
    }
}

/// Where the branch of a new worktree comes from.
#[derive(Debug, PartialEq, Eq)]
pub enum BranchSource {
    /// A new branch with the worktree's name, based on another.
    New { base: String },
    /// A branch that is already there.
    Existing(String),
}

/// One worktree.
#[derive(Debug, PartialEq, Eq)]
pub struct WorktreeEntry {
    /// Absolute path.
    pub path: String,
    /// Checked-out branch, unless the head is detached.
    pub branch: Option<String>,
    /// Checked-out commit.
    pub head: String,
    /// Whether this is the repository's own worktree.
    pub is_main: bool,
}

/// A worktree over plain values.
pub struct EntryView {
    pub path: Seq<char>,
    pub branch: Option<Seq<char>>,
    pub head: Seq<char>,
    pub is_main: bool,
}

impl View for WorktreeEntry {
    type V = EntryView;

    open spec fn view(&self) -> EntryView {
        EntryView {
            path: self.path@,
            branch: text::opt_text(self.branch),
            head: self.head@,
            is_main: self.is_main,
        }
    }
}

/// Worktrees over plain values.
pub open spec fn entries(v: Seq<WorktreeEntry>) -> Seq<EntryView> {
    Seq::new(v.len(), |i: int| v[i]@)
}

/// Whether a character may stand in a name.
pub open spec fn is_safe(c: char) -> bool {
    ||| 'a' <= c <= 'z'
    ||| 'A' <= c <= 'Z'
    ||| '0' <= c <= '9'
    ||| c == '-'
    ||| c == '_'
    ||| c == '.'
}

/// Whether every character of a text may stand in a name.
pub open spec fn all_safe(s: Seq<char>) -> bool {
    forall|i: int| 0 <= i < s.len() ==> is_safe(#[trigger] s[i])
}

/// What is wrong with the name of a worktree or branch, if anything.
pub open spec fn name_fault(name: Seq<char>) -> Option<Seq<char>> {
    if name.len() == 0 {
        Some("name cannot be empty"@)
    } else if name == "."@ || name == ".."@ {
        Some("name cannot be '.' or '..'"@)
    } else if name[0] == '-' {
        Some("name cannot start with '-'"@)
    } else if text::contains_text(name, ".."@) || name.contains('/') || name.contains('\\') {
        Some("name cannot contain path separators or '..'"@)
    } else if !all_safe(name) {
        Some("name may only contain letters, digits, '-', '_', and '.'"@)
    } else {
        None
    }
}

/// Tells whether a character stands in a list.
fn holds(v: &Vec<char>, c: char) -> (r: bool)
    ensures
        r == v@.contains(c),
{
    let mut i: usize = 0;
    while i < v.len()
        invariant
            i <= v@.len(),
            forall|j: int| 0 <= j < i ==> v@[j] != c,
        decreases v@.len() - i,
    {
        if v[i] == c {
            assert(v@[i as int] == c);
            return true;
        }
        i = i + 1;
    }
    false
}

/// Tells whether every character may stand in a name.
fn check_safe(v: &Vec<char>) -> (r: bool)
    ensures
        r == all_safe(v@),
{
    let mut i: usize = 0;
    while i < v.len()
        invariant
            i <= v@.len(),
            forall|j: int| 0 <= j < i ==> is_safe(#[trigger] v@[j]),
        decreases v@.len() - i,
    {
        let c: char = v[i];
        let safe: bool = ('a' <= c && c <= 'z') || ('A' <= c && c <= 'Z') || ('0' <= c && c <= '9')
            || c == '-' || c == '_' || c == '.';
        if !safe {
            assert(!is_safe(v@[i as int]));
            return false;
        }
        i = i + 1;
    }
    true
}

/// An error about a name.
fn bad_name(reason: &str) -> (r: WorktreeError)
    ensures
        r@ == Fault::InvalidName(reason@),
{
    WorktreeError::InvalidName(reason.to_owned())
}

/// Accepts a name for a worktree or branch: not empty, no path, no step back, no leading `-`, which
/// `git` would take for an option, and nothing that a shell could read otherwise.
pub fn validate_name(name: &str) -> (r: Result<(), WorktreeError>)
    ensures
        match name_fault(name@) {
            Some(reason) => r matches Err(e) && e@ == Fault::InvalidName(reason),
            None => r is Ok,
        },
{
    let all: Vec<char> = chars_of(name);
    if all.len() == 0 {
        return Err(bad_name("name cannot be empty"));
    }
    if same_text(name, ".") || same_text(name, "..") {
        return Err(bad_name("name cannot be '.' or '..'"));
    }
    if all[0] == '-' {
        return Err(bad_name("name cannot start with '-'"));
    }
    if contains(name, "..") || holds(&all, '/') || holds(&all, '\\') {
        return Err(bad_name("name cannot contain path separators or '..'"));
    }
    if !check_safe(&all) {
        return Err(bad_name("name may only contain letters, digits, '-', '_', and '.'"));
    }
    Ok(())
}

/// The directory of a repository's worktrees: beside it, with `-worktrees` behind its name.
pub open spec fn worktrees_dir(repo_root: Seq<char>) -> Option<Seq<char>> {
    match (path::parent(repo_root), path::file_name(repo_root)) {
        (Some(parent), Some(name)) => Some(path::joined(parent, name + "-worktrees"@)),
        _ => None,
    }
}

/// Gives the directory of a repository's worktrees: `/code/myapp-worktrees` for `/code/myapp`.
pub fn worktrees_root(repo_root: &str) -> (r: Result<String, WorktreeError>)
    ensures
        match worktrees_dir(repo_root@) {
            Some(dir) => r matches Ok(d) && d@ == dir,
            None => r matches Err(e) && e@ == Fault::NotAGitRepository,
        },
{
    match (parent_of(repo_root), file_name_of(repo_root)) {
        (Some(parent), Some(name)) => {
            let own: String = cat2(name.as_str(), "-worktrees");
            Ok(join_path(parent.as_str(), own.as_str()))
        },
        _ => Err(WorktreeError::NotAGitRepository),
    }
}

/// A git command.
pub open spec fn is_git(request: CommandRequest, cwd: Seq<char>, args: Seq<Seq<char>>) -> bool {
    &&& request.program@ == "git"@
    &&& text::texts(request.args@) == args
    &&& request.cwd@ == cwd
    &&& !request.shell
    &&& request.timeout_ms == GIT_TIMEOUT_MS
}

/// Makes a git command.
fn git_request(cwd: &str, args: Vec<String>) -> (r: CommandRequest)
    ensures
        is_git(r, cwd@, text::texts(args@)),
{
    CommandRequest {
        program: "git".to_owned(),
        args,
        cwd: cwd.to_owned(),
        shell: false,
        timeout_ms: GIT_TIMEOUT_MS,
    }
}

/// Makes a git command of two words.
fn git_two(cwd: &str, a: &str, b: &str) -> (r: CommandRequest)
    ensures
        is_git(r, cwd@, seq![a@, b@]),
{
    let mut args: Vec<String> = Vec::new();
    args.push(a.to_owned());
    args.push(b.to_owned());
    assert(text::texts(args@) =~= seq![a@, b@]);
    git_request(cwd, args)
}

/// Makes a git command of three words.
fn git_three(cwd: &str, a: &str, b: &str, c: &str) -> (r: CommandRequest)
    ensures
        is_git(r, cwd@, seq![a@, b@, c@]),
{
    let mut args: Vec<String> = Vec::new();
    args.push(a.to_owned());
    args.push(b.to_owned());
    args.push(c.to_owned());
    assert(text::texts(args@) =~= seq![a@, b@, c@]);
    git_request(cwd, args)
}

/// What a git command that could not be started comes to.
pub fn spawn_failed(error: ProcessError) -> (r: WorktreeError)
    ensures
        error matches ProcessError::SpawnFailed(m) ==> r@ == Fault::SpawnFailed(m@),
{
    match error {
        ProcessError::SpawnFailed(m) => WorktreeError::SpawnFailed(m),
    }
}

/// Fails unless a git command exited with zero.
fn check_exit(process: &ProcessResult) -> (r: Result<(), WorktreeError>)
    ensures
        match process.exit_code {
            Some(0) => r is Ok,
            _ => r matches Err(e) && e@ == Fault::GitFailed(process.stderr@),
        },
{
    match process.exit_code {
        Some(code) => if code == 0 {
            Ok(())
        } else {
            Err(WorktreeError::GitFailed(process.stderr.clone()))
        },
        None => Err(WorktreeError::GitFailed(process.stderr.clone())),
    }
}

/// Asks git for the branch that is checked out. `is_repository` says whether the directory holds a
/// `.git` entry.
pub fn ask_current_branch(repo_root: &str, is_repository: bool) -> (r: Result<
    CommandRequest,
    WorktreeError,
>)
    ensures
        match r {
            Ok(request) => is_repository && is_git(
                request,
                repo_root@,
                seq!["rev-parse"@, "--abbrev-ref"@, "HEAD"@],
            ),
            Err(e) => !is_repository && e@ == Fault::NotAGitRepository,
        },
{
    if !is_repository {
        return Err(WorktreeError::NotAGitRepository);
    }
    Ok(git_three(repo_root, "rev-parse", "--abbrev-ref", "HEAD"))
}

/// Reads the branch that is checked out, or nothing for a detached head.
pub fn read_current_branch(process: &ProcessResult) -> (r: Result<Option<String>, WorktreeError>)
    ensures
        match process.exit_code {
            Some(0) => {
                let name = text::trimmed(process.stdout@);
                r matches Ok(b) && text::opt_text(b) == (if name.len() == 0 || name == "HEAD"@ {
                    None
                } else {
                    Some(name)
                })
            },
            _ => r matches Err(e) && e@ == Fault::GitFailed(process.stderr@),
        },
{
    match check_exit(process) {
        Ok(_) => {
            let name: String = trim(process.stdout.as_str());
            if name.as_str().is_empty() || same_text(name.as_str(), "HEAD") {
                Ok(None)
            } else {
                Ok(Some(name))
            }
        },
        Err(e) => Err(e),
    }
}

/// Asks git for the commit that is checked out.
pub fn ask_current_head(worktree_path: &str) -> (r: CommandRequest)
    ensures
        is_git(r, worktree_path@, seq!["rev-parse"@, "HEAD"@]),
{
    git_two(worktree_path, "rev-parse", "HEAD")
}

/// Reads the commit that is checked out.
pub fn read_current_head(process: &ProcessResult) -> (r: Option<String>)
    ensures
        text::opt_text(r) == (match process.exit_code {
            Some(0) => Some(text::trimmed(process.stdout@)),
            _ => None,
        }),
{
    match check_exit(process) {
        Ok(_) => Some(trim(process.stdout.as_str())),
        Err(_) => None,
    }
}

/// Reading git's list of worktrees: those that are complete, and the one at hand.
pub struct Listing {
    pub done: Seq<EntryView>,
    pub path: Option<Seq<char>>,
    pub head: Seq<char>,
    pub branch: Option<Seq<char>>,
}

/// A listing with the worktree at hand completed. The first one is the main one.
pub open spec fn flushed(l: Listing) -> Listing {
    match l.path {
        Some(p) => Listing {
            done: l.done.push(
                EntryView { path: p, branch: l.branch, head: l.head, is_main: l.done.len() == 0 },
            ),
            path: None,
            head: Seq::empty(),
            branch: None,
        },
        None => l,
    }
}

/// A branch's name without the place where git keeps it.
pub open spec fn short_branch(name: Seq<char>) -> Seq<char> {
    match text::after_prefix(name, "refs/heads/"@) {
        Some(short) => short,
        None => name,
    }
}

/// The listing after some lines.
pub open spec fn listing(lines: Seq<Seq<char>>) -> Listing
    decreases lines.len(),
{
    if lines.len() == 0 {
        Listing { done: Seq::empty(), path: None, head: Seq::empty(), branch: None }
    } else {
        let l = listing(lines.drop_last());
        let line = lines.last();
        if let Some(rest) = text::after_prefix(line, "worktree "@) {
            Listing { path: Some(rest), ..flushed(l) }
        } else if let Some(rest) = text::after_prefix(line, "HEAD "@) {
            Listing { head: rest, ..l }
        } else if let Some(rest) = text::after_prefix(line, "branch "@) {
            Listing { branch: Some(short_branch(rest)), ..l }
        } else {
            l
        }
    }
}

/// The worktrees that git lists.
pub open spec fn listed(porcelain: Seq<char>) -> Seq<EntryView> {
    flushed(listing(text::lines_of(porcelain))).done
}

/// Completes the worktree at hand.
fn flush(
    done: &mut Vec<WorktreeEntry>,
    at_hand: &mut Option<String>,
    head: &mut String,
    branch: &mut Option<String>,
)
    ensures
        ({
            let l = Listing {
                done: entries(old(done)@),
                path: text::opt_text(*old(at_hand)),
                head: old(head)@,
                branch: text::opt_text(*old(branch)),
            };
            flushed(l) == Listing {
                done: entries(final(done)@),
                path: text::opt_text(*final(at_hand)),
                head: final(head)@,
                branch: text::opt_text(*final(branch)),
            }
        }),
{
    let ghost before = entries(done@);
    match at_hand.take() {
        Some(p) => {
            let is_main: bool = done.len() == 0;
            let mut own_head: String = String::new();
            std::mem::swap(&mut own_head, head);
            let own_branch: Option<String> = branch.take();
            let entry: WorktreeEntry = WorktreeEntry {
                path: p,
                branch: own_branch,
                head: own_head,
                is_main,
            };
            let ghost own = entry@;
            done.push(entry);
            assert(before.len() == done@.len() - 1);
            assert(entries(done@) =~= before.push(own));
        },
        None => {},
    }
}

/// Reads git's list of worktrees.
pub fn parse_worktree_list(porcelain: &str) -> (r: Vec<WorktreeEntry>)
    ensures
        entries(r@) == listed(porcelain@),
{
    let all: Vec<String> = lines(porcelain);
    let ghost every = text::texts(all@);
    let mut done: Vec<WorktreeEntry> = Vec::new();
    let mut at_hand: Option<String> = None;
    let mut head: String = String::new();
    let mut branch: Option<String> = None;
    let mut i: usize = 0;
    assert(entries(done@) =~= Seq::empty());
    assert(head@ =~= Seq::empty());
    assert(every.take(0) =~= Seq::empty());
    while i < all.len()
        invariant
            i <= all@.len(),
            every == text::texts(all@),
            listing(every.take(i as int)) == (Listing {
                done: entries(done@),
                path: text::opt_text(at_hand),
                head: head@,
                branch: text::opt_text(branch),
            }),
        decreases all@.len() - i,
    {
        let line: &str = all[i].as_str();
        proof {
            assert(every[i as int] == line@);
            assert(every.take(i + 1).drop_last() =~= every.take(i as int));
            assert(every.take(i + 1).last() == line@);
        }
        if let Some(rest) = strip_prefix(line, "worktree ") {
            flush(&mut done, &mut at_hand, &mut head, &mut branch);
            at_hand = Some(rest);
        } else if let Some(rest) = strip_prefix(line, "HEAD ") {
            head = rest;
        } else if let Some(rest) = strip_prefix(line, "branch ") {
            branch = match strip_prefix(rest.as_str(), "refs/heads/") {
                Some(short) => Some(short),
                None => Some(rest),
            };
        }
        i = i + 1;
    }
    assert(every.take(i as int) =~= every);
    flush(&mut done, &mut at_hand, &mut head, &mut branch);
    done
}

/// Asks git for its worktrees.
pub fn ask_worktrees(repo_root: &str, is_repository: bool) -> (r: Result<
    CommandRequest,
    WorktreeError,
>)
    ensures
        match r {
            Ok(request) => is_repository && is_git(
                request,
                repo_root@,
                seq!["worktree"@, "list"@, "--porcelain"@],
            ),
            Err(e) => !is_repository && e@ == Fault::NotAGitRepository,
        },
{
    if !is_repository {
        return Err(WorktreeError::NotAGitRepository);
    }
    Ok(git_three(repo_root, "worktree", "list", "--porcelain"))
}

/// Reads git's worktrees, the main one first.
pub fn list_worktrees(process: &ProcessResult) -> (r: Result<Vec<WorktreeEntry>, WorktreeError>)
    ensures
        match process.exit_code {
            Some(0) => r matches Ok(v) && entries(v@) == listed(process.stdout@),
            _ => r matches Err(e) && e@ == Fault::GitFailed(process.stderr@),
        },
{
    match check_exit(process) {
        Ok(_) => Ok(parse_worktree_list(process.stdout.as_str())),
        Err(e) => Err(e),
    }
}

/// Whether a worktree is the one that is meant: by the name of its directory, by its path, or
/// because both paths lead to the same place.
pub open spec fn is_meant(
    entry: EntryView,
    place: Option<Seq<char>>,
    target: Seq<char>,
    target_place: Option<Seq<char>>,
) -> bool {
    ||| path::file_name(entry.path) == Some(target)
    ||| path::is_same(entry.path, target)
    ||| (place is Some && target_place is Some && path::is_same(place->0, target_place->0))
}

/// The places that paths lead to, where they lead anywhere.
pub open spec fn places(v: Seq<Option<String>>) -> Seq<Option<Seq<char>>> {
    Seq::new(v.len(), |i: int| text::opt_text(v[i]))
}

/// The first worktree at or after `i` that is meant, or -1.
pub open spec fn meant(
    list: Seq<EntryView>,
    at: Seq<Option<Seq<char>>>,
    target: Seq<char>,
    target_place: Option<Seq<char>>,
    i: int,
) -> int
    decreases list.len() - i,
{
    if i >= list.len() {
        -1
    } else if is_meant(
        list[i],
        if i < at.len() {
            at[i]
        } else {
            None
        },
        target,
        target_place,
    ) {
        i
    } else {
        meant(list, at, target, target_place, i + 1)
    }
}

/// Tells whether a worktree is the one that is meant.
fn check_meant(
    entry: &WorktreeEntry,
    place: &Option<String>,
    target: &str,
    target_place: &Option<String>,
) -> (r: bool)
    ensures
        r == is_meant(entry@, text::opt_text(*place), target@, text::opt_text(*target_place)),
{
    let own: Option<String> = Some(target.to_owned());
    let name: Option<String> = file_name_of(entry.path.as_str());
    if same_opt(&name, &own) || same_path(entry.path.as_str(), target) {
        return true;
    }
    match (place, target_place) {
        (Some(a), Some(b)) => same_path(a.as_str(), b.as_str()),
        _ => false,
    }
}

/// Finds the worktree that is meant. `at` gives, for each worktree, the place that its path leads to
/// on disk, and `target_place` the one that the target leads to.
pub fn resolve_target<'a>(
    list: &'a Vec<WorktreeEntry>,
    at: &Vec<Option<String>>,
    target: &str,
    target_place: &Option<String>,
) -> (r: Result<&'a WorktreeEntry, WorktreeError>)
    ensures
        ({
            let i = meant(entries(list@), places(at@), target@, text::opt_text(*target_place), 0);
            if i >= 0 {
                r matches Ok(e) && i < list@.len() && *e == list@[i]
            } else {
                r matches Err(e) && e@ == Fault::NotFound(target@)
            }
        }),
{
    let ghost every = entries(list@);
    let ghost where_to = places(at@);
    let ghost goal = text::opt_text(*target_place);
    let nowhere: Option<String> = None;
    let mut i: usize = 0;
    while i < list.len()
        invariant
            i <= list@.len(),
            every == entries(list@),
            where_to == places(at@),
            goal == text::opt_text(*target_place),
            nowhere is None,
            meant(every, where_to, target@, goal, 0) == meant(
                every,
                where_to,
                target@,
                goal,
                i as int,
            ),
        decreases list@.len() - i,
    {
        assert(every[i as int] == list@[i as int]@);
        let place: &Option<String> = if i < at.len() {
            &at[i]
        } else {
            &nowhere
        };
        if check_meant(&list[i], place, target, target_place) {
            return Ok(&list[i]);
        }
        i = i + 1;
    }
    Err(WorktreeError::NotFound(target.to_owned()))
}

/// Where a new worktree is made.
pub fn worktree_target(repo_root: &str, name: &str) -> (r: Result<String, WorktreeError>)
    ensures
        match worktrees_dir(repo_root@) {
            Some(dir) => r matches Ok(t) && t@ == path::joined(dir, name@),
            None => r matches Err(e) && e@ == Fault::NotAGitRepository,
        },
{
    match worktrees_root(repo_root) {
        Ok(dir) => Ok(join_path(dir.as_str(), name)),
        Err(e) => Err(e),
    }
}

/// Why no worktree can be made, if so.
pub open spec fn creation_fault(
    repo_root: Seq<char>,
    is_repository: bool,
    name: Seq<char>,
    branch: BranchSource,
    target_exists: bool,
) -> Option<Fault> {
    if let Some(reason) = name_fault(name) {
        Some(Fault::InvalidName(reason))
    } else if !is_repository {
        Some(Fault::NotAGitRepository)
    } else if let Some(reason) = (match branch {
        BranchSource::Existing(existing) => name_fault(existing@),
        BranchSource::New { .. } => None,
    }) {
        Some(Fault::InvalidName(reason))
    } else {
        match worktrees_dir(repo_root) {
            None => Some(Fault::NotAGitRepository),
            Some(dir) => if target_exists {
                Some(
                    Fault::InvalidName(
                        "'"@ + path::joined(dir, name) + "' already exists"@,
                    ),
                )
            } else {
                None
            },
        }
    }
}

/// The git command that makes a worktree.
pub open spec fn creation_args(
    name: Seq<char>,
    branch: BranchSource,
    target: Seq<char>,
) -> Seq<Seq<char>> {
    match branch {
        BranchSource::New { base } => seq![
            "worktree"@,
            "add"@,
            "-b"@,
            name,
            target,
            base@,
        ],
        BranchSource::Existing(existing) => seq!["worktree"@, "add"@, target, existing@],
    }
}

/// Asks git to make a worktree with a name. `target_exists` says whether something is already at the
/// place where it would be made.
pub fn ask_create(
    repo_root: &str,
    is_repository: bool,
    name: &str,
    branch: &BranchSource,
    target_exists: bool,
) -> (r: Result<CommandRequest, WorktreeError>)
    ensures
        match creation_fault(repo_root@, is_repository, name@, *branch, target_exists) {
            Some(e) => r matches Err(f) && f@ == e,
            None => r matches Ok(request) && is_git(
                request,
                repo_root@,
                creation_args(
                    name@,
                    *branch,
                    path::joined(worktrees_dir(repo_root@)->0, name@),
                ),
            ),
        },
{
    match validate_name(name) {
        Ok(_) => {},
        Err(e) => {
            return Err(e);
        },
    }
    if !is_repository {
        return Err(WorktreeError::NotAGitRepository);
    }
    if let BranchSource::Existing(existing) = branch {
        match validate_name(existing.as_str()) {
            Ok(_) => {},
            Err(e) => {
                return Err(e);
            },
        }
    }
    let target: String = match worktree_target(repo_root, name) {
        Ok(t) => t,
        Err(e) => {
            return Err(e);
        },
    };
    if target_exists {
        return Err(WorktreeError::InvalidName(cat3("'", target.as_str(), "' already exists")));
    }
    let mut args: Vec<String> = Vec::new();
    let ghost place = target@;
    args.push("worktree".to_owned());
    args.push("add".to_owned());
    match branch {
        BranchSource::New { base } => {
            args.push("-b".to_owned());
            args.push(name.to_owned());
            args.push(target);
            args.push(base.clone());
        },
        BranchSource::Existing(existing) => {
            args.push(target);
            args.push(existing.clone());
        },
    }
    assert(text::texts(args@) =~= creation_args(name@, *branch, place));
    Ok(git_request(repo_root, args))
}

/// Gives the worktree that git made. `head` is its commit, where it could be read.
pub fn create_worktree(
    process: &ProcessResult,
    target: String,
    name: &str,
    branch: &BranchSource,
    head: Option<String>,
) -> (r: Result<WorktreeEntry, WorktreeError>)
    ensures
        match process.exit_code {
            Some(0) => r matches Ok(e) && e@ == (EntryView {
                path: target@,
                branch: Some(
                    match *branch {
                        BranchSource::New { .. } => name@,
                        BranchSource::Existing(existing) => existing@,
                    },
                ),
                head: match head {
                    Some(h) => h@,
                    None => Seq::empty(),
                },
                is_main: false,
            }),
            _ => r matches Err(e) && e@ == Fault::GitFailed(process.stderr@),
        },
{
    match check_exit(process) {
        Ok(_) => {
            let own: String = match branch {
                BranchSource::New { .. } => name.to_owned(),
                BranchSource::Existing(existing) => existing.clone(),
            };
            let commit: String = match head {
                Some(h) => h,
                None => {
                    let none: String = String::new();
                    assert(none@ =~= Seq::empty());
                    none
                },
            };
            Ok(WorktreeEntry { path: target, branch: Some(own), head: commit, is_main: false })
        },
        Err(e) => Err(e),
    }
}

/// Asks git to remove the worktree that is meant, which must not be the main one. Nothing is forced:
/// git itself refuses to remove uncommitted changes.
pub fn ask_remove(
    repo_root: &str,
    list: &Vec<WorktreeEntry>,
    at: &Vec<Option<String>>,
    target: &str,
    target_place: &Option<String>,
) -> (r: Result<(String, CommandRequest), WorktreeError>)
    ensures
        ({
            let i = meant(entries(list@), places(at@), target@, text::opt_text(*target_place), 0);
            if i < 0 {
                r matches Err(e) && e@ == Fault::NotFound(target@)
            } else if list@[i].is_main {
                r matches Err(e) && e@ == Fault::RefusedMainWorktree
            } else {
                r matches Ok((p, request)) && p@ == list@[i].path@ && is_git(
                    request,
                    repo_root@,
                    seq!["worktree"@, "remove"@, list@[i].path@],
                )
            }
        }),
{
    match resolve_target(list, at, target, target_place) {
        Ok(entry) => {
            if entry.is_main {
                return Err(WorktreeError::RefusedMainWorktree);
            }
            Ok(
                (
                    entry.path.clone(),
                    git_three(repo_root, "worktree", "remove", entry.path.as_str()),
                ),
            )
        },
        Err(e) => Err(e),
    }
}

/// Gives the path of the worktree that git removed.
pub fn remove_worktree(process: &ProcessResult, removed: String) -> (r: Result<
    String,
    WorktreeError,
>)
    ensures
        match process.exit_code {
            Some(0) => r matches Ok(p) && p@ == removed@,
            _ => r matches Err(e) && e@ == Fault::GitFailed(process.stderr@),
        },
{
    match check_exit(process) {
        Ok(_) => Ok(removed),
        Err(e) => Err(e),
    }
}

proof fn lemma_kept_prefix(a: Seq<Seq<char>>, x: Seq<char>, n: int)
    requires
        0 <= n <= a.len(),
    ensures
        path::kept_parts(a.push(x), n) == path::kept_parts(a, n),
    decreases n,
{
    if n > 0 {
        lemma_kept_prefix(a, x, n - 1);
        assert(a.push(x)[n - 1] == a[n - 1]);
    }
}

/// A new worktree is made directly in the directory of the repository's worktrees.
pub proof fn law_new_worktrees_lie_in_their_directory(repo_root: Seq<char>, name: Seq<char>)
    requires
        name_fault(name) is None,
    ensures
        worktrees_dir(repo_root) matches Some(dir) ==> {
            &&& path::components(path::joined(dir, name)) == path::components(dir).push(name)
            &&& path::is_absolute(path::joined(dir, name)) == path::is_absolute(dir)
        },
{
    if let Some(dir) = worktrees_dir(repo_root) {
        reveal_strlit("-worktrees");
        reveal_strlit("/");
        reveal_strlit(".");
        let parts = text::split_on(dir, '/');
        assert(dir.len() > 0 && dir.last() != '/');
        assert(name[0] != '/') by {
            assert(name.contains(name[0]));
        }
        path::lemma_split_after(dir, name);
        lemma_kept_prefix(parts, name, parts.len() as int);
        assert(parts.push(name)[parts.len() as int] == name);
    }
}

/// The first worktree that git lists, and no other, is the main one, which is never removed.
pub proof fn law_the_first_worktree_is_the_main_one(porcelain: Seq<char>, i: int)
    requires
        0 <= i < listed(porcelain).len(),
    ensures
        listed(porcelain)[i].is_main <==> i == 0,
{
    lemma_first_is_main(text::lines_of(porcelain));
}

proof fn lemma_first_is_main(lines: Seq<Seq<char>>)
    ensures
        forall|i: int|
            0 <= i < listing(lines).done.len() ==> ((#[trigger] listing(lines).done[i]).is_main
                <==> i == 0),
        forall|i: int|
            0 <= i < flushed(listing(lines)).done.len() ==> ((#[trigger] flushed(
                listing(lines),
            ).done[i]).is_main <==> i == 0),
    decreases lines.len(),
{
    if lines.len() > 0 {
        lemma_first_is_main(lines.drop_last());
    }
}

/// A worktree as git writes it in its porcelain form: its path, its commit, its branch or that there
/// is none, what else is noted of it, and an empty line.
pub open spec fn porcelain_lines(entry: EntryView, notes: Seq<Seq<char>>) -> Seq<Seq<char>> {
    seq![
        "worktree "@ + entry.path,
        "HEAD "@ + entry.head,
        match entry.branch {
            Some(b) => "branch refs/heads/"@ + b,
            None => "detached"@,
        },
    ] + notes + seq![Seq::empty()]
}

/// The lines of the first `n` worktrees.
pub open spec fn all_porcelain_lines(
    list: Seq<EntryView>,
    notes: Seq<Seq<Seq<char>>>,
    n: int,
) -> Seq<Seq<char>>
    decreases n,
{
    if n <= 0 {
        Seq::empty()
    } else {
        all_porcelain_lines(list, notes, n - 1) + porcelain_lines(list[n - 1], notes[n - 1])
    }
}

/// Whether a worktree can be written in lines.
pub open spec fn is_writable(entry: EntryView) -> bool {
    &&& text_laws::is_line(entry.path)
    &&& text_laws::is_line(entry.head)
    &&& entry.branch matches Some(b) ==> text_laws::is_line(b)
}

/// Whether a line says something else of a worktree than its path, its commit or its branch.
pub open spec fn is_note(line: Seq<char>) -> bool {
    &&& text_laws::is_line(line)
    &&& text::after_prefix(line, "worktree "@) is None
    &&& text::after_prefix(line, "HEAD "@) is None
    &&& text::after_prefix(line, "branch "@) is None
}

proof fn lemma_prefixes(rest: Seq<char>)
    ensures
        text::after_prefix("worktree "@ + rest, "worktree "@) == Some(rest),
        text::after_prefix("HEAD "@ + rest, "worktree "@) is None,
        text::after_prefix("HEAD "@ + rest, "HEAD "@) == Some(rest),
        text::after_prefix("branch refs/heads/"@ + rest, "worktree "@) is None,
        text::after_prefix("branch refs/heads/"@ + rest, "HEAD "@) is None,
        text::after_prefix("branch refs/heads/"@ + rest, "branch "@) == Some(
            "refs/heads/"@ + rest,
        ),
        text::after_prefix("refs/heads/"@ + rest, "refs/heads/"@) == Some(rest),
        text::after_prefix("detached"@, "worktree "@) is None,
        text::after_prefix("detached"@, "HEAD "@) is None,
        text::after_prefix("detached"@, "branch "@) is None,
        text::after_prefix(Seq::empty(), "worktree "@) is None,
        text::after_prefix(Seq::empty(), "HEAD "@) is None,
        text::after_prefix(Seq::empty(), "branch "@) is None,
{
    reveal_strlit("worktree ");
    reveal_strlit("HEAD ");
    reveal_strlit("branch ");
    reveal_strlit("refs/heads/");
    reveal_strlit("branch refs/heads/");
    reveal_strlit("detached");
    text_laws::lemma_prefix_off("worktree "@, rest);
    text_laws::lemma_prefix_off("HEAD "@, rest);
    text_laws::lemma_prefix_off("branch "@, "refs/heads/"@ + rest);
    text_laws::lemma_prefix_off("refs/heads/"@, rest);
    assert("branch refs/heads/"@ + rest =~= "branch "@ + ("refs/heads/"@ + rest));
    let h = "HEAD "@ + rest;
    let b = "branch refs/heads/"@ + rest;
    let d = "detached"@;
    let e = Seq::<char>::empty();
    assert(h[0] == 'H' && b[0] == 'b' && d[0] == 'd');
    text_laws::lemma_other_prefix("worktree "@, h);
    text_laws::lemma_other_prefix("worktree "@, b);
    text_laws::lemma_other_prefix("HEAD "@, b);
    text_laws::lemma_other_prefix("worktree "@, d);
    text_laws::lemma_other_prefix("HEAD "@, d);
    text_laws::lemma_other_prefix("branch "@, d);
    text_laws::lemma_other_prefix("worktree "@, e);
    text_laws::lemma_other_prefix("HEAD "@, e);
    text_laws::lemma_other_prefix("branch "@, e);
}

proof fn lemma_notes_change_nothing(lines: Seq<Seq<char>>, notes: Seq<Seq<char>>)
    requires
        forall|i: int| 0 <= i < notes.len() ==> is_note(#[trigger] notes[i]),
    ensures
        listing(lines + notes) == listing(lines),
    decreases notes.len(),
{
    if notes.len() == 0 {
        assert(lines + notes =~= lines);
    } else {
        let some = notes.drop_last();
        assert forall|i: int| 0 <= i < some.len() implies is_note(#[trigger] some[i]) by {
            assert(some[i] == notes[i]);
        }
        lemma_notes_change_nothing(lines, some);
        assert((lines + notes).drop_last() =~= lines + some);
        assert(is_note(notes[notes.len() - 1]));
    }
}

proof fn lemma_one_line(lines: Seq<Seq<char>>, rest: Seq<char>)
    ensures
        listing(lines.push("worktree "@ + rest)) == (Listing {
            path: Some(rest),
            ..flushed(listing(lines))
        }),
        listing(lines.push("HEAD "@ + rest)) == (Listing { head: rest, ..listing(lines) }),
        listing(lines.push("branch refs/heads/"@ + rest)) == (Listing {
            branch: Some(rest),
            ..listing(lines)
        }),
        listing(lines.push("detached"@)) == listing(lines),
        listing(lines.push(Seq::empty())) == listing(lines),
{
    lemma_prefixes(rest);
    assert(lines.push("worktree "@ + rest).drop_last() =~= lines);
    assert(lines.push("HEAD "@ + rest).drop_last() =~= lines);
    assert(lines.push("branch refs/heads/"@ + rest).drop_last() =~= lines);
    assert(lines.push("detached"@).drop_last() =~= lines);
    assert(lines.push(Seq::empty()).drop_last() =~= lines);
    assert(short_branch("refs/heads/"@ + rest) == rest);
}

proof fn lemma_one_worktree(lines: Seq<Seq<char>>, entry: EntryView, notes: Seq<Seq<char>>)
    requires
        is_writable(entry),
        forall|i: int| 0 <= i < notes.len() ==> is_note(#[trigger] notes[i]),
        listing(lines).path is None ==> listing(lines).branch is None && listing(lines).head.len()
            == 0,
    ensures
        listing(lines + porcelain_lines(entry, notes)) == (Listing {
            done: flushed(listing(lines)).done,
            path: Some(entry.path),
            head: entry.head,
            branch: entry.branch,
        }),
{
    let third = match entry.branch {
        Some(b) => "branch refs/heads/"@ + b,
        None => "detached"@,
    };
    let a = lines.push("worktree "@ + entry.path);
    let b = a.push("HEAD "@ + entry.head);
    let c = b.push(third);
    let d = c + notes;
    let e = d.push(Seq::empty());
    lemma_one_line(lines, entry.path);
    lemma_one_line(a, entry.head);
    lemma_one_line(b, match entry.branch {
        Some(n) => n,
        None => Seq::empty(),
    });
    lemma_notes_change_nothing(c, notes);
    lemma_one_line(d, Seq::empty());
    assert(lines + porcelain_lines(entry, notes) =~= e);
}

proof fn lemma_worktrees_so_far(list: Seq<EntryView>, notes: Seq<Seq<Seq<char>>>, n: int)
    requires
        0 <= n <= list.len(),
        notes.len() == list.len(),
        forall|i: int| 0 <= i < list.len() ==> is_writable(#[trigger] list[i]),
        forall|i: int, j: int|
            0 <= i < notes.len() && 0 <= j < notes[i].len() ==> is_note(#[trigger] notes[i][j]),
    ensures
        n == 0 ==> listing(all_porcelain_lines(list, notes, n)).path is None && listing(
            all_porcelain_lines(list, notes, n),
        ).branch is None && listing(all_porcelain_lines(list, notes, n)).head.len() == 0,
        n > 0 ==> listing(all_porcelain_lines(list, notes, n)).path is Some,
        flushed(listing(all_porcelain_lines(list, notes, n))).done == Seq::new(
            n as nat,
            |i: int| EntryView { is_main: i == 0, ..list[i] },
        ),
    decreases n,
{
    let all = Seq::new(n as nat, |i: int| EntryView { is_main: i == 0, ..list[i] });
    if n == 0 {
        assert(all =~= Seq::empty());
    } else {
        lemma_worktrees_so_far(list, notes, n - 1);
        let before = Seq::new((n - 1) as nat, |i: int| EntryView { is_main: i == 0, ..list[i] });
        let own = notes[n - 1];
        assert forall|j: int| 0 <= j < own.len() implies is_note(#[trigger] own[j]) by {
            assert(is_note(notes[n - 1][j]));
        }
        lemma_one_worktree(all_porcelain_lines(list, notes, n - 1), list[n - 1], own);
        assert(all =~= before.push(EntryView { is_main: n == 1, ..list[n - 1] }));
    }
}

proof fn lemma_porcelain_lines(list: Seq<EntryView>, notes: Seq<Seq<Seq<char>>>, n: int)
    requires
        0 <= n <= list.len(),
        notes.len() == list.len(),
        forall|i: int| 0 <= i < list.len() ==> is_writable(#[trigger] list[i]),
        forall|i: int, j: int|
            0 <= i < notes.len() && 0 <= j < notes[i].len() ==> is_note(#[trigger] notes[i][j]),
    ensures
        text_laws::are_lines(all_porcelain_lines(list, notes, n)),
    decreases n,
{
    if n > 0 {
        lemma_porcelain_lines(list, notes, n - 1);
        reveal_strlit("worktree ");
        reveal_strlit("HEAD ");
        reveal_strlit("branch refs/heads/");
        reveal_strlit("detached");
        let a = all_porcelain_lines(list, notes, n - 1);
        let b = porcelain_lines(list[n - 1], notes[n - 1]);
        let all = a + b;
        assert(is_writable(list[n - 1]));
        assert forall|i: int| 0 <= i < all.len() implies text_laws::is_line(#[trigger] all[i]) by {
            if i < a.len() {
                assert(all[i] == a[i]);
            } else {
                let k = i - a.len();
                assert(all[i] == b[k]);
                if 3 <= k < b.len() - 1 {
                    assert(is_note(notes[n - 1][k - 3]));
                }
            }
        }
    }
}

/// The list of worktrees is read as git writes it: every worktree in order, with its path, its commit
/// and its branch, the branch by its whole name, slashes and all; the first is the main one. What else
/// git notes of a worktree changes nothing.
pub proof fn law_worktrees_are_read_as_written(
    list: Seq<EntryView>,
    notes: Seq<Seq<Seq<char>>>,
)
    requires
        notes.len() == list.len(),
        forall|i: int| 0 <= i < list.len() ==> is_writable(#[trigger] list[i]),
        forall|i: int, j: int|
            0 <= i < notes.len() && 0 <= j < notes[i].len() ==> is_note(#[trigger] notes[i][j]),
    ensures
        listed(
            text_laws::ended(all_porcelain_lines(list, notes, list.len() as int), seq!['\n']),
        ) == Seq::new(list.len(), |i: int| EntryView { is_main: i == 0, ..list[i] }),
{
    let lines = all_porcelain_lines(list, notes, list.len() as int);
    lemma_worktrees_so_far(list, notes, list.len() as int);
    lemma_porcelain_lines(list, notes, list.len() as int);
    text_laws::law_lines_are_what_stands_between_their_endings(lines, seq!['x'], seq!['\n']);
}

/// Whether two dots stand side by side at a place.
pub open spec fn has_dots_at(name: Seq<char>, i: int) -> bool {
    0 <= i < name.len() - 1 && name[i] == '.' && name[i + 1] == '.'
}

proof fn lemma_dots_side_by_side(name: Seq<char>)
    ensures
        text::contains_text(name, ".."@) <==> exists|i: int| has_dots_at(name, i),
{
    reveal_strlit("..");
    if text::contains_text(name, ".."@) {
        let i = choose|i: int| text::occurs_at(name, ".."@, i);
        assert(name.subrange(i, i + 2)[0] == name[i]);
        assert(name.subrange(i, i + 2)[1] == name[i + 1]);
        assert(has_dots_at(name, i));
    }
    if exists|i: int| has_dots_at(name, i) {
        let i = choose|i: int| has_dots_at(name, i);
        assert(name.subrange(i, i + 2) =~= ".."@);
        assert(text::occurs_at(name, ".."@, i));
    }
}

/// A name is accepted exactly where it is not empty, is made of letters, digits, `-`, `_` and `.`, does
/// not begin with `-`, is no dot, and has no two dots side by side.
pub proof fn law_names_are_plain(name: Seq<char>)
    ensures
        name_fault(name) is None <==> {
            &&& name.len() > 0
            &&& name[0] != '-'
            &&& name != seq!['.']
            &&& forall|i: int|
                0 <= i < name.len() ==> 97 <= (#[trigger] name[i]) as int <= 122 || 65
                    <= name[i] as int <= 90 || 48 <= name[i] as int <= 57 || name[i] == '-'
                    || name[i] == '_' || name[i] == '.'
            &&& forall|i: int| !has_dots_at(name, i)
        },
        name_fault(name) is None ==> path::is_plain_name(name),
{
    reveal_strlit(".");
    reveal_strlit("..");
    assert("."@ =~= seq!['.']);
    assert(".."@ =~= seq!['.', '.']);
    lemma_dots_side_by_side(name);
    if name == ".."@ {
        assert(has_dots_at(name, 0));
    }
    if name.contains('/') {
        let i = choose|i: int| 0 <= i < name.len() && name[i] == '/';
        assert(!is_safe(name[i]));
    }
    if name.contains('\\') {
        let i = choose|i: int| 0 <= i < name.len() && name[i] == '\\';
        assert(!is_safe(name[i]));
    }
    if name_fault(name) is None {
        assert forall|i: int| 0 <= i < name.len() implies #[trigger] name[i] != '/' by {
            assert(is_safe(name[i]));
        }
    } else if name.len() > 0 && !all_safe(name) {
        let i = choose|i: int| 0 <= i < name.len() && !is_safe(#[trigger] name[i]);
        assert(!is_safe(name[i]));
    }
}

/// The worktrees of a repository are made beside it, in a directory with its name and `-worktrees`
/// behind it, and each of them has its own name there.
pub proof fn law_worktrees_are_made_beside_the_repository(
    above: Seq<char>,
    directory: Seq<char>,
    repository: Seq<char>,
    name: Seq<char>,
)
    requires
        path::is_plain_name(directory),
        path::is_plain_name(repository),
        path::is_plain_name(name),
    ensures
        worktrees_dir(above + seq!['/'] + directory + seq!['/'] + repository) == Some(
            above + seq!['/'] + directory + seq!['/'] + (repository + "-worktrees"@),
        ),
        path::joined(
            above + seq!['/'] + directory + seq!['/'] + (repository + "-worktrees"@),
            name,
        ) == above + seq!['/'] + directory + seq!['/'] + (repository + "-worktrees"@) + seq!['/']
            + name,
{
    reveal_strlit("-worktrees");
    let own = repository + "-worktrees"@;
    let holder = above + seq!['/'] + directory;
    assert(path::is_plain_name(own)) by {
        assert(own.len() > 2);
    }
    path::law_a_names_parent_holds_it(above, directory, repository);
    path::law_a_path_ends_in_its_name(holder, repository, repository, repository);
    path::law_a_names_parent_holds_it(above, directory, own);
    path::law_a_names_parent_holds_it(holder, own, name);
}

/// A worktree is found by the name of its directory: the first one that has it, where nothing else is
/// meant, and none where none has it.
pub proof fn law_a_worktree_is_found_by_its_name(
    list: Seq<EntryView>,
    at: Seq<Option<Seq<char>>>,
    target: Seq<char>,
    i: int,
)
    requires
        path::is_plain_name(target),
        forall|j: int| 0 <= j < list.len() ==> path::is_absolute((#[trigger] list[j]).path),
        0 <= i <= list.len(),
        forall|j: int| 0 <= j < i ==> path::file_name((#[trigger] list[j]).path) != Some(target),
        i < list.len() ==> path::file_name(list[i].path) == Some(target),
    ensures
        meant(list, at, target, None, 0) == (if i < list.len() {
            i
        } else {
            -1
        }),
{
    assert(target[0] != '/');
    lemma_meant(list, at, target, i, 0);
}

proof fn lemma_meant(
    list: Seq<EntryView>,
    at: Seq<Option<Seq<char>>>,
    target: Seq<char>,
    i: int,
    from: int,
)
    requires
        !path::is_absolute(target),
        forall|j: int| 0 <= j < list.len() ==> path::is_absolute((#[trigger] list[j]).path),
        0 <= from <= i <= list.len(),
        forall|j: int| 0 <= j < i ==> path::file_name((#[trigger] list[j]).path) != Some(target),
        i < list.len() ==> path::file_name(list[i].path) == Some(target),
    ensures
        meant(list, at, target, None, from) == (if i < list.len() {
            i
        } else {
            -1
        }),
    decreases i - from,
{
    if from < i {
        assert(path::file_name(list[from].path) != Some(target));
        lemma_meant(list, at, target, i, from + 1);
    }
}

/// A worktree is made where nothing is in its way: the name is a plain one, git knows the repository,
/// and nothing is at its place yet. A new branch gets the worktree's name and begins at the base; an
/// existing one is taken as it is.
pub proof fn law_a_worktree_is_made_for_its_branch(
    repo_root: Seq<char>,
    name: Seq<char>,
    branch: BranchSource,
    target: Seq<char>,
)
    requires
        name_fault(name) is None,
        worktrees_dir(repo_root) is Some,
    ensures
        creation_fault(repo_root, false, name, branch, false) == Some(Fault::NotAGitRepository),
        creation_fault(repo_root, true, name, branch, true) is Some,
        branch is New ==> creation_fault(repo_root, true, name, branch, false) is None,
        branch matches BranchSource::Existing(own) ==> (creation_fault(
            repo_root,
            true,
            name,
            branch,
            false,
        ) is None <==> name_fault(own@) is None),
        ({
            let args = creation_args(name, branch, target);
            &&& args[0] == "worktree"@ && args[1] == "add"@
            &&& branch matches BranchSource::New { base } ==> args.len() == 6 && args[2] == "-b"@
                && args[3] == name && args[4] == target && args[5] == base@
            &&& branch matches BranchSource::Existing(own) ==> args.len() == 4 && args[2] == target
                && args[3] == own@
        }),
{
}

} // verus!
