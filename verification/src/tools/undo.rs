//! Undoing and redoing the agent's own file edits.
//!
//! A transaction applies only when every file that it covers still holds what the agent left in
//! it. A file that was changed since by anything else is reported as a conflict and not
//! overwritten, unless that is asked for.

use std::collections::hash_map::DefaultHasher;
use std::hash::Hasher;

use vstd::prelude::*;
use vstd::std_specs::hash::DefaultHasherAdditionalSpecFns;

use crate::text;
use crate::text::{cat2, feed_text, hex, same_opt};
use crate::tools::contract::{Failure, ToolError};
use crate::tools::files;
use crate::tools::files::FileSet;
use crate::tools::path;
use crate::tools::path::{join_path, resolve_workspace_path};

verus! {

/// How many transactions can be undone; older ones are dropped.
pub const DEFAULT_MAX_ENTRIES: usize = 50;

/// One file's content before and after an edit.
#[derive(Debug, PartialEq, Eq)]
pub struct FileSnapshot {
    /// Workspace-relative path.
    pub path: String,
    /// Content before the edit, unless there was no file.
    pub before: Option<String>,
    /// Content after the edit, unless the file was deleted.
    pub after: Option<String>,
}

/// A snapshot over plain values.
pub struct SnapshotView {
    pub path: Seq<char>,
    pub before: Option<Seq<char>>,
    pub after: Option<Seq<char>>,
}

impl View for FileSnapshot {
    type V = SnapshotView;

    open spec fn view(&self) -> SnapshotView {
        SnapshotView {
            path: self.path@,
            before: text::opt_text(self.before),
            after: text::opt_text(self.after),
        }
    }
}

/// Hashes a text.
pub fn hash_content(content: &str) -> (r: u64)
    ensures
        r == DefaultHasher::spec_finish(text::text_feed(content@)),
{
    let mut hasher: DefaultHasher = DefaultHasher::new();
    feed_text(&mut hasher, content);
    assert(hasher@ =~= text::text_feed(content@));
    hasher.finish()
}

impl FileSnapshot {
    /// A hash of the content after the edit, for information only: what guards every undo and redo
    /// is the content itself.
    #[must_use]
    pub fn after_hash(&self) -> (r: Option<u64>)
        ensures
            match self.after {
                Some(content) => r == Some(
                    DefaultHasher::spec_finish(text::text_feed(content@)),
                ),
                None => r is None,
            },
    {
        match &self.after {
            Some(content) => Some(hash_content(content.as_str())),
            None => None,
        }
    }
}

/// The edits of one turn of the agent, which are undone and redone together.
#[derive(Debug, PartialEq, Eq)]
pub struct UndoTransaction {
    /// Stable identifier.
    pub id: String,
    /// When the edits were made, in Unix seconds.
    pub created_at_unix: i64,
    /// Short description of the turn.
    pub description: String,
    /// Every file that was touched.
    pub files: Vec<FileSnapshot>,
}

/// Snapshots over plain values.
pub open spec fn snapshots(v: Seq<FileSnapshot>) -> Seq<SnapshotView> {
    Seq::new(v.len(), |i: int| v[i]@)
}

/// A transaction over plain values.
pub struct TransactionView {
    pub id: Seq<char>,
    pub created_at_unix: i64,
    pub description: Seq<char>,
    pub files: Seq<SnapshotView>,
}

impl View for UndoTransaction {
    type V = TransactionView;

    open spec fn view(&self) -> TransactionView {
        TransactionView {
            id: self.id@,
            created_at_unix: self.created_at_unix,
            description: self.description@,
            files: snapshots(self.files@),
        }
    }
}

/// Transactions over plain values.
pub open spec fn transactions(v: Seq<UndoTransaction>) -> Seq<TransactionView> {
    Seq::new(v.len(), |i: int| v[i]@)
}

/// What was done to one file.
#[derive(Clone, Copy, Debug, PartialEq, Eq, Structural)]
pub enum FileAction {
    /// Its other content was put back.
    Restored,
    /// It was removed.
    Removed,
    /// It was created again.
    Recreated,
}

/// One file of an applied transaction.
#[derive(Debug, PartialEq, Eq)]
pub struct AppliedFile {
    /// Workspace-relative path.
    pub path: String,
    /// What was done to it.
    pub action: FileAction,
}

/// One file that kept a transaction from applying.
#[derive(Debug, PartialEq, Eq)]
pub struct UndoConflictFile {
    /// Workspace-relative path.
    pub path: String,
    /// What the file was expected to hold, unless it was expected to be absent.
    pub expected: Option<String>,
    /// What the file holds, unless it is absent.
    pub actual: Option<String>,
}

/// A conflicting file over plain values.
pub struct ConflictFileView {
    pub path: Seq<char>,
    pub expected: Option<Seq<char>>,
    pub actual: Option<Seq<char>>,
}

impl View for UndoConflictFile {
    type V = ConflictFileView;

    open spec fn view(&self) -> ConflictFileView {
        ConflictFileView {
            path: self.path@,
            expected: text::opt_text(self.expected),
            actual: text::opt_text(self.actual),
        }
    }
}

/// Conflicting files over plain values.
pub open spec fn conflict_files(v: Seq<UndoConflictFile>) -> Seq<ConflictFileView> {
    Seq::new(v.len(), |i: int| v[i]@)
}

/// A transaction that applied.
#[derive(Debug, PartialEq, Eq)]
pub struct AppliedTransaction {
    /// Its identifier.
    pub id: String,
    /// Its description.
    pub description: String,
    /// Its files, and what was done to each.
    pub files: Vec<AppliedFile>,
}

/// Applied files over plain values.
pub open spec fn applied_files(v: Seq<AppliedFile>) -> Seq<(Seq<char>, FileAction)> {
    Seq::new(v.len(), |i: int| (v[i].path@, v[i].action))
}

/// An applied transaction over plain values.
pub struct AppliedView {
    pub id: Seq<char>,
    pub description: Seq<char>,
    pub files: Seq<(Seq<char>, FileAction)>,
}

impl View for AppliedTransaction {
    type V = AppliedView;

    open spec fn view(&self) -> AppliedView {
        AppliedView {
            id: self.id@,
            description: self.description@,
            files: applied_files(self.files@),
        }
    }
}

/// Applied transactions over plain values.
pub open spec fn applied_transactions(v: Seq<AppliedTransaction>) -> Seq<AppliedView> {
    Seq::new(v.len(), |i: int| v[i]@)
}

/// A transaction that could not apply because a file no longer matches.
#[derive(Debug, PartialEq, Eq)]
pub struct UndoConflict {
    /// Its identifier.
    pub id: String,
    /// Its description.
    pub description: String,
    /// The files that do not match.
    pub files: Vec<UndoConflictFile>,
}

/// A conflict over plain values.
pub struct ConflictView {
    pub id: Seq<char>,
    pub description: Seq<char>,
    pub files: Seq<ConflictFileView>,
}

impl View for UndoConflict {
    type V = ConflictView;

    open spec fn view(&self) -> ConflictView {
        ConflictView {
            id: self.id@,
            description: self.description@,
            files: conflict_files(self.files@),
        }
    }
}

/// A conflict over plain values, where there is one.
pub open spec fn opt_conflict(c: Option<UndoConflict>) -> Option<ConflictView> {
    match c {
        Some(c) => Some(c@),
        None => None,
    }
}

/// What became of a request to undo or redo.
#[derive(Debug, PartialEq, Eq)]
pub struct UndoOutcome {
    /// The transactions that applied, in that order.
    pub applied: Vec<AppliedTransaction>,
    /// The transaction that stopped the request, if one did.
    pub conflict: Option<UndoConflict>,
}

/// Whether edits are undone or redone.
#[derive(Clone, Copy, Debug, PartialEq, Eq, Structural)]
pub enum Direction {
    Undo,
    Redo,
}

/// The other direction.
pub open spec fn opposite(direction: Direction) -> Direction {
    match direction {
        Direction::Undo => Direction::Redo,
        Direction::Redo => Direction::Undo,
    }
}

/// What a file must hold for a snapshot to apply.
pub open spec fn expected(s: SnapshotView, direction: Direction) -> Option<Seq<char>> {
    match direction {
        Direction::Undo => s.after,
        Direction::Redo => s.before,
    }
}

/// What a file holds after a snapshot applied.
pub open spec fn wanted(s: SnapshotView, direction: Direction) -> Option<Seq<char>> {
    expected(s, opposite(direction))
}

/// Gives what a file must hold for a snapshot to apply.
fn expected_before_apply(s: &FileSnapshot, direction: Direction) -> (r: &Option<String>)
    ensures
        text::opt_text(*r) == expected(s@, direction),
{
    match direction {
        Direction::Undo => &s.after,
        Direction::Redo => &s.before,
    }
}

/// Gives what a file holds after a snapshot applied.
fn expected_after_apply(s: &FileSnapshot, direction: Direction) -> (r: &Option<String>)
    ensures
        text::opt_text(*r) == wanted(s@, direction),
{
    match direction {
        Direction::Undo => &s.before,
        Direction::Redo => &s.after,
    }
}

/// What a workspace-relative path holds, unless there is no such file in the workspace.
pub open spec fn current(site: path::Site, all: files::Contents, p: Seq<char>) -> Option<
    Seq<char>,
> {
    match path::resolution(site, p) {
        Ok(target) => files::content(all, target),
        Err(_) => None,
    }
}

/// Reads what a workspace-relative path holds, unless there is no such file in the workspace.
pub fn read_current(all: &FileSet, p: &str) -> (r: Option<String>)
    ensures
        text::opt_text(r) == current(all.workspace@, all@, p@),
{
    match resolve_workspace_path(&all.workspace, p) {
        Ok(target) => all.read(target.as_str()),
        Err(_) => None,
    }
}

/// The files of a transaction that do not hold what they must hold.
pub open spec fn conflicts(
    site: path::Site,
    all: files::Contents,
    list: Seq<SnapshotView>,
    direction: Direction,
) -> Seq<ConflictFileView>
    decreases list.len(),
{
    if list.len() == 0 {
        Seq::empty()
    } else {
        let before = conflicts(site, all, list.drop_last(), direction);
        let s = list.last();
        let actual = current(site, all, s.path);
        if actual == expected(s, direction) {
            before
        } else {
            before.push(
                ConflictFileView { path: s.path, expected: expected(s, direction), actual },
            )
        }
    }
}

/// Finds the files of a transaction that do not hold what they must hold.
pub fn detect_conflicts(all: &FileSet, transaction: &UndoTransaction, direction: Direction) -> (r:
    Vec<UndoConflictFile>)
    ensures
        conflict_files(r@) == conflicts(all.workspace@, all@, transaction@.files, direction),
{
    let ghost list = snapshots(transaction.files@);
    let mut found: Vec<UndoConflictFile> = Vec::new();
    let mut i: usize = 0;
    assert(list.take(0) =~= Seq::empty());
    assert(conflict_files(found@) =~= Seq::empty());
    while i < transaction.files.len()
        invariant
            i <= transaction.files@.len(),
            list == snapshots(transaction.files@),
            conflict_files(found@) == conflicts(all.workspace@, all@, list.take(i as int), direction),
        decreases transaction.files@.len() - i,
    {
        let s: &FileSnapshot = &transaction.files[i];
        proof {
            assert(list[i as int] == s@);
            assert(list.take(i + 1).drop_last() =~= list.take(i as int));
            assert(list.take(i + 1).last() == s@);
        }
        let actual: Option<String> = read_current(all, s.path.as_str());
        let needed: &Option<String> = expected_before_apply(s, direction);
        if !same_opt(&actual, needed) {
            let ghost before = conflict_files(found@);
            let one: UndoConflictFile = UndoConflictFile {
                path: s.path.clone(),
                expected: needed.clone(),
                actual,
            };
            let ghost own = one@;
            found.push(one);
            assert(conflict_files(found@) =~= before.push(own));
        }
        i = i + 1;
    }
    assert(list.take(i as int) =~= list);
    found
}

/// Applying the snapshots of a transaction one after the other until one fails: the files so far,
/// what was done, and the failure.
pub struct Reverting {
    pub files: files::Contents,
    pub applied: Seq<(Seq<char>, FileAction)>,
    pub failure: Option<Failure>,
}

/// The files after one of them was given other content, or removed, or why that cannot be.
pub open spec fn put(
    all: files::Contents,
    target: Seq<char>,
    content: Option<Seq<char>>,
) -> Result<files::Contents, Failure> {
    match content {
        Some(c) => files::written(all, target, c),
        None => files::erased(all, target),
    }
}

/// What applying a snapshot does to its file.
pub open spec fn action(s: SnapshotView, direction: Direction) -> FileAction {
    if wanted(s, direction) is None {
        FileAction::Removed
    } else if expected(s, direction) is None {
        FileAction::Recreated
    } else {
        FileAction::Restored
    }
}

/// The files after the snapshots of a transaction were applied.
pub open spec fn reverted(
    site: path::Site,
    all: files::Contents,
    list: Seq<SnapshotView>,
    direction: Direction,
) -> Reverting
    decreases list.len(),
{
    if list.len() == 0 {
        Reverting { files: all, applied: Seq::empty(), failure: None }
    } else {
        let so_far = reverted(site, all, list.drop_last(), direction);
        let s = list.last();
        if so_far.failure is Some {
            so_far
        } else {
            match path::resolution(site, s.path) {
                Err(e) => Reverting { failure: Some(e), ..so_far },
                Ok(target) => match put(so_far.files, target, wanted(s, direction)) {
                    Err(e) => Reverting { failure: Some(e), ..so_far },
                    Ok(after) => Reverting {
                        files: after,
                        applied: so_far.applied.push((s.path, action(s, direction))),
                        failure: None,
                    },
                },
            }
        }
    }
}

proof fn lemma_failure_stays(
    site: path::Site,
    all: files::Contents,
    list: Seq<SnapshotView>,
    direction: Direction,
    n: int,
)
    requires
        0 <= n <= list.len(),
        reverted(site, all, list.take(n), direction).failure is Some,
    ensures
        reverted(site, all, list, direction) == reverted(site, all, list.take(n), direction),
    decreases list.len() - n,
{
    if n < list.len() {
        assert(list.take(n + 1).drop_last() =~= list.take(n));
        lemma_failure_stays(site, all, list, direction, n + 1);
    } else {
        assert(list.take(n) =~= list);
    }
}

/// Applies the snapshots of a transaction.
pub fn apply_transaction(
    all: &mut FileSet,
    transaction: &UndoTransaction,
    direction: Direction,
) -> (r: Result<Vec<AppliedFile>, ToolError>)
    ensures
        final(all).workspace == old(all).workspace,
        old(all).wf() ==> final(all).wf(),
        final(all)@ == reverted(old(all).workspace@, old(all)@, transaction@.files, direction).files,
        match reverted(old(all).workspace@, old(all)@, transaction@.files, direction).failure {
            Some(e) => r matches Err(f) && f@ == e,
            None => r matches Ok(v) && applied_files(v@) == reverted(
                old(all).workspace@,
                old(all)@,
                transaction@.files,
                direction,
            ).applied,
        },
{
    let ghost list = snapshots(transaction.files@);
    let ghost before = all@;
    let ghost site = all.workspace@;
    let mut done: Vec<AppliedFile> = Vec::new();
    let mut i: usize = 0;
    assert(list.take(0) =~= Seq::empty());
    assert(applied_files(done@) =~= Seq::empty());
    while i < transaction.files.len()
        invariant
            i <= transaction.files@.len(),
            list == snapshots(transaction.files@),
            before == old(all)@,
            site == old(all).workspace@,
            all.workspace == old(all).workspace,
            old(all).wf() ==> all.wf(),
            reverted(site, before, list.take(i as int), direction) == (Reverting {
                files: all@,
                applied: applied_files(done@),
                failure: None,
            }),
        decreases transaction.files@.len() - i,
    {
        let s: &FileSnapshot = &transaction.files[i];
        proof {
            assert(list[i as int] == s@);
            assert(list.take(i + 1).drop_last() =~= list.take(i as int));
            assert(list.take(i + 1).last() == s@);
        }
        let target: String = match resolve_workspace_path(&all.workspace, s.path.as_str()) {
            Ok(t) => t,
            Err(e) => {
                proof {
                    lemma_failure_stays(site, before, list, direction, i + 1);
                }
                return Err(e);
            },
        };
        let (changed, action): (Result<(), ToolError>, FileAction) = match expected_after_apply(
            s,
            direction,
        ) {
            Some(content) => {
                let changed: Result<(), ToolError> = all.write(target.as_str(), content.as_str());
                if expected_before_apply(s, direction).is_none() {
                    (changed, FileAction::Recreated)
                } else {
                    (changed, FileAction::Restored)
                }
            },
            None => (all.remove(target.as_str()), FileAction::Removed),
        };
        if let Err(e) = changed {
            proof {
                lemma_failure_stays(site, before, list, direction, i + 1);
            }
            return Err(e);
        }
        let ghost so_far = applied_files(done@);
        done.push(AppliedFile { path: s.path.clone(), action });
        assert(applied_files(done@) =~= so_far.push((s.path@, action)));
        i = i + 1;
    }
    assert(list.take(i as int) =~= list);
    Ok(done)
}

/// What can be undone and redone, most recent last, and the files.
pub struct History {
    pub undo: Seq<TransactionView>,
    pub redo: Seq<TransactionView>,
    pub files: files::Contents,
}

/// The transactions that a direction takes from.
pub open spec fn source(h: History, direction: Direction) -> Seq<TransactionView> {
    match direction {
        Direction::Undo => h.undo,
        Direction::Redo => h.redo,
    }
}

/// A history without the transaction that is taken next.
pub open spec fn taken(h: History, direction: Direction) -> History {
    match direction {
        Direction::Undo => History { undo: h.undo.drop_last(), ..h },
        Direction::Redo => History { redo: h.redo.drop_last(), ..h },
    }
}

/// A history with a transaction that was applied.
pub open spec fn given(h: History, t: TransactionView, direction: Direction) -> History {
    match direction {
        Direction::Undo => History { redo: h.redo.push(t), ..h },
        Direction::Redo => History { undo: h.undo.push(t), ..h },
    }
}

/// What became of one attempt to undo or redo a transaction.
pub enum Attempt {
    /// There was none.
    Empty,
    /// Its files no longer match, and nothing was done.
    Conflicting(ConflictView),
    /// It failed on its way and is gone.
    Failed(History, Failure),
    /// It was applied.
    Applied(History, AppliedView),
}

/// One attempt to undo or redo a transaction.
pub open spec fn attempt(site: path::Site, h: History, force: bool, direction: Direction) -> Attempt {
    let stack = source(h, direction);
    if stack.len() == 0 {
        Attempt::Empty
    } else {
        let t = stack.last();
        let clashes = conflicts(site, h.files, t.files, direction);
        let done = reverted(site, h.files, t.files, direction);
        let rest = History { files: done.files, ..taken(h, direction) };
        if clashes.len() > 0 && !force {
            Attempt::Conflicting(
                ConflictView { id: t.id, description: t.description, files: clashes },
            )
        } else if let Some(e) = done.failure {
            Attempt::Failed(rest, e)
        } else {
            Attempt::Applied(
                given(rest, t, direction),
                AppliedView { id: t.id, description: t.description, files: done.applied },
            )
        }
    }
}

/// What became of a request.
pub struct Requested {
    pub history: History,
    pub applied: Seq<AppliedView>,
    pub conflict: Option<ConflictView>,
    pub failure: Option<Failure>,
}

/// Up to `n` transactions undone or redone, until one conflicts or fails.
pub open spec fn requested(
    site: path::Site,
    h: History,
    force: bool,
    direction: Direction,
    n: nat,
) -> Requested
    decreases n,
{
    if n == 0 {
        Requested { history: h, applied: Seq::empty(), conflict: None, failure: None }
    } else {
        let o = requested(site, h, force, direction, (n - 1) as nat);
        if o.conflict is Some || o.failure is Some {
            o
        } else {
            match attempt(site, o.history, force, direction) {
                Attempt::Empty => o,
                Attempt::Conflicting(c) => Requested { conflict: Some(c), ..o },
                Attempt::Failed(after, e) => Requested { history: after, failure: Some(e), ..o },
                Attempt::Applied(after, a) => Requested {
                    history: after,
                    applied: o.applied.push(a),
                    ..o
                },
            }
        }
    }
}

proof fn lemma_stopped_stays(
    site: path::Site,
    h: History,
    force: bool,
    direction: Direction,
    i: nat,
    n: nat,
)
    requires
        i <= n,
        ({
            let o = requested(site, h, force, direction, i);
            o.conflict is Some || o.failure is Some || attempt(
                site,
                o.history,
                force,
                direction,
            ) is Empty
        }),
    ensures
        requested(site, h, force, direction, n) == requested(site, h, force, direction, i),
    decreases n - i,
{
    if i < n {
        lemma_stopped_stays(site, h, force, direction, i, (n - 1) as nat);
    }
}

/// What can be undone and redone in one worktree.
#[derive(Debug, PartialEq, Eq)]
pub struct UndoStore {
    pub undo_stack: Vec<UndoTransaction>,
    pub redo_stack: Vec<UndoTransaction>,
    pub max_entries: usize,
}

/// The last `n` of a list.
pub open spec fn newest(list: Seq<TransactionView>, n: nat) -> Seq<TransactionView> {
    if list.len() > n {
        list.skip(list.len() - n)
    } else {
        list
    }
}

/// The paths of snapshots.
pub open spec fn paths(list: Seq<SnapshotView>) -> Seq<Seq<char>> {
    Seq::new(list.len(), |i: int| list[i].path)
}

/// The paths of the snapshots of all transactions.
pub open spec fn all_paths(list: Seq<TransactionView>) -> Seq<Seq<char>>
    decreases list.len(),
{
    if list.len() == 0 {
        Seq::empty()
    } else {
        all_paths(list.drop_last()) + paths(list.last().files)
    }
}

impl UndoStore {
    /// What can be undone and redone, and files to do it with.
    pub open spec fn with_files(self, all: files::Contents) -> History {
        History {
            undo: transactions(self.undo_stack@),
            redo: transactions(self.redo_stack@),
            files: all,
        }
    }

    /// A store without transactions.
    #[must_use]
    pub fn new(max_entries: usize) -> (r: UndoStore)
        ensures
            r.undo_stack@.len() == 0,
            r.redo_stack@.len() == 0,
            r.max_entries == max_entries,
    {
        UndoStore { undo_stack: Vec::new(), redo_stack: Vec::new(), max_entries }
    }

    /// A store that was read back, or an empty one where none could be read. The limit is the one
    /// that is given, not the one that was stored.
    #[must_use]
    pub fn restored(loaded: Option<UndoStore>, max_entries: usize) -> (r: UndoStore)
        ensures
            r.max_entries == max_entries,
            match loaded {
                Some(store) => r.undo_stack == store.undo_stack && r.redo_stack == store.redo_stack,
                None => r.undo_stack@.len() == 0 && r.redo_stack@.len() == 0,
            },
    {
        match loaded {
            Some(store) => UndoStore {
                undo_stack: store.undo_stack,
                redo_stack: store.redo_stack,
                max_entries,
            },
            None => UndoStore::new(max_entries),
        }
    }

    /// How many transactions can be undone.
    #[must_use]
    pub fn undo_count(&self) -> (r: usize)
        ensures
            r == self.undo_stack@.len(),
    {
        self.undo_stack.len()
    }

    /// How many transactions can be redone.
    #[must_use]
    pub fn redo_count(&self) -> (r: usize)
        ensures
            r == self.redo_stack@.len(),
    {
        self.redo_stack.len()
    }

    /// Records a transaction. Nothing can be redone after that, and the oldest transactions beyond
    /// the limit are dropped.
    pub fn commit(&mut self, transaction: UndoTransaction)
        ensures
            final(self).max_entries == old(self).max_entries,
            final(self).redo_stack@.len() == 0,
            transactions(final(self).undo_stack@) == newest(
                transactions(old(self).undo_stack@).push(transaction@),
                old(self).max_entries as nat,
            ),
    {
        let ghost before = transactions(self.undo_stack@);
        let ghost all = before.push(transaction@);
        self.redo_stack = Vec::new();
        self.undo_stack.push(transaction);
        assert(transactions(self.undo_stack@) =~= all);
        assert(all.skip(0) =~= all);
        let max: usize = self.max_entries;
        let ghost mut gone: int = 0;
        while self.undo_stack.len() > max
            invariant
                max == self.max_entries,
                self.max_entries == old(self).max_entries,
                self.redo_stack@.len() == 0,
                0 <= gone <= all.len(),
                gone > 0 ==> self.undo_stack@.len() >= max,
                transactions(self.undo_stack@) == all.skip(gone),
            decreases self.undo_stack@.len(),
        {
            let ghost so_far = self.undo_stack@;
            let _ = self.undo_stack.remove(0);
            proof {
                gone = gone + 1;
                assert(transactions(self.undo_stack@) =~= transactions(so_far).skip(1));
                assert(all.skip(gone - 1).skip(1) =~= all.skip(gone));
            }
        }
        assert(transactions(self.undo_stack@).len() == self.undo_stack@.len());
    }

    /// The transactions that a direction takes from.
    pub open spec fn stack(self, direction: Direction) -> Seq<TransactionView> {
        match direction {
            Direction::Undo => transactions(self.undo_stack@),
            Direction::Redo => transactions(self.redo_stack@),
        }
    }

    /// Gives the files of the transactions that undoing or redoing up to `n` of them can reach.
    pub fn reachable_files(&self, n: usize, direction: Direction) -> (r: Vec<String>)
        ensures
            text::texts(r@) == all_paths(newest(self.stack(direction), n as nat)),
    {
        let stack: &Vec<UndoTransaction> = match direction {
            Direction::Undo => &self.undo_stack,
            Direction::Redo => &self.redo_stack,
        };
        let ghost all = newest(self.stack(direction), n as nat);
        let from: usize = stack.len().saturating_sub(n);
        let mut r: Vec<String> = Vec::new();
        let mut i: usize = from;
        assert(all.take(0) =~= Seq::empty());
        assert(text::texts(r@) =~= Seq::empty());
        while i < stack.len()
            invariant
                from <= i <= stack@.len(),
                all.len() == stack@.len() - from,
                forall|j: int| 0 <= j < all.len() ==> #[trigger] all[j] == stack@[from + j]@,
                text::texts(r@) == all_paths(all.take(i - from)),
            decreases stack@.len() - i,
        {
            let t: &UndoTransaction = &stack[i];
            let ghost so_far = text::texts(r@);
            let mut k: usize = 0;
            assert(paths(t@.files.take(0)) =~= Seq::empty());
            assert(text::texts(r@) =~= so_far + paths(t@.files.take(0)));
            while k < t.files.len()
                invariant
                    k <= t.files@.len(),
                    text::texts(r@) == so_far + paths(t@.files.take(k as int)),
                decreases t.files@.len() - k,
            {
                let ghost before = text::texts(r@);
                r.push(t.files[k].path.clone());
                assert(t@.files[k as int].path == t.files@[k as int].path@);
                assert(text::texts(r@) =~= before.push(t@.files[k as int].path));
                assert(paths(t@.files.take(k + 1)) =~= paths(t@.files.take(k as int)).push(
                    t@.files[k as int].path,
                ));
                k = k + 1;
            }
            proof {
                assert(t@.files.take(k as int) =~= t@.files);
                assert(all[i - from] == t@);
                assert(all.take(i - from + 1).drop_last() =~= all.take(i - from));
                assert(all.take(i - from + 1).last() == t@);
            }
            i = i + 1;
        }
        assert(all.take(i - from) =~= all);
        r
    }

    /// Takes the next transaction.
    fn take(&mut self, direction: Direction) -> (r: Option<UndoTransaction>)
        ensures
            final(self).max_entries == old(self).max_entries,
            final(self).stack(opposite(direction)) == old(self).stack(opposite(direction)),
            match r {
                Some(t) => {
                    &&& old(self).stack(direction).len() > 0
                    &&& old(self).stack(direction).last() == t@
                    &&& final(self).stack(direction) == old(self).stack(direction).drop_last()
                },
                None => final(self).stack(direction) == old(self).stack(direction) && old(
                    self,
                ).stack(direction).len() == 0,
            },
    {
        let ghost before = self.stack(direction);
        let r: Option<UndoTransaction> = match direction {
            Direction::Undo => self.undo_stack.pop(),
            Direction::Redo => self.redo_stack.pop(),
        };
        assert(r is Some ==> self.stack(direction) =~= before.drop_last());
        assert(r is None ==> self.stack(direction) =~= before);
        r
    }

    /// Gives a transaction to those that can be redone, or to those that can be undone.
    fn give(&mut self, t: UndoTransaction, direction: Direction)
        ensures
            final(self).max_entries == old(self).max_entries,
            final(self).stack(direction) == old(self).stack(direction),
            final(self).stack(opposite(direction)) == old(self).stack(opposite(direction)).push(t@),
    {
        let ghost before = self.stack(opposite(direction));
        match direction {
            Direction::Undo => {
                self.redo_stack.push(t);
            },
            Direction::Redo => {
                self.undo_stack.push(t);
            },
        }
        assert(self.stack(opposite(direction)) =~= before.push(t@));
    }

    /// Undoes or redoes up to `n` transactions.
    fn apply(&mut self, n: usize, all: &mut FileSet, force: bool, direction: Direction) -> (r:
        Result<UndoOutcome, ToolError>)
        ensures
            final(self).max_entries == old(self).max_entries,
            final(all).workspace == old(all).workspace,
            old(all).wf() ==> final(all).wf(),
            ({
                let o = requested(
                    old(all).workspace@,
                    old(self).with_files(old(all)@),
                    force,
                    direction,
                    n as nat,
                );
                &&& final(self).with_files(final(all)@) == o.history
                &&& match o.failure {
                    Some(e) => r matches Err(f) && f@ == e,
                    None => r matches Ok(out) && applied_transactions(out.applied@) == o.applied
                        && opt_conflict(out.conflict) == o.conflict,
                }
            }),
    {
        let ghost site = all.workspace@;
        let ghost first = self.with_files(all@);
        let mut applied: Vec<AppliedTransaction> = Vec::new();
        let mut i: usize = 0;
        assert(applied_transactions(applied@) =~= Seq::empty());
        while i < n
            invariant
                i <= n,
                site == old(all).workspace@,
                all.workspace == old(all).workspace,
                old(all).wf() ==> all.wf(),
                self.max_entries == old(self).max_entries,
                first == old(self).with_files(old(all)@),
                requested(site, first, force, direction, i as nat) == (Requested {
                    history: self.with_files(all@),
                    applied: applied_transactions(applied@),
                    conflict: None,
                    failure: None,
                }),
            decreases n - i,
        {
            let ghost h = self.with_files(all@);
            let ghost o = requested(site, first, force, direction, i as nat);
            let transaction: UndoTransaction = match self.take(direction) {
                Some(t) => t,
                None => {
                    proof {
                        lemma_stopped_stays(site, first, force, direction, i as nat, n as nat);
                    }
                    return Ok(UndoOutcome { applied, conflict: None });
                },
            };
            let clashes: Vec<UndoConflictFile> = detect_conflicts(all, &transaction, direction);
            assert(conflict_files(clashes@).len() == clashes@.len());
            if clashes.len() > 0 && !force {
                let conflict: UndoConflict = UndoConflict {
                    id: transaction.id.clone(),
                    description: transaction.description.clone(),
                    files: clashes,
                };
                let ghost t = transaction@;
                match direction {
                    Direction::Undo => {
                        self.give(transaction, Direction::Redo);
                        assert(h.undo.drop_last().push(t) =~= h.undo);
                    },
                    Direction::Redo => {
                        self.give(transaction, Direction::Undo);
                        assert(h.redo.drop_last().push(t) =~= h.redo);
                    },
                }
                proof {
                    lemma_stopped_stays(
                        site,
                        first,
                        force,
                        direction,
                        (i + 1) as nat,
                        n as nat,
                    );
                }
                return Ok(UndoOutcome { applied, conflict: Some(conflict) });
            }
            match apply_transaction(all, &transaction, direction) {
                Ok(done) => {
                    let ghost so_far = applied_transactions(applied@);
                    let one: AppliedTransaction = AppliedTransaction {
                        id: transaction.id.clone(),
                        description: transaction.description.clone(),
                        files: done,
                    };
                    let ghost own = one@;
                    applied.push(one);
                    assert(applied_transactions(applied@) =~= so_far.push(own));
                    self.give(transaction, direction);
                },
                Err(e) => {
                    proof {
                        lemma_stopped_stays(
                            site,
                            first,
                            force,
                            direction,
                            (i + 1) as nat,
                            n as nat,
                        );
                    }
                    return Err(e);
                },
            }
            i = i + 1;
        }
        Ok(UndoOutcome { applied, conflict: None })
    }

    /// Undoes up to `n` transactions, the most recent first. It stops at the first one whose files
    /// no longer match, which stays as it is, unless `force` is set.
    pub fn undo(&mut self, n: usize, all: &mut FileSet, force: bool) -> (r: Result<
        UndoOutcome,
        ToolError,
    >)
        ensures
            final(self).max_entries == old(self).max_entries,
            final(all).workspace == old(all).workspace,
            old(all).wf() ==> final(all).wf(),
            ({
                let o = requested(
                    old(all).workspace@,
                    old(self).with_files(old(all)@),
                    force,
                    Direction::Undo,
                    n as nat,
                );
                &&& final(self).with_files(final(all)@) == o.history
                &&& match o.failure {
                    Some(e) => r matches Err(f) && f@ == e,
                    None => r matches Ok(out) && applied_transactions(out.applied@) == o.applied
                        && opt_conflict(out.conflict) == o.conflict,
                }
            }),
    {
        self.apply(n, all, force, Direction::Undo)
    }

    /// Redoes up to `n` undone transactions, the most recently undone first. It stops at the first
    /// one whose files no longer match, which stays as it is, unless `force` is set.
    pub fn redo(&mut self, n: usize, all: &mut FileSet, force: bool) -> (r: Result<
        UndoOutcome,
        ToolError,
    >)
        ensures
            final(self).max_entries == old(self).max_entries,
            final(all).workspace == old(all).workspace,
            old(all).wf() ==> final(all).wf(),
            ({
                let o = requested(
                    old(all).workspace@,
                    old(self).with_files(old(all)@),
                    force,
                    Direction::Redo,
                    n as nat,
                );
                &&& final(self).with_files(final(all)@) == o.history
                &&& match o.failure {
                    Some(e) => r matches Err(f) && f@ == e,
                    None => r matches Ok(out) && applied_transactions(out.applied@) == o.applied
                        && opt_conflict(out.conflict) == o.conflict,
                }
            }),
    {
        self.apply(n, all, force, Direction::Redo)
    }
}

/// Whether no two snapshots are of the same file.
pub open spec fn are_apart(site: path::Site, list: Seq<SnapshotView>) -> bool {
    forall|i: int, j: int|
        0 <= i < j < list.len() ==> path::resolution(site, (#[trigger] list[i]).path)
            != path::resolution(site, (#[trigger] list[j]).path)
}

/// Whether a snapshot is of a given file.
pub open spec fn is_of(site: path::Site, s: SnapshotView, target: Seq<char>) -> bool {
    path::resolution(site, s.path) == Ok::<Seq<char>, Failure>(target)
}

proof fn lemma_put(
    all: files::Contents,
    target: Seq<char>,
    content: Option<Seq<char>>,
    other: Seq<char>,
)
    ensures
        put(all, target, content) matches Ok(after) ==> {
            &&& files::content(after, target) == content
            &&& other != target ==> files::at(after, other) == files::at(all, other)
            &&& files::is_unique(all) && files::is_tree(all) ==> files::is_unique(after)
                && files::is_tree(after)
        },
{
    if files::is_unique(all) && files::is_tree(all) {
        files::law_files_stay_a_tree(all, target, match content {
            Some(c) => c,
            None => Seq::empty(),
        });
    }
    match content {
        Some(c) => {
            files::law_reading_gives_back_what_was_written(all, target, c, other);
        },
        None => {
            files::law_a_removed_file_is_gone(all, target, other);
        },
    }
}

proof fn lemma_reverted(
    site: path::Site,
    all: files::Contents,
    list: Seq<SnapshotView>,
    direction: Direction,
    p: Seq<char>,
)
    requires
        are_apart(site, list),
        reverted(site, all, list, direction).failure is None,
    ensures
        forall|i: int|
            0 <= i < list.len() ==> path::resolution(site, (#[trigger] list[i]).path) is Ok,
        forall|i: int|
            0 <= i < list.len() && is_of(site, #[trigger] list[i], p) ==> files::content(
                reverted(site, all, list, direction).files,
                p,
            ) == wanted(list[i], direction),
        (forall|i: int| 0 <= i < list.len() ==> !is_of(site, #[trigger] list[i], p))
            ==> files::at(reverted(site, all, list, direction).files, p) == files::at(all, p),
    decreases list.len(),
{
    if list.len() > 0 {
        let some = list.drop_last();
        let s = list.last();
        assert(are_apart(site, some)) by {
            assert forall|i: int, j: int| 0 <= i < j < some.len() implies path::resolution(
                site,
                (#[trigger] some[i]).path,
            ) != path::resolution(site, (#[trigger] some[j]).path) by {
                assert(some[i] == list[i] && some[j] == list[j]);
            }
        }
        lemma_reverted(site, all, some, direction, p);
        let so_far = reverted(site, all, some, direction);
        let target = path::resolution(site, s.path)->Ok_0;
        lemma_put(so_far.files, target, wanted(s, direction), p);
        assert(s == list[list.len() - 1]);
        assert forall|i: int| 0 <= i < list.len() implies path::resolution(
            site,
            (#[trigger] list[i]).path,
        ) is Ok by {
            if i < some.len() {
                assert(some[i] == list[i]);
            }
        }
        assert forall|i: int| 0 <= i < list.len() && is_of(site, #[trigger] list[i], p) implies
            files::content(reverted(site, all, list, direction).files, p) == wanted(
            list[i],
            direction,
        ) by {
            if i < some.len() {
                assert(some[i] == list[i]);
            }
        }
        if forall|i: int| 0 <= i < list.len() ==> !is_of(site, #[trigger] list[i], p) {
            assert forall|i: int| 0 <= i < some.len() implies !is_of(
                site,
                #[trigger] some[i],
                p,
            ) by {
                assert(some[i] == list[i]);
            }
        }
    }
}

/// Whether no snapshot of one list is of a file below that of a snapshot of the other.
pub open spec fn are_unnested(
    site: path::Site,
    a: Seq<SnapshotView>,
    b: Seq<SnapshotView>,
) -> bool {
    forall|i: int, j: int, t: Seq<char>, u: Seq<char>|
        0 <= i < a.len() && 0 <= j < b.len() && #[trigger] is_of(site, a[i], t)
            && #[trigger] is_of(site, b[j], u) ==> files::are_beside(t, u)
}

/// Whether none of some paths lies below another.
spec fn is_flat(places: Set<Seq<char>>) -> bool {
    forall|t: Seq<char>, u: Seq<char>|
        #[trigger] places.contains(t) && #[trigger] places.contains(u) ==> files::are_beside(t, u)
}

/// Whether the files of all snapshots are among some paths.
spec fn are_among(site: path::Site, places: Set<Seq<char>>, list: Seq<SnapshotView>) -> bool {
    forall|i: int, t: Seq<char>|
        0 <= i < list.len() && #[trigger] is_of(site, list[i], t) ==> places.contains(t)
}

/// Whether files can be put at the same of some paths.
spec fn do_agree(places: Set<Seq<char>>, a: files::Contents, b: files::Contents) -> bool {
    forall|t: Seq<char>| #[trigger]
        places.contains(t) ==> files::is_directory(a, t) == files::is_directory(b, t)
            && files::is_under_file(a, t) == files::is_under_file(b, t)
}

proof fn lemma_some_among(site: path::Site, places: Set<Seq<char>>, list: Seq<SnapshotView>)
    requires
        list.len() > 0,
        are_among(site, places, list),
    ensures
        are_among(site, places, list.drop_last()),
        forall|t: Seq<char>| is_of(site, list.last(), t) ==> #[trigger] places.contains(t),
{
    let some = list.drop_last();
    assert forall|i: int, t: Seq<char>|
        0 <= i < some.len() && #[trigger] is_of(site, some[i], t) implies places.contains(t) by {
        assert(is_of(site, list[i], t));
    }
    assert forall|t: Seq<char>| is_of(site, list.last(), t) implies #[trigger] places.contains(
        t,
    ) by {
        assert(is_of(site, list[list.len() - 1], t));
    }
}

proof fn lemma_put_agrees(
    all: files::Contents,
    target: Seq<char>,
    content: Option<Seq<char>>,
    places: Set<Seq<char>>,
)
    requires
        is_flat(places),
        places.contains(target),
        put(all, target, content) is Ok,
    ensures
        do_agree(places, all, put(all, target, content)->Ok_0),
        !files::is_directory(all, target),
        content is Some ==> !files::is_under_file(all, target),
{
    let after = put(all, target, content)->Ok_0;
    assert forall|t: Seq<char>| #[trigger] places.contains(t) implies files::is_directory(all, t)
        == files::is_directory(after, t) && files::is_under_file(all, t) == files::is_under_file(
        after,
        t,
    ) by {
        assert(files::are_beside(target, t));
        match content {
            Some(c) => {
                files::lemma_with(all, target, files::Entry::Text(c), t);
                files::lemma_with_beside(all, target, files::Entry::Text(c), t);
            },
            None => {
                files::lemma_with(all, target, files::Entry::Gone, t);
                files::lemma_with_beside(all, target, files::Entry::Gone, t);
            },
        }
    }
}

/// Files that were put at some paths leave open where files can be put.
proof fn lemma_reverted_agrees(
    site: path::Site,
    all: files::Contents,
    list: Seq<SnapshotView>,
    direction: Direction,
    places: Set<Seq<char>>,
)
    requires
        is_flat(places),
        are_among(site, places, list),
        reverted(site, all, list, direction).failure is None,
    ensures
        do_agree(places, all, reverted(site, all, list, direction).files),
        forall|i: int, t: Seq<char>|
            0 <= i < list.len() && #[trigger] is_of(site, list[i], t) ==> !files::is_directory(
                all,
                t,
            ) && (wanted(list[i], direction) is Some ==> !files::is_under_file(all, t)),
    decreases list.len(),
{
    if list.len() > 0 {
        let some = list.drop_last();
        let s = list.last();
        lemma_some_among(site, places, list);
        lemma_reverted_agrees(site, all, some, direction, places);
        let so_far = reverted(site, all, some, direction).files;
        let target = path::resolution(site, s.path)->Ok_0;
        assert(is_of(site, s, target));
        assert(places.contains(target));
        lemma_put_agrees(so_far, target, wanted(s, direction), places);
        assert forall|i: int, t: Seq<char>|
            0 <= i < list.len() && #[trigger] is_of(site, list[i], t) implies !files::is_directory(
            all,
            t,
        ) && (wanted(list[i], direction) is Some ==> !files::is_under_file(all, t)) by {
            if i < some.len() {
                assert(is_of(site, some[i], t));
            } else {
                assert(t == target);
            }
        }
    }
}

/// Nothing fails where files can be put at every path.
proof fn lemma_reverted_succeeds(
    site: path::Site,
    all: files::Contents,
    list: Seq<SnapshotView>,
    direction: Direction,
    places: Set<Seq<char>>,
)
    requires
        is_flat(places),
        are_among(site, places, list),
        forall|i: int|
            0 <= i < list.len() ==> path::resolution(site, (#[trigger] list[i]).path) is Ok,
        forall|i: int, t: Seq<char>|
            0 <= i < list.len() && #[trigger] is_of(site, list[i], t) ==> !files::is_directory(
                all,
                t,
            ) && (wanted(list[i], direction) is Some ==> !files::is_under_file(all, t)),
    ensures
        reverted(site, all, list, direction).failure is None,
    decreases list.len(),
{
    if list.len() > 0 {
        let some = list.drop_last();
        let s = list.last();
        lemma_some_among(site, places, list);
        assert forall|i: int| 0 <= i < some.len() implies path::resolution(
            site,
            (#[trigger] some[i]).path,
        ) is Ok by {
            assert(some[i] == list[i]);
        }
        assert forall|i: int, t: Seq<char>|
            0 <= i < some.len() && #[trigger] is_of(site, some[i], t) implies !files::is_directory(
            all,
            t,
        ) && (wanted(some[i], direction) is Some ==> !files::is_under_file(all, t)) by {
            assert(is_of(site, list[i], t));
        }
        lemma_reverted_succeeds(site, all, some, direction, places);
        lemma_reverted_agrees(site, all, some, direction, places);
        assert(list[list.len() - 1] == s);
        let target = path::resolution(site, s.path)->Ok_0;
        assert(is_of(site, list[list.len() - 1], target));
        assert(places.contains(target));
    }
}

/// The files of snapshots.
spec fn places_of(site: path::Site, list: Seq<SnapshotView>) -> Set<Seq<char>> {
    Set::new(|t: Seq<char>| exists|i: int| 0 <= i < list.len() && is_of(site, #[trigger] list[i], t))
}

proof fn lemma_places(site: path::Site, list: Seq<SnapshotView>)
    ensures
        are_among(site, places_of(site, list), list),
        are_unnested(site, list, list) ==> is_flat(places_of(site, list)),
{
    let places = places_of(site, list);
    if are_unnested(site, list, list) {
        assert forall|t: Seq<char>, u: Seq<char>|
            #[trigger] places.contains(t) && #[trigger] places.contains(u) implies files::are_beside(
            t,
            u,
        ) by {
            let i = choose|i: int| 0 <= i < list.len() && is_of(site, #[trigger] list[i], t);
            let j = choose|j: int| 0 <= j < list.len() && is_of(site, #[trigger] list[j], u);
            assert(is_of(site, list[i], t) && is_of(site, list[j], u));
        }
    }
}

proof fn lemma_no_conflicts(
    site: path::Site,
    all: files::Contents,
    list: Seq<SnapshotView>,
    direction: Direction,
)
    ensures
        conflicts(site, all, list, direction).len() == 0 <==> forall|i: int|
            0 <= i < list.len() ==> current(site, all, (#[trigger] list[i]).path) == expected(
                list[i],
                direction,
            ),
    decreases list.len(),
{
    if list.len() > 0 {
        let some = list.drop_last();
        lemma_no_conflicts(site, all, some, direction);
        assert(list[list.len() - 1] == list.last());
        assert forall|i: int| 0 <= i < some.len() implies #[trigger] some[i] == list[i] by {}
        if conflicts(site, all, list, direction).len() == 0 {
            assert forall|i: int| 0 <= i < list.len() implies current(
                site,
                all,
                (#[trigger] list[i]).path,
            ) == expected(list[i], direction) by {
                if i < some.len() {
                    assert(some[i] == list[i]);
                }
            }
        } else if conflicts(site, all, some, direction).len() == 0 {
            assert(current(site, all, list[list.len() - 1].path) != expected(
                list[list.len() - 1],
                direction,
            ));
        } else {
            let i = choose|i: int|
                0 <= i < some.len() && current(site, all, (#[trigger] some[i]).path) != expected(
                    some[i],
                    direction,
                );
            assert(list[i] == some[i]);
        }
    }
}

/// An applied transaction leaves each of its files with the content that it stands for, and no other
/// file changed.
pub proof fn law_an_applied_transaction_puts_its_content(
    site: path::Site,
    h: History,
    force: bool,
    direction: Direction,
    i: int,
    other: Seq<char>,
)
    requires
        attempt(site, h, force, direction) is Applied,
        are_apart(site, source(h, direction).last().files),
        0 <= i < source(h, direction).last().files.len(),
    ensures
        ({
            let list = source(h, direction).last().files;
            let after = attempt(site, h, force, direction)->Applied_0.files;
            &&& current(site, after, list[i].path) == wanted(list[i], direction)
            &&& (forall|j: int| 0 <= j < list.len() ==> !is_of(site, #[trigger] list[j], other))
                ==> files::at(after, other) == files::at(h.files, other)
        }),
{
    let list = source(h, direction).last().files;
    lemma_reverted(site, h.files, list, direction, other);
    let target = path::resolution(site, list[i].path)->Ok_0;
    lemma_reverted(site, h.files, list, direction, target);
    assert(is_of(site, list[i], target));
}

/// Redoing a transaction that was undone meets no conflict, and then every file holds what it held;
/// and the other way round. Redoing can fail only where one file of the transaction lies below
/// another, so that a directory is now in the way.
pub proof fn law_redo_reverses_undo(
    site: path::Site,
    h: History,
    direction: Direction,
    p: Seq<char>,
)
    requires
        files::is_tree(h.files),
        attempt(site, h, false, direction) is Applied,
        are_apart(site, source(h, direction).last().files),
    ensures
        ({
            let list = source(h, direction).last().files;
            let between = attempt(site, h, false, direction)->Applied_0;
            let back = attempt(site, between, false, opposite(direction));
            &&& back is Applied || back is Failed
            &&& are_unnested(site, list, list) ==> back is Applied
            &&& back is Applied ==> {
                &&& back->Applied_0.undo == h.undo
                &&& back->Applied_0.redo == h.redo
                &&& files::content(back->Applied_0.files, p) == files::content(h.files, p)
            }
        }),
{
    let t = source(h, direction).last();
    let list = t.files;
    let between = attempt(site, h, false, direction)->Applied_0;
    let other = opposite(direction);
    lemma_reverted(site, h.files, list, direction, p);
    lemma_no_conflicts(site, h.files, list, direction);
    assert(source(between, other).last() == t);
    assert forall|i: int| 0 <= i < list.len() implies current(
        site,
        between.files,
        (#[trigger] list[i]).path,
    ) == expected(list[i], other) by {
        let target = path::resolution(site, list[i].path)->Ok_0;
        lemma_reverted(site, h.files, list, direction, target);
        assert(is_of(site, list[i], target));
    }
    lemma_no_conflicts(site, between.files, list, other);
    assert(source(h, direction).drop_last().push(t) =~= source(h, direction));
    assert(source(between, other).drop_last() =~= source(h, other));
    if are_unnested(site, list, list) {
        lemma_redo_succeeds(site, h.files, list, direction);
    }
    if reverted(site, between.files, list, other).failure is None {
        lemma_reverted(site, between.files, list, other, p);
        if exists|i: int| 0 <= i < list.len() && is_of(site, #[trigger] list[i], p) {
            let i = choose|i: int| 0 <= i < list.len() && is_of(site, #[trigger] list[i], p);
            assert(current(site, h.files, list[i].path) == expected(list[i], direction));
        }
    }
}

proof fn lemma_redo_succeeds(
    site: path::Site,
    all: files::Contents,
    list: Seq<SnapshotView>,
    direction: Direction,
)
    requires
        files::is_tree(all),
        are_apart(site, list),
        are_unnested(site, list, list),
        conflicts(site, all, list, direction).len() == 0,
        reverted(site, all, list, direction).failure is None,
    ensures
        reverted(
            site,
            reverted(site, all, list, direction).files,
            list,
            opposite(direction),
        ).failure is None,
{
    let places = places_of(site, list);
    let after = reverted(site, all, list, direction).files;
    let other = opposite(direction);
    lemma_places(site, list);
    lemma_reverted_agrees(site, all, list, direction, places);
    lemma_reverted(site, all, list, direction, Seq::empty());
    lemma_no_conflicts(site, all, list, direction);
    assert forall|i: int, t: Seq<char>|
        0 <= i < list.len() && #[trigger] is_of(site, list[i], t) implies !files::is_directory(
        after,
        t,
    ) && (wanted(list[i], other) is Some ==> !files::is_under_file(after, t)) by {
        assert(places.contains(t));
        assert(current(site, all, list[i].path) == expected(list[i], direction));
        if wanted(list[i], other) is Some {
            files::lemma_file_stands_free(all, t);
        }
    }
    lemma_reverted_succeeds(site, after, list, other, places);
}

/// Unless it is forced, a transaction is applied only where every one of its files still holds what
/// the transaction left there; otherwise it is reported, and nothing is done.
pub proof fn law_other_changes_are_never_overwritten(
    site: path::Site,
    h: History,
    direction: Direction,
)
    requires
        source(h, direction).len() > 0,
    ensures
        ({
            let list = source(h, direction).last().files;
            attempt(site, h, false, direction) is Conflicting <==> exists|i: int|
                0 <= i < list.len() && current(site, h.files, (#[trigger] list[i]).path)
                    != expected(list[i], direction)
        }),
{
    lemma_no_conflicts(site, h.files, source(h, direction).last().files, direction);
}

/// Undoing and redoing change no file outside the workspace.
pub proof fn law_reverting_stays_in_the_workspace(
    site: path::Site,
    all: files::Contents,
    list: Seq<SnapshotView>,
    direction: Direction,
    other: Seq<char>,
)
    requires
        !path::is_inside(site.canonical, other),
    ensures
        files::at(reverted(site, all, list, direction).files, other) == files::at(all, other),
    decreases list.len(),
{
    if list.len() > 0 {
        let some = list.drop_last();
        law_reverting_stays_in_the_workspace(site, all, some, direction, other);
        let s = list.last();
        if let Ok(target) = path::resolution(site, s.path) {
            let so_far = reverted(site, all, some, direction);
            lemma_put(so_far.files, target, wanted(s, direction), other);
        }
    }
}

/// Whether the files of two sets hold the same, whatever the order in which they are kept.
pub open spec fn are_alike(a: files::Contents, b: files::Contents) -> bool {
    forall|p: Seq<char>| #[trigger] files::content(a, p) == files::content(b, p)
}

/// Whether two histories have the same transactions and alike files.
pub open spec fn are_equal(h: History, g: History) -> bool {
    h.undo == g.undo && h.redo == g.redo && are_alike(h.files, g.files)
}

proof fn lemma_reverted_alike(
    site: path::Site,
    a: files::Contents,
    b: files::Contents,
    list: Seq<SnapshotView>,
    direction: Direction,
    places: Set<Seq<char>>,
)
    requires
        are_alike(a, b),
        do_agree(places, a, b),
        is_flat(places),
        are_among(site, places, list),
    ensures
        ({
            let x = reverted(site, a, list, direction);
            let y = reverted(site, b, list, direction);
            &&& are_alike(x.files, y.files)
            &&& do_agree(places, x.files, y.files)
            &&& x.applied == y.applied
            &&& x.failure == y.failure
        }),
    decreases list.len(),
{
    if list.len() > 0 {
        let some = list.drop_last();
        let s = list.last();
        lemma_some_among(site, places, list);
        lemma_reverted_alike(site, a, b, some, direction, places);
        let x = reverted(site, a, some, direction).files;
        let y = reverted(site, b, some, direction).files;
        if let Ok(target) = path::resolution(site, s.path) {
            let c = wanted(s, direction);
            assert(is_of(site, s, target));
            assert(places.contains(target));
            assert(put(x, target, c) is Ok == put(y, target, c) is Ok);
            if put(x, target, c) is Ok {
                lemma_put_agrees(x, target, c, places);
                lemma_put_agrees(y, target, c, places);
                assert forall|p: Seq<char>| #[trigger]
                    files::content(put(x, target, c)->Ok_0, p) == files::content(
                        put(y, target, c)->Ok_0,
                        p,
                    ) by {
                    lemma_put(x, target, c, p);
                    lemma_put(y, target, c, p);
                    assert(files::content(x, p) == files::content(y, p));
                }
            }
        }
    }
}

proof fn lemma_reverted_is_a_tree(
    site: path::Site,
    all: files::Contents,
    list: Seq<SnapshotView>,
    direction: Direction,
)
    requires
        files::is_unique(all),
        files::is_tree(all),
    ensures
        files::is_unique(reverted(site, all, list, direction).files),
        files::is_tree(reverted(site, all, list, direction).files),
    decreases list.len(),
{
    if list.len() > 0 {
        let some = list.drop_last();
        lemma_reverted_is_a_tree(site, all, some, direction);
        if let Ok(target) = path::resolution(site, list.last().path) {
            lemma_put(
                reverted(site, all, some, direction).files,
                target,
                wanted(list.last(), direction),
                target,
            );
        }
    }
}

proof fn lemma_conflicts_alike(
    site: path::Site,
    a: files::Contents,
    b: files::Contents,
    list: Seq<SnapshotView>,
    direction: Direction,
)
    requires
        are_alike(a, b),
    ensures
        conflicts(site, a, list, direction) == conflicts(site, b, list, direction),
    decreases list.len(),
{
    if list.len() > 0 {
        lemma_conflicts_alike(site, a, b, list.drop_last(), direction);
        if let Ok(target) = path::resolution(site, list.last().path) {
            assert(files::content(a, target) == files::content(b, target));
        }
    }
}

/// As long as nothing stops a request, it has taken as many transactions as it applied.
proof fn lemma_stack_left(site: path::Site, h: History, direction: Direction, n: nat)
    ensures
        ({
            let o = requested(site, h, false, direction, n);
            let stack = source(h, direction);
            &&& o.applied.len() <= n
            &&& o.conflict is None && o.failure is None ==> o.applied.len() <= stack.len()
                && source(o.history, direction) == stack.take(stack.len() - o.applied.len())
        }),
    decreases n,
{
    let stack = source(h, direction);
    if n == 0 {
        assert(stack.take(stack.len() as int) =~= stack);
    } else {
        lemma_stack_left(site, h, direction, (n - 1) as nat);
        let before = requested(site, h, false, direction, (n - 1) as nat);
        let left = source(before.history, direction);
        if left.len() > 0 && before.conflict is None && before.failure is None {
            assert(left.drop_last() =~= stack.take(left.len() - 1));
        }
    }
}

proof fn lemma_requested_alike(
    site: path::Site,
    h: History,
    g: History,
    direction: Direction,
    n: nat,
    places: Set<Seq<char>>,
)
    requires
        are_equal(h, g),
        do_agree(places, h.files, g.files),
        is_flat(places),
        forall|i: int|
            0 <= i < source(h, direction).len() && source(h, direction).len() - n <= i ==> are_among(
                site,
                places,
                (#[trigger] source(h, direction)[i]).files,
            ),
    ensures
        ({
            let x = requested(site, h, false, direction, n);
            let y = requested(site, g, false, direction, n);
            &&& are_equal(x.history, y.history)
            &&& do_agree(places, x.history.files, y.history.files)
            &&& x.applied == y.applied
            &&& x.conflict == y.conflict
            &&& x.failure == y.failure
        }),
    decreases n,
{
    if n > 0 {
        lemma_requested_alike(site, h, g, direction, (n - 1) as nat, places);
        lemma_stack_left(site, h, direction, (n - 1) as nat);
        let o = requested(site, h, false, direction, (n - 1) as nat);
        let x = o.history;
        let y = requested(site, g, false, direction, (n - 1) as nat).history;
        if source(x, direction).len() > 0 && o.conflict is None && o.failure is None {
            let list = source(x, direction).last().files;
            let stack = source(h, direction);
            assert(source(x, direction).last() == stack[stack.len() - o.applied.len() - 1]);
            lemma_conflicts_alike(site, x.files, y.files, list, direction);
            lemma_reverted_alike(site, x.files, y.files, list, direction, places);
        }
    }
}

/// A request whose first transaction was applied goes on as a smaller request.
proof fn lemma_requested_unfolds(site: path::Site, h: History, direction: Direction, n: nat)
    requires
        n > 0,
        attempt(site, h, false, direction) is Applied,
    ensures
        ({
            let first = attempt(site, h, false, direction);
            let rest = requested(site, first->Applied_0, false, direction, (n - 1) as nat);
            let all = requested(site, h, false, direction, n);
            &&& all.history == rest.history
            &&& all.conflict == rest.conflict
            &&& all.failure == rest.failure
            &&& all.applied == seq![first->Applied_1] + rest.applied
        }),
    decreases n,
{
    let first = attempt(site, h, false, direction);
    let none = requested(site, h, false, direction, 0);
    if n == 1 {
        let all = requested(site, h, false, direction, 1);
        assert(none.history == h);
        assert(all.applied =~= seq![first->Applied_1] + Seq::<AppliedView>::empty());
    } else {
        lemma_requested_unfolds(site, h, direction, (n - 1) as nat);
        let rest = requested(site, first->Applied_0, false, direction, (n - 1) as nat);
        let all = requested(site, h, false, direction, n);
        assert(all.applied =~= seq![first->Applied_1] + rest.applied);
    }
}

proof fn lemma_requested_so_far(site: path::Site, h: History, direction: Direction, n: nat)
    requires
        files::is_unique(h.files),
        files::is_tree(h.files),
        requested(site, h, false, direction, n).applied.len() >= n,
    ensures
        ({
            let o = requested(site, h, false, direction, n);
            let stack = source(h, direction);
            let given = source(o.history, opposite(direction));
            let first = source(h, opposite(direction)).len();
            &&& o.applied.len() == n <= stack.len()
            &&& o.conflict is None && o.failure is None
            &&& source(o.history, direction) == stack.take(stack.len() - n)
            &&& given.len() == first + n
            &&& forall|i: int| 0 <= i < n ==> given[first + i] == #[trigger] stack[stack.len() - 1 - i]
            &&& files::is_unique(o.history.files)
            &&& files::is_tree(o.history.files)
            &&& n > 0 ==> {
                let before = requested(site, h, false, direction, (n - 1) as nat);
                &&& before.applied.len() == n - 1
                &&& before.conflict is None && before.failure is None
                &&& attempt(site, before.history, false, direction) is Applied
                &&& o.history == attempt(site, before.history, false, direction)->Applied_0
            }
        }),
    decreases n,
{
    let stack = source(h, direction);
    if n == 0 {
        assert(stack.take(stack.len() as int) =~= stack);
    } else {
        lemma_stack_left(site, h, direction, (n - 1) as nat);
        lemma_requested_so_far(site, h, direction, (n - 1) as nat);
        let before = requested(site, h, false, direction, (n - 1) as nat);
        let left = source(before.history, direction);
        lemma_reverted_is_a_tree(site, before.history.files, left.last().files, direction);
        assert(left.drop_last() =~= stack.take(stack.len() - n));
        assert(left.last() == stack[stack.len() - n]);
    }
}

/// However many transactions were undone, redoing as many brings everything back; and the other way
/// round. No file of these transactions may lie below another: then a directory could be in the way.
#[verifier::spinoff_prover]
#[verifier::rlimit(60)]
pub proof fn law_redoing_brings_everything_back(
    site: path::Site,
    h: History,
    direction: Direction,
    n: nat,
)
    requires
        files::is_unique(h.files),
        files::is_tree(h.files),
        requested(site, h, false, direction, n).applied.len() >= n,
        forall|i: int|
            source(h, direction).len() - n <= i < source(h, direction).len() ==> are_apart(
                site,
                (#[trigger] source(h, direction)[i]).files,
            ),
        forall|i: int, j: int|
            source(h, direction).len() - n <= i < source(h, direction).len() && source(
                h,
                direction,
            ).len() - n <= j < source(h, direction).len() ==> are_unnested(
                site,
                (#[trigger] source(h, direction)[i]).files,
                (#[trigger] source(h, direction)[j]).files,
            ),
    ensures
        ({
            let done = requested(site, h, false, direction, n).history;
            let back = requested(site, done, false, opposite(direction), n);
            &&& back.applied.len() == n
            &&& back.conflict is None && back.failure is None
            &&& are_equal(back.history, h)
        }),
    decreases n,
{
    let other = opposite(direction);
    let stack = source(h, direction);
    lemma_requested_so_far(site, h, direction, n);
    if n > 0 {
        let fewer = (n - 1) as nat;
        lemma_requested_so_far(site, h, direction, fewer);
        law_redoing_brings_everything_back(site, h, direction, fewer);
        let before = requested(site, h, false, direction, fewer).history;
        let done = requested(site, h, false, direction, n).history;
        let left = source(before, direction);
        let list = left.last().files;
        assert(left.last() == stack[stack.len() - n]);
        assert(left.len() > 0);
        law_redo_reverses_undo(site, before, direction, Seq::empty());
        let again = attempt(site, done, false, other)->Applied_0;
        assert forall|p: Seq<char>| #[trigger]
            files::content(again.files, p) == files::content(before.files, p) by {
            law_redo_reverses_undo(site, before, direction, p);
        }
        let places = places_among(site, stack, stack.len() - n);
        lemma_places_among(site, stack, stack.len() - n);
        lemma_reverted_agrees(site, before.files, list, direction, places);
        lemma_reverted_agrees(site, done.files, list, other, places);
        lemma_requested_unfolds(site, done, other, n);
        let given = source(again, other);
        assert(given == source(before, other));
        assert forall|i: int| 0 <= i < given.len() && given.len() - fewer <= i implies are_among(
            site,
            places,
            (#[trigger] given[i]).files,
        ) by {
            let k = i - source(h, other).len();
            assert(given[i] == stack[stack.len() - 1 - k]);
        }
        lemma_requested_alike(site, again, before, other, fewer, places);
    }
}

/// The files of the transactions from one on.
spec fn places_among(site: path::Site, stack: Seq<TransactionView>, from: int) -> Set<Seq<char>> {
    Set::new(
        |t: Seq<char>|
            exists|i: int, k: int|
                from <= i < stack.len() && 0 <= k < stack[i].files.len() && #[trigger] is_of(
                    site,
                    stack[i].files[k],
                    t,
                ),
    )
}

proof fn lemma_places_among(site: path::Site, stack: Seq<TransactionView>, from: int)
    requires
        0 <= from,
        forall|i: int, j: int|
            from <= i < stack.len() && from <= j < stack.len() ==> are_unnested(
                site,
                (#[trigger] stack[i]).files,
                (#[trigger] stack[j]).files,
            ),
    ensures
        is_flat(places_among(site, stack, from)),
        forall|i: int|
            from <= i < stack.len() ==> are_among(
                site,
                places_among(site, stack, from),
                (#[trigger] stack[i]).files,
            ),
{
    let places = places_among(site, stack, from);
    assert forall|t: Seq<char>, u: Seq<char>|
        #[trigger] places.contains(t) && #[trigger] places.contains(u) implies files::are_beside(
        t,
        u,
    ) by {
        let (i, k) = choose|i: int, k: int|
            from <= i < stack.len() && 0 <= k < stack[i].files.len() && #[trigger] is_of(
                site,
                stack[i].files[k],
                t,
            );
        let (j, l) = choose|j: int, l: int|
            from <= j < stack.len() && 0 <= l < stack[j].files.len() && #[trigger] is_of(
                site,
                stack[j].files[l],
                u,
            );
        assert(are_unnested(site, stack[i].files, stack[j].files));
        assert(is_of(site, stack[i].files[k], t) && is_of(site, stack[j].files[l], u));
    }
}

/// Recording a transaction keeps the history within its limit, and forgets no more than it must, the
/// oldest first.
pub proof fn law_the_history_is_bounded(all: Seq<TransactionView>, max: nat)
    ensures
        newest(all, max).len() <= max,
        newest(all, max).is_suffix_of(all),
        all.len() <= max ==> newest(all, max) == all,
        all.len() > max ==> newest(all, max).len() == max,
{
    assert(newest(all, max) =~= all.subrange(all.len() - newest(all, max).len(), all.len() as int));
}

/// The directory of all histories, in the application's state directory.
pub fn undo_dir(state_dir: &str) -> (r: String)
    ensures
        r@ == path::joined(state_dir@, "undo"@),
{
    join_path(state_dir, "undo")
}

/// What a path writes to a hasher.
pub uninterp spec fn path_feed(p: Seq<char>) -> Seq<Seq<u8>>;

/// Feeds a path to a hasher, with the `Hash` impl of `std::path::Path`. The contract claims that what
/// is written follows what was written before and is a function of the path; it does not say which
/// bytes they are, which the standard library leaves open.
#[verifier::external_body]
fn feed_path(hasher: &mut DefaultHasher, p: &str)
    ensures
        final(hasher)@ == old(hasher)@ + path_feed(p@),
{
    std::hash::Hash::hash(std::path::Path::new(p), hasher)
}

/// The name of a history's file, from the hash of its worktree's path.
pub fn store_filename(hash: u64) -> (r: String)
    ensures
        r@ == text::hexadecimal(hash as nat, 16) + ".json"@,
{
    cat2(hex(hash, 16).as_str(), ".json")
}

/// The name of the file that holds a worktree's history. The path is the canonical one, so that a
/// worktree always has the same file.
pub fn undo_store_filename(canonical_root: &str) -> (r: String)
    ensures
        r@ == text::hexadecimal(
            DefaultHasher::spec_finish(path_feed(canonical_root@)) as nat,
            16,
        ) + ".json"@,
{
    let mut hasher: DefaultHasher = DefaultHasher::new();
    feed_path(&mut hasher, canonical_root);
    assert(hasher@ =~= path_feed(canonical_root@));
    store_filename(hasher.finish())
}

/// Undoing a change of one file puts back what was there before, where the file still holds what the
/// change left: the content before, or no file where there was none. The change can then be redone, and
/// it is told what was done. Where the file holds something else, nothing is done, and it is told what
/// was expected and what is there.
pub proof fn law_undo_puts_back_what_was_before(
    site: path::Site,
    h: History,
    t: TransactionView,
    s: SnapshotView,
    target: Seq<char>,
)
    requires
        h.undo.len() > 0,
        h.undo.last() == t,
        t.files == seq![s],
        path::resolution(site, s.path) == Ok::<Seq<char>, Failure>(target),
        !files::is_directory(h.files, target),
        !files::is_under_file(h.files, target),
    ensures
        ({
            let o = requested(site, h, false, Direction::Undo, 1);
            if files::content(h.files, target) == s.after {
                &&& o.failure is None
                &&& o.conflict is None
                &&& o.history.undo == h.undo.drop_last()
                &&& o.history.redo == h.redo.push(t)
                &&& files::content(o.history.files, target) == s.before
                &&& o.applied == seq![
                    AppliedView {
                        id: t.id,
                        description: t.description,
                        files: seq![
                            (
                                s.path,
                                if s.before is None {
                                    FileAction::Removed
                                } else if s.after is None {
                                    FileAction::Recreated
                                } else {
                                    FileAction::Restored
                                },
                            ),
                        ],
                    },
                ]
            } else {
                &&& o.failure is None
                &&& o.history == h
                &&& o.applied.len() == 0
                &&& o.conflict == Some(
                    ConflictView {
                        id: t.id,
                        description: t.description,
                        files: seq![
                            ConflictFileView {
                                path: s.path,
                                expected: s.after,
                                actual: files::content(h.files, target),
                            },
                        ],
                    },
                )
            }
        }),
{
    lemma_one_file(site, h.files, s, target, Direction::Undo);
    lemma_one_step(site, h, false, Direction::Undo);
}

/// Redoing a change of one file puts the change back, where the file holds what was there before it:
/// the content after, or no file where the change removed it.
pub proof fn law_redo_puts_the_change_back(
    site: path::Site,
    h: History,
    t: TransactionView,
    s: SnapshotView,
    target: Seq<char>,
)
    requires
        h.redo.len() > 0,
        h.redo.last() == t,
        t.files == seq![s],
        path::resolution(site, s.path) == Ok::<Seq<char>, Failure>(target),
        !files::is_directory(h.files, target),
        !files::is_under_file(h.files, target),
    ensures
        ({
            let o = requested(site, h, false, Direction::Redo, 1);
            if files::content(h.files, target) == s.before {
                &&& o.failure is None
                &&& o.conflict is None
                &&& o.history.redo == h.redo.drop_last()
                &&& o.history.undo == h.undo.push(t)
                &&& files::content(o.history.files, target) == s.after
                &&& o.applied == seq![
                    AppliedView {
                        id: t.id,
                        description: t.description,
                        files: seq![
                            (
                                s.path,
                                if s.after is None {
                                    FileAction::Removed
                                } else if s.before is None {
                                    FileAction::Recreated
                                } else {
                                    FileAction::Restored
                                },
                            ),
                        ],
                    },
                ]
            } else {
                &&& o.failure is None
                &&& o.history == h
                &&& o.applied.len() == 0
                &&& o.conflict == Some(
                    ConflictView {
                        id: t.id,
                        description: t.description,
                        files: seq![
                            ConflictFileView {
                                path: s.path,
                                expected: s.before,
                                actual: files::content(h.files, target),
                            },
                        ],
                    },
                )
            }
        }),
{
    lemma_one_file(site, h.files, s, target, Direction::Redo);
    lemma_one_step(site, h, false, Direction::Redo);
}

proof fn lemma_one_step(site: path::Site, h: History, force: bool, direction: Direction)
    ensures
        requested(site, h, force, direction, 1) == (match attempt(site, h, force, direction) {
            Attempt::Empty => Requested {
                history: h,
                applied: Seq::empty(),
                conflict: None,
                failure: None,
            },
            Attempt::Conflicting(c) => Requested {
                history: h,
                applied: Seq::empty(),
                conflict: Some(c),
                failure: None,
            },
            Attempt::Failed(after, e) => Requested {
                history: after,
                applied: Seq::empty(),
                conflict: None,
                failure: Some(e),
            },
            Attempt::Applied(after, a) => Requested {
                history: after,
                applied: seq![a],
                conflict: None,
                failure: None,
            },
        }),
{
    let o = requested(site, h, force, direction, 0);
    assert(o == (Requested {
        history: h,
        applied: Seq::empty(),
        conflict: None,
        failure: None,
    }));
    if let Attempt::Applied(after, a) = attempt(site, h, force, direction) {
        assert(Seq::empty().push(a) =~= seq![a]);
    }
}

proof fn lemma_one_file(
    site: path::Site,
    all: files::Contents,
    s: SnapshotView,
    target: Seq<char>,
    direction: Direction,
)
    requires
        path::resolution(site, s.path) == Ok::<Seq<char>, Failure>(target),
        !files::is_directory(all, target),
        !files::is_under_file(all, target),
    ensures
        conflicts(site, all, seq![s], direction) == (if files::content(all, target) == expected(
            s,
            direction,
        ) {
            Seq::empty()
        } else {
            seq![
                ConflictFileView {
                    path: s.path,
                    expected: expected(s, direction),
                    actual: files::content(all, target),
                },
            ]
        }),
        reverted(site, all, seq![s], direction).failure is None,
        reverted(site, all, seq![s], direction).applied == seq![(s.path, action(s, direction))],
        files::content(reverted(site, all, seq![s], direction).files, target) == wanted(
            s,
            direction,
        ),
{
    let one = seq![s];
    assert(one.drop_last() =~= Seq::empty());
    assert(conflicts(site, all, one.drop_last(), direction) =~= Seq::empty());
    let before = reverted(site, all, one.drop_last(), direction);
    assert(before.files == all && before.failure is None && before.applied =~= Seq::empty());
    assert(Seq::empty().push((s.path, action(s, direction))) =~= seq![(s.path, action(s, direction))]);
    match wanted(s, direction) {
        Some(c) => {
            files::law_reading_gives_back_what_was_written(all, target, c, target);
        },
        None => {
            files::law_a_removed_file_is_gone(all, target, target);
        },
    }
    if files::content(all, target) != expected(s, direction) {
        let c = ConflictFileView {
            path: s.path,
            expected: expected(s, direction),
            actual: files::content(all, target),
        };
        assert(Seq::empty().push(c) =~= seq![c]);
    }
}

/// A request for several transactions is so many requests for one, each on what those before it left,
/// until there is none left or one stops it.
pub proof fn law_several_are_one_after_the_other(
    site: path::Site,
    h: History,
    force: bool,
    direction: Direction,
    n: nat,
)
    ensures
        requested(site, h, force, direction, 0).history == h,
        requested(site, h, force, direction, 0).applied.len() == 0,
        ({
            let o = requested(site, h, force, direction, n);
            let more = requested(site, h, force, direction, n + 1);
            let next = requested(site, o.history, force, direction, 1);
            if o.conflict is Some || o.failure is Some {
                more == o
            } else {
                &&& more.history == next.history
                &&& more.conflict == next.conflict
                &&& more.failure == next.failure
                &&& more.applied == o.applied + next.applied
            }
        }),
        source(h, direction).len() == 0 ==> requested(site, h, force, direction, 1).history == h,
{
    let o = requested(site, h, force, direction, n);
    lemma_one_step(site, o.history, force, direction);
    lemma_one_step(site, h, force, direction);
    let next = requested(site, o.history, force, direction, 1);
    if !(o.conflict is Some || o.failure is Some) {
        assert(requested(site, h, force, direction, n + 1).applied =~= o.applied + next.applied);
    }
}

/// A file that the change had made is removed by undoing it and made again by redoing it; one that
/// the change had removed the other way round; any other is restored either way.
pub proof fn law_an_action_says_what_became_of_the_file(s: SnapshotView)
    ensures
        s.before is None && s.after is Some ==> action(s, Direction::Undo) == FileAction::Removed
            && action(s, Direction::Redo) == FileAction::Recreated,
        s.before is Some && s.after is None ==> action(s, Direction::Undo) == FileAction::Recreated
            && action(s, Direction::Redo) == FileAction::Removed,
        s.before is Some && s.after is Some ==> action(s, Direction::Undo) == FileAction::Restored
            && action(s, Direction::Redo) == FileAction::Restored,
{
}

} // verus!
