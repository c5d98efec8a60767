//! Downloading, replacing the installed executable, and starting it again.

use vstd::prelude::*;

use crate::text;
use crate::text_laws;
use crate::text::{cat2, chars_of, join, split, text_of};
use crate::tools::path;
use crate::tools::path::{file_name_of, find_kept, first_parts, join_path};
use crate::updater;
use crate::updater::{Fault, UpdateError};

verus! {

/// How often the executable is tried to be replaced.
pub const MAX_ATTEMPTS: u32 = 100;

/// How long to wait between two attempts, in milliseconds.
pub const RETRY_MS: u64 = 100;

/// A download on its way.
#[derive(Clone, Copy, Debug, PartialEq, Eq, Structural)]
pub struct Download {
    /// How many bytes have arrived.
    pub downloaded: u64,
    /// How many bytes there are, where the server says so.
    pub total: Option<u64>,
}

impl Download {
    /// A download that was just begun.
    pub fn start(total: Option<u64>) -> (r: Download)
        ensures
            r == (Download { downloaded: 0, total }),
    {
        Download { downloaded: 0, total }
    }

    /// Counts a chunk that arrived, and gives what is reported.
    pub fn advance(&mut self, chunk_len: u64) -> (r: (u64, Option<u64>))
        requires
            old(self).downloaded + chunk_len <= u64::MAX,
        ensures
            final(self).downloaded == old(self).downloaded + chunk_len,
            final(self).total == old(self).total,
            r == (final(self).downloaded, final(self).total),
    {
        self.downloaded = self.downloaded + chunk_len;
        (self.downloaded, self.total)
    }
}

/// Where a download is put while it is not complete.
pub fn partial_path(staging: &str) -> (r: String)
    ensures
        r@ == path::joined(staging@, "download.partial"@),
{
    join_path(staging, "download.partial")
}

/// Where a complete download is put.
pub fn download_path(staging: &str) -> (r: String)
    ensures
        r@ == path::joined(staging@, "release.download"@),
{
    join_path(staging, "release.download")
}

/// A file's name without its extension.
pub open spec fn stem(name: Seq<char>) -> Seq<char> {
    let dot = path::last_of(name, '.', name.len() as int);
    if dot > 0 {
        name.take(dot)
    } else {
        name
    }
}

/// Where the old executable is kept while it is replaced: beside it, with another extension.
pub open spec fn backup_of(installed: Seq<char>) -> Seq<char> {
    let parts = text::split_on(installed, '/');
    let last = path::last_kept(parts, parts.len() as int);
    match path::file_name(installed) {
        Some(name) => text::joined(parts.take(last).push(stem(name) + ".previous"@), "/"@),
        None => installed,
    }
}

/// Gives a file's name without its extension.
fn stem_of(name: &str) -> (r: String)
    ensures
        r@ == stem(name@),
{
    let v: Vec<char> = chars_of(name);
    let mut i: usize = v.len();
    while i > 0
        invariant
            i <= v@.len(),
            v@ == name@,
            path::last_of(v@, '.', v@.len() as int) == path::last_of(v@, '.', i as int),
        decreases i,
    {
        if v[i - 1] == '.' {
            if i == 1 {
                return name.to_owned();
            }
            let s: String = text_of(&v, 0, i - 1);
            assert(s@ =~= name@.take(i - 1));
            return s;
        }
        i = i - 1;
    }
    name.to_owned()
}

/// Gives where the old executable is kept while it is replaced.
pub fn backup_path(installed: &str) -> (r: String)
    ensures
        r@ == backup_of(installed@),
{
    let parts: Vec<String> = split(installed, '/');
    let ghost all = text::texts(parts@);
    assert(all.len() == parts@.len());
    proof {
        path::lemma_last_component(all, all.len() as int);
    }
    let last: usize = match find_kept(&parts, parts.len()) {
        Some(i) => i,
        None => {
            return installed.to_owned();
        },
    };
    match file_name_of(installed) {
        Some(name) => {
            let s: String = stem_of(name.as_str());
            let own: String = cat2(s.as_str(), ".previous");
            let mut list: Vec<String> = first_parts(&parts, last);
            let ghost before = text::texts(list@);
            list.push(own);
            assert(text::texts(list@) =~= before.push(stem(name@) + ".previous"@));
            join(&list, "/")
        },
        None => installed.to_owned(),
    }
}

/// One step of replacing the executable.
#[derive(Debug, PartialEq, Eq)]
pub enum ReplaceStep {
    /// Remove an old backup, if there is one.
    ClearBackup,
    /// Rename the installed executable to its backup.
    MoveAway,
    /// Rename the staged executable to the installed one.
    Place,
    /// Rename the backup to the installed executable, after the given error.
    Restore(String),
    /// Remove the backup.
    Cleanup,
    /// Nothing more.
    Done(Result<(), UpdateError>),
}

/// One step of replacing the executable, over plain values.
pub enum StepView {
    ClearBackup,
    MoveAway,
    Place,
    Restore(Seq<char>),
    Cleanup,
    Done(Result<(), Fault>),
}

impl View for ReplaceStep {
    type V = StepView;

    open spec fn view(&self) -> StepView {
        match *self {
            ReplaceStep::ClearBackup => StepView::ClearBackup,
            ReplaceStep::MoveAway => StepView::MoveAway,
            ReplaceStep::Place => StepView::Place,
            ReplaceStep::Restore(e) => StepView::Restore(e@),
            ReplaceStep::Cleanup => StepView::Cleanup,
            ReplaceStep::Done(r) => StepView::Done(
                match r {
                    Ok(_) => Ok(()),
                    Err(e) => Err(e@),
                },
            ),
        }
    }
}

/// The first step, from whether the staged executable is a file.
pub open spec fn first_step(staged_is_file: bool) -> StepView {
    if staged_is_file {
        StepView::ClearBackup
    } else {
        StepView::Done(Err(Fault::Replace("invalid update source or target"@)))
    }
}

/// The step after another, from what became of it. Whether a backup could be removed does not
/// matter.
pub open spec fn next_step(step: StepView, outcome: Result<(), Seq<char>>) -> StepView {
    match step {
        StepView::ClearBackup => StepView::MoveAway,
        StepView::MoveAway => match outcome {
            Ok(_) => StepView::Place,
            Err(e) => StepView::Done(Err(Fault::Replace(e))),
        },
        StepView::Place => match outcome {
            Ok(_) => StepView::Cleanup,
            Err(e) => StepView::Restore(e),
        },
        StepView::Restore(error) => match outcome {
            Ok(_) => StepView::Done(Err(Fault::Replace(error))),
            Err(e) => StepView::Done(Err(Fault::Rollback(e))),
        },
        StepView::Cleanup => StepView::Done(Ok(())),
        StepView::Done(r) => StepView::Done(r),
    }
}

/// An outcome over plain values.
pub open spec fn outcome_view(r: Result<(), String>) -> Result<(), Seq<char>> {
    match r {
        Ok(_) => Ok(()),
        Err(e) => Err(e@),
    }
}

/// Begins to replace the executable.
pub fn replace_with_rollback(staged_is_file: bool) -> (r: ReplaceStep)
    ensures
        r@ == first_step(staged_is_file),
{
    if staged_is_file {
        ReplaceStep::ClearBackup
    } else {
        ReplaceStep::Done(
            Err(UpdateError::Replace("invalid update source or target".to_owned())),
        )
    }
}

/// Goes on replacing the executable after a step.
pub fn advance_replacement(step: ReplaceStep, outcome: Result<(), String>) -> (r: ReplaceStep)
    ensures
        r@ == next_step(step@, outcome_view(outcome)),
{
    match step {
        ReplaceStep::ClearBackup => ReplaceStep::MoveAway,
        ReplaceStep::MoveAway => match outcome {
            Ok(_) => ReplaceStep::Place,
            Err(e) => ReplaceStep::Done(Err(UpdateError::Replace(e))),
        },
        ReplaceStep::Place => match outcome {
            Ok(_) => ReplaceStep::Cleanup,
            Err(e) => ReplaceStep::Restore(e),
        },
        ReplaceStep::Restore(error) => match outcome {
            Ok(_) => ReplaceStep::Done(Err(UpdateError::Replace(error))),
            Err(e) => ReplaceStep::Done(Err(UpdateError::Rollback(e))),
        },
        ReplaceStep::Cleanup => ReplaceStep::Done(Ok(())),
        ReplaceStep::Done(r) => ReplaceStep::Done(r),
    }
}

/// What the three places hold.
pub struct Disk {
    pub staged: Option<Seq<u8>>,
    pub installed: Option<Seq<u8>>,
    pub backup: Option<Seq<u8>>,
}

/// What the places hold after a step: nothing changes where it fails.
pub open spec fn after_step(d: Disk, step: StepView, ok: bool) -> Disk {
    if !ok {
        d
    } else {
        match step {
            StepView::ClearBackup => Disk { backup: None, ..d },
            StepView::MoveAway => Disk { backup: d.installed, installed: None, ..d },
            StepView::Place => Disk { installed: d.staged, staged: None, ..d },
            StepView::Restore(_) => Disk { installed: d.backup, backup: None, ..d },
            StepView::Cleanup => Disk { backup: None, ..d },
            StepView::Done(_) => d,
        }
    }
}

/// What the places hold and which step is next, after the first steps had the given outcomes.
pub open spec fn replaced(d: Disk, outcomes: Seq<Result<(), Seq<char>>>) -> (Disk, StepView)
    decreases outcomes.len(),
{
    if outcomes.len() == 0 {
        (d, first_step(true))
    } else {
        let (before, step) = replaced(d, outcomes.drop_last());
        (after_step(before, step, outcomes.last() is Ok), next_step(step, outcomes.last()))
    }
}

/// However the steps come out, replacing ends after at most five of them. Where it succeeds, the new
/// executable is installed; where it fails, the old one is installed as it was; and only where it
/// could not be put back, which is told apart, is it in the backup.
pub proof fn law_replacing_never_loses_the_executable(
    d: Disk,
    outcomes: Seq<Result<(), Seq<char>>>,
)
    requires
        d.installed is Some,
        d.staged is Some,
        outcomes.len() == 5,
    ensures
        ({
            let (after, step) = replaced(d, outcomes);
            match step {
                StepView::Done(Ok(_)) => after.installed == d.staged,
                StepView::Done(Err(Fault::Replace(_))) => after.installed == d.installed,
                StepView::Done(Err(Fault::Rollback(_))) => after.backup == d.installed,
                _ => false,
            }
        }),
{
    let a = outcomes.drop_last();
    let b = a.drop_last();
    let c = b.drop_last();
    let e = c.drop_last();
    assert(e.drop_last() =~= Seq::empty());
    reveal_with_fuel(replaced, 6);
}

/// What to do after an attempt to replace the executable.
#[derive(Debug, PartialEq, Eq)]
pub enum AfterAttempt {
    /// Start the new executable.
    Restart,
    /// Wait, then try again.
    TryAgain { wait_ms: u64 },
    /// Wait, then give up with a message.
    GiveUp { wait_ms: u64, message: String },
}

/// Says what to do after the `made`th attempt. The program that is replaced may still be ending, so
/// it is tried again until it succeeds or has been tried often enough.
pub fn after_attempt(made: u32, outcome: &Result<(), UpdateError>) -> (r: AfterAttempt)
    ensures
        match *outcome {
            Ok(_) => r is Restart,
            Err(e) => if made < MAX_ATTEMPTS {
                r == (AfterAttempt::TryAgain { wait_ms: RETRY_MS })
            } else {
                &&& r matches AfterAttempt::GiveUp { wait_ms, message }
                &&& wait_ms == RETRY_MS
                &&& message@ == updater::fault_text(e@)
            },
        },
{
    match outcome {
        Ok(_) => AfterAttempt::Restart,
        Err(e) => if made < MAX_ATTEMPTS {
            AfterAttempt::TryAgain { wait_ms: RETRY_MS }
        } else {
            AfterAttempt::GiveUp { wait_ms: RETRY_MS, message: e.message() }
        },
    }
}

/// What the updater says when it gives up.
pub fn failure_text(message: &str) -> (r: String)
    ensures
        r@ == "Gocode update failed: "@ + message@,
{
    cat2("Gocode update failed: ", message)
}

/// The error of an executable that could not be started again.
pub fn restart_error(error: &str) -> (r: UpdateError)
    ensures
        r@ == Fault::Replace("could not restart Gocode: "@ + error@),
{
    UpdateError::Replace(cat2("could not restart Gocode: ", error))
}

/// The old executable is kept in the same directory, under its own name with `previous` for its
/// extension, or behind it where it has none.
pub proof fn law_the_backup_lies_beside_the_executable(
    directory: Seq<char>,
    own: Seq<char>,
    extension: Seq<char>,
)
    requires
        path::is_plain_name(own),
        path::is_plain_name(own + seq!['.'] + extension),
        text_laws::lacks(extension, '.'),
    ensures
        backup_of(directory + seq!['/'] + own + seq!['.'] + extension) == directory + seq!['/']
            + own + ".previous"@,
        text_laws::lacks(own, '.') ==> backup_of(directory + seq!['/'] + own) == directory
            + seq!['/'] + own + ".previous"@,
{
    let name = own + seq!['.'] + extension;
    assert(directory + seq!['/'] + name =~= directory + seq!['/'] + own + seq!['.'] + extension);
    path::lemma_dots();
    path::lemma_one_more_part(directory, name);
    path::lemma_one_more_part(directory, own);
    text_laws::law_pieces_make_the_text(directory, seq![own], '/');
    path::law_a_path_ends_in_its_name(directory, name, own, extension);
    path::law_a_path_ends_in_its_name(directory, own, own, extension);
    path::lemma_last_of(name, '.', own.len() as int, name.len() as int);
    assert(stem(name) =~= own);
    if text_laws::lacks(own, '.') {
        path::lemma_last_of(own, '.', -1, own.len() as int);
        assert(stem(own) == own);
    }
    let parts = text::split_on(directory, '/');
    reveal_strlit("/");
    assert("/"@ =~= seq!['/']);
    let kept = own + ".previous"@;
    assert(parts.push(name).take(parts.len() as int) =~= parts);
    assert(parts.push(own).take(parts.len() as int) =~= parts);
    assert(parts + seq![kept] =~= parts.push(kept));
    text_laws::law_joining_puts_the_separator_between(parts, seq![kept], kept, "/"@);
    assert(directory + seq!['/'] + kept =~= directory + seq!['/'] + own + ".previous"@);
}

/// Where every step succeeds, the new executable is installed and no backup is left. Where only
/// putting it in its place fails, the old one is put back, and the error is told. Where the old one
/// cannot be moved away, nothing is touched.
pub proof fn law_replacing_follows_its_steps(d: Disk, error: Seq<char>)
    ensures
        ({
            let ok: Result<(), Seq<char>> = Ok(());
            let failed: Result<(), Seq<char>> = Err(error);
            let (all, done) = replaced(d, seq![ok, ok, ok, ok]);
            let (back, restored) = replaced(d, seq![ok, ok, failed, ok]);
            let (kept, refused) = replaced(d, seq![failed, failed]);
            &&& all == (Disk { staged: None, installed: d.staged, backup: None })
            &&& done == StepView::Done(Ok(()))
            &&& back == (Disk { staged: d.staged, installed: d.installed, backup: None })
            &&& restored == StepView::Done(Err(Fault::Replace(error)))
            &&& kept == d
            &&& refused == StepView::Done(Err(Fault::Replace(error)))
        }),
{
    let ok: Result<(), Seq<char>> = Ok(());
    let failed: Result<(), Seq<char>> = Err(error);
    reveal_with_fuel(replaced, 5);
    assert(seq![ok, ok, ok, ok].drop_last() =~= seq![ok, ok, ok]);
    assert(seq![ok, ok, ok].drop_last() =~= seq![ok, ok]);
    assert(seq![ok, ok].drop_last() =~= seq![ok]);
    assert(seq![ok].drop_last() =~= Seq::empty());
    assert(seq![ok, ok, failed, ok].drop_last() =~= seq![ok, ok, failed]);
    assert(seq![ok, ok, failed].drop_last() =~= seq![ok, ok]);
    assert(seq![failed, failed].drop_last() =~= seq![failed]);
    assert(seq![failed].drop_last() =~= Seq::empty());
}

} // verus!
