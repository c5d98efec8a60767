//! The files of a workspace, as far as a tool call reads and changes them.

use vstd::prelude::*;

use crate::text;
use crate::text::{cat3, same_text};
use crate::tools::contract::{Failure, FailureKind, ToolError};
use crate::tools::path;
use crate::tools::path::{lies_inside, parent_of, Workspace};

verus! {

/// What is at a path.
#[derive(Clone, Debug, PartialEq, Eq)]
pub enum Stored {
    /// A file with text.
    Text(String),
    /// A file that cannot be read as text, and why.
    Unreadable(String),
    /// A directory.
    Directory,
    /// Nothing any more; the directories above it stay.
    Gone,
}

/// What is at a path, over plain values.
pub enum Entry {
    Text(Seq<char>),
    Unreadable(Seq<char>),
    Directory,
    Gone,
}

impl View for Stored {
    type V = Entry;

    open spec fn view(&self) -> Entry {
        match self {
            Stored::Text(c) => Entry::Text(c@),
            Stored::Unreadable(why) => Entry::Unreadable(why@),
            Stored::Directory => Entry::Directory,
            Stored::Gone => Entry::Gone,
        }
    }
}

/// A path and what is there.
#[derive(Debug, PartialEq, Eq)]
pub struct StoredFile {
    /// Normalized absolute path.
    pub path: String,
    /// What is there.
    pub kind: Stored,
}

/// What is known of the files of a workspace.
#[derive(Debug, PartialEq, Eq)]
pub struct FileSet {
    pub workspace: Workspace,
    pub files: Vec<StoredFile>,
}

/// Paths and what is there.
pub type Contents = Seq<(Seq<char>, Entry)>;

/// Files over plain values.
pub open spec fn stored(files: Seq<StoredFile>) -> Contents {
    Seq::new(files.len(), |i: int| (files[i].path@, files[i].kind@))
}

/// The first entry at or after `from` with a path, or -1.
pub open spec fn row(files: Contents, p: Seq<char>, from: int) -> int
    decreases files.len() - from,
{
    if from >= files.len() {
        -1
    } else if files[from].0 == p {
        from
    } else {
        row(files, p, from + 1)
    }
}

/// What is known of a path.
pub open spec fn at(files: Contents, p: Seq<char>) -> Option<Entry> {
    let i = row(files, p, 0);
    if i >= 0 {
        Some(files[i].1)
    } else {
        None
    }
}

/// The text of a file, where there is one.
pub open spec fn content(files: Contents, p: Seq<char>) -> Option<Seq<char>> {
    match at(files, p) {
        Some(Entry::Text(c)) => Some(c),
        _ => None,
    }
}

/// Whether an entry is a file.
pub open spec fn is_file_entry(e: Entry) -> bool {
    e is Text || e is Unreadable
}

/// Whether there is a file at a path.
pub open spec fn is_file(files: Contents, p: Seq<char>) -> bool {
    at(files, p) matches Some(e) && is_file_entry(e)
}

/// Whether a path lies below another.
pub open spec fn is_below(above: Seq<char>, p: Seq<char>) -> bool {
    path::is_inside(above, p) && !path::is_inside(p, above)
}

/// Whether something is or was below a path.
pub open spec fn has_below(files: Contents, p: Seq<char>) -> bool {
    exists|i: int| 0 <= i < files.len() && is_below(p, (#[trigger] files[i]).0)
}

/// Whether there is a directory at a path. One that held a file stays when the file goes.
pub open spec fn is_directory(files: Contents, p: Seq<char>) -> bool {
    at(files, p) == Some(Entry::Directory) || has_below(files, p)
}

/// Whether there is a file or a directory at a path.
pub open spec fn exists_at(files: Contents, p: Seq<char>) -> bool {
    is_file(files, p) || is_directory(files, p)
}

/// Whether a path leads through a file.
pub open spec fn is_under_file(files: Contents, p: Seq<char>) -> bool {
    exists|i: int|
        0 <= i < files.len() && is_file_entry((#[trigger] files[i]).1) && is_below(files[i].0, p)
}

/// The files after something else was put at a path.
pub open spec fn with(files: Contents, p: Seq<char>, e: Entry) -> Contents {
    let i = row(files, p, 0);
    if i >= 0 {
        files.update(i, (p, e))
    } else {
        files.push((p, e))
    }
}

/// The files with an entry at a path, unless something is known of that path.
pub open spec fn noted(files: Contents, p: Seq<char>, e: Entry) -> Contents {
    if row(files, p, 0) >= 0 {
        files
    } else {
        files.push((p, e))
    }
}

/// The directory of a path, as it is told.
pub open spec fn directory_of(p: Seq<char>) -> Seq<char> {
    match path::parent(p) {
        Some(directory) => directory,
        None => Seq::empty(),
    }
}

/// The files after a text was written, or why it cannot be: a file cannot be made below a file, nor
/// in place of a directory.
pub open spec fn written(files: Contents, p: Seq<char>, c: Seq<char>) -> Result<Contents, Failure> {
    if is_under_file(files, p) {
        Err(
            Failure {
                kind: FailureKind::Io,
                text: "could not create "@ + directory_of(p) + ": a file is in the way"@,
            },
        )
    } else if is_directory(files, p) {
        Err(
            Failure {
                kind: FailureKind::Io,
                text: "could not replace "@ + p + ": it is a directory"@,
            },
        )
    } else {
        Ok(with(files, p, Entry::Text(c)))
    }
}

/// The files after a file was removed, or why it cannot be: a directory is not removed. Where there
/// is nothing, nothing is done.
pub open spec fn erased(files: Contents, p: Seq<char>) -> Result<Contents, Failure> {
    if is_directory(files, p) {
        Err(
            Failure {
                kind: FailureKind::Io,
                text: "could not remove "@ + p + ": it is a directory"@,
            },
        )
    } else if is_file(files, p) {
        Ok(with(files, p, Entry::Gone))
    } else {
        Ok(files)
    }
}

/// Whether no path stands twice.
pub open spec fn is_unique(files: Contents) -> bool {
    forall|i: int, j: int|
        0 <= i < j < files.len() ==> (#[trigger] files[i]).0 != (#[trigger] files[j]).0
}

/// Whether nothing is below a file.
pub open spec fn is_tree(files: Contents) -> bool {
    forall|i: int, j: int|
        0 <= i < files.len() && 0 <= j < files.len() && is_file_entry((#[trigger] files[i]).1)
            ==> !is_below(files[i].0, (#[trigger] files[j]).0)
}

impl View for FileSet {
    type V = Contents;

    open spec fn view(&self) -> Contents {
        stored(self.files@)
    }
}

impl FileSet {
    /// No path stands twice, and nothing is below a file.
    pub open spec fn wf(self) -> bool {
        is_unique(self@) && is_tree(self@)
    }

    /// A workspace without files and links.
    pub fn new(root: &str) -> (r: FileSet)
        ensures
            r.workspace@ == path::plain_site(root@),
            r@.len() == 0,
            r.wf(),
    {
        FileSet { workspace: Workspace::new(root), files: Vec::new() }
    }

    /// The files of a workspace, of which none is known yet.
    pub fn of(workspace: Workspace) -> (r: FileSet)
        ensures
            r.workspace == workspace,
            r@.len() == 0,
            r.wf(),
    {
        FileSet { workspace, files: Vec::new() }
    }

    /// Notes what is at a path, unless something is known of that path.
    pub fn note(&mut self, p: &str, kind: Stored)
        ensures
            final(self)@ == noted(old(self)@, p@, kind@),
            final(self).workspace == old(self).workspace,
            old(self).wf() && !is_under_file(old(self)@, p@) && (is_file_entry(kind@)
                ==> !has_below(old(self)@, p@)) ==> final(self).wf(),
    {
        let ghost before = self@;
        let ghost e = kind@;
        if self.find(p).is_none() {
            self.files.push(StoredFile { path: p.to_owned(), kind });
            assert(self@ =~= before.push((p@, e)));
            proof {
                lemma_with(before, p@, e, p@);
                lemma_with_keeps_the_tree(before, p@, e);
            }
        }
    }

    /// Finds what is at a path.
    fn find(&self, p: &str) -> (r: Option<usize>)
        ensures
            match r {
                Some(i) => i < self@.len() && row(self@, p@, 0) == i,
                None => row(self@, p@, 0) == -1,
            },
    {
        let ghost all = self@;
        let mut i: usize = 0;
        while i < self.files.len()
            invariant
                i <= self.files@.len(),
                all == self@,
                row(all, p@, 0) == row(all, p@, i as int),
            decreases self.files@.len() - i,
        {
            assert(all[i as int].0 == self.files@[i as int].path@);
            if same_text(self.files[i].path.as_str(), p) {
                return Some(i);
            }
            i = i + 1;
        }
        None
    }

    /// Reads a file.
    pub fn read(&self, p: &str) -> (r: Option<String>)
        ensures
            text::opt_text(r) == content(self@, p@),
    {
        match self.find(p) {
            Some(i) => {
                assert(self@[i as int].1 == self.files@[i as int].kind@);
                match &self.files[i].kind {
                    Stored::Text(c) => Some(c.clone()),
                    _ => None,
                }
            },
            None => None,
        }
    }

    /// Why a file cannot be read as text, where there is one that cannot.
    pub fn why_unreadable(&self, p: &str) -> (r: Option<String>)
        ensures
            match at(self@, p@) {
                Some(Entry::Unreadable(why)) => r matches Some(told) && told@ == why,
                _ => r is None,
            },
    {
        match self.find(p) {
            Some(i) => {
                assert(self@[i as int].1 == self.files@[i as int].kind@);
                match &self.files[i].kind {
                    Stored::Unreadable(why) => Some(why.clone()),
                    _ => None,
                }
            },
            None => None,
        }
    }

    /// Tells whether there is a file at a path.
    pub fn holds_file(&self, p: &str) -> (r: bool)
        ensures
            r == is_file(self@, p@),
    {
        match self.find(p) {
            Some(i) => {
                assert(self@[i as int].1 == self.files@[i as int].kind@);
                match &self.files[i].kind {
                    Stored::Text(_) => true,
                    Stored::Unreadable(_) => true,
                    _ => false,
                }
            },
            None => false,
        }
    }

    /// Tells whether there is a directory at a path.
    pub fn holds_directory(&self, p: &str) -> (r: bool)
        ensures
            r == is_directory(self@, p@),
    {
        let ghost all = self@;
        if let Some(i) = self.find(p) {
            assert(all[i as int].1 == self.files@[i as int].kind@);
            if let Stored::Directory = &self.files[i].kind {
                return true;
            }
        }
        let mut i: usize = 0;
        while i < self.files.len()
            invariant
                i <= self.files@.len(),
                all == self@,
                forall|j: int| 0 <= j < i ==> !is_below(p@, (#[trigger] all[j]).0),
            decreases self.files@.len() - i,
        {
            let own: &str = self.files[i].path.as_str();
            assert(all[i as int].0 == own@);
            if lies_inside(p, own) && !lies_inside(own, p) {
                return true;
            }
            i = i + 1;
        }
        false
    }

    /// Tells whether there is a file or a directory at a path.
    pub fn is_present(&self, p: &str) -> (r: bool)
        ensures
            r == exists_at(self@, p@),
    {
        self.holds_file(p) || self.holds_directory(p)
    }

    /// Tells whether a path leads through a file.
    fn leads_through_file(&self, p: &str) -> (r: bool)
        ensures
            r == is_under_file(self@, p@),
    {
        let ghost all = self@;
        let mut i: usize = 0;
        while i < self.files.len()
            invariant
                i <= self.files@.len(),
                all == self@,
                forall|j: int|
                    0 <= j < i ==> !(is_file_entry((#[trigger] all[j]).1) && is_below(
                        all[j].0,
                        p@,
                    )),
            decreases self.files@.len() - i,
        {
            let own: &str = self.files[i].path.as_str();
            assert(all[i as int] == (own@, self.files@[i as int].kind@));
            let file: bool = match &self.files[i].kind {
                Stored::Text(_) => true,
                Stored::Unreadable(_) => true,
                _ => false,
            };
            if file && lies_inside(own, p) && !lies_inside(p, own) {
                return true;
            }
            i = i + 1;
        }
        false
    }

    /// Puts something else at a path.
    fn set(&mut self, p: &str, kind: Stored)
        ensures
            final(self)@ == with(old(self)@, p@, kind@),
            final(self).workspace == old(self).workspace,
    {
        let ghost before = self@;
        let ghost e = kind@;
        let one: StoredFile = StoredFile { path: p.to_owned(), kind };
        match self.find(p) {
            Some(i) => {
                self.files.set(i, one);
                assert(self@ =~= before.update(i as int, (p@, e)));
            },
            None => {
                self.files.push(one);
                assert(self@ =~= before.push((p@, e)));
            },
        }
    }

    /// Writes a file. Where that fails, nothing is changed.
    pub fn write(&mut self, p: &str, c: &str) -> (r: Result<(), ToolError>)
        ensures
            final(self).workspace == old(self).workspace,
            old(self).wf() ==> final(self).wf(),
            match written(old(self)@, p@, c@) {
                Ok(after) => final(self)@ == after && r is Ok,
                Err(e) => *final(self) == *old(self) && (r matches Err(f) && f@ == e),
            },
    {
        proof {
            lemma_with(self@, p@, Entry::Text(c@), p@);
            lemma_with_keeps_the_tree(self@, p@, Entry::Text(c@));
        }
        if self.leads_through_file(p) {
            let directory: String = match parent_of(p) {
                Some(d) => d,
                None => String::new(),
            };
            assert(directory@ =~= directory_of(p@));
            return Err(
                ToolError::Io(
                    cat3("could not create ", directory.as_str(), ": a file is in the way"),
                ),
            );
        }
        if self.holds_directory(p) {
            return Err(ToolError::Io(cat3("could not replace ", p, ": it is a directory")));
        }
        self.set(p, Stored::Text(c.to_owned()));
        Ok(())
    }

    /// Removes a file, where there is one. Where that fails, nothing is changed.
    pub fn remove(&mut self, p: &str) -> (r: Result<(), ToolError>)
        ensures
            final(self).workspace == old(self).workspace,
            old(self).wf() ==> final(self).wf(),
            match erased(old(self)@, p@) {
                Ok(after) => final(self)@ == after && r is Ok,
                Err(e) => *final(self) == *old(self) && (r matches Err(f) && f@ == e),
            },
    {
        proof {
            lemma_with(self@, p@, Entry::Gone, p@);
            lemma_with_keeps_the_tree(self@, p@, Entry::Gone);
        }
        if self.holds_directory(p) {
            return Err(ToolError::Io(cat3("could not remove ", p, ": it is a directory")));
        }
        if self.holds_file(p) {
            self.set(p, Stored::Gone);
        }
        Ok(())
    }
}

proof fn lemma_row(files: Contents, p: Seq<char>, from: int)
    requires
        0 <= from,
    ensures
        row(files, p, from) >= -1,
        row(files, p, from) >= 0 ==> from <= row(files, p, from) < files.len() && files[row(
            files,
            p,
            from,
        )].0 == p,
        row(files, p, from) == -1 ==> forall|i: int|
            from <= i < files.len() ==> (#[trigger] files[i]).0 != p,
        row(files, p, from) >= 0 ==> forall|i: int|
            from <= i < row(files, p, from) ==> (#[trigger] files[i]).0 != p,
    decreases files.len() - from,
{
    if from < files.len() && files[from].0 != p {
        lemma_row(files, p, from + 1);
    }
}

proof fn lemma_row_is(files: Contents, p: Seq<char>, from: int, k: int)
    requires
        0 <= from <= k < files.len(),
        files[k].0 == p,
        forall|i: int| from <= i < k ==> (#[trigger] files[i]).0 != p,
    ensures
        row(files, p, from) == k,
    decreases k - from,
{
    if from < k {
        lemma_row_is(files, p, from + 1, k);
    }
}

proof fn lemma_row_is_absent(files: Contents, p: Seq<char>, from: int)
    requires
        0 <= from,
        forall|i: int| from <= i < files.len() ==> (#[trigger] files[i]).0 != p,
    ensures
        row(files, p, from) == -1,
    decreases files.len() - from,
{
    if from < files.len() {
        lemma_row_is_absent(files, p, from + 1);
    }
}

/// Putting something at a path changes that path alone, and keeps the paths apart.
pub proof fn lemma_with(files: Contents, p: Seq<char>, e: Entry, other: Seq<char>)
    ensures
        at(with(files, p, e), p) == Some(e),
        other != p ==> at(with(files, p, e), other) == at(files, other),
        is_unique(files) ==> is_unique(with(files, p, e)),
{
    lemma_row(files, p, 0);
    let k = row(files, p, 0);
    let after = with(files, p, e);
    let place = if k >= 0 {
        k
    } else {
        files.len() as int
    };
    lemma_row_is(after, p, 0, place);
    if is_unique(files) {
        assert forall|i: int, j: int| 0 <= i < j < after.len() implies (#[trigger] after[i]).0
            != (#[trigger] after[j]).0 by {
            if k >= 0 {
                assert(after[i].0 == files[i].0);
                assert(after[j].0 == files[j].0);
            } else if j < files.len() {
                assert(after[i] == files[i] && after[j] == files[j]);
            } else {
                assert(after[i] == files[i]);
            }
        }
    }
    if other != p {
        lemma_row(files, other, 0);
        let m = row(files, other, 0);
        if m >= 0 {
            assert(after[m] == files[m]);
            assert forall|i: int| 0 <= i < m implies (#[trigger] after[i]).0 != other by {
                if i != k {
                    assert(after[i] == files[i]);
                }
            }
            lemma_row_is(after, other, 0, m);
        } else {
            assert forall|i: int| 0 <= i < after.len() implies (#[trigger] after[i]).0 != other by {
                if i < files.len() && i != k {
                    assert(after[i] == files[i]);
                }
            }
            lemma_row_is_absent(after, other, 0);
        }
    }
}

/// Putting something at a path keeps files without anything below them.
proof fn lemma_with_keeps_the_tree(files: Contents, p: Seq<char>, e: Entry)
    ensures
        is_tree(files) && !is_under_file(files, p) && (is_file_entry(e) ==> !has_below(files, p))
            ==> is_tree(with(files, p, e)),
        is_tree(files) && is_file(files, p) ==> !is_under_file(files, p) && !has_below(files, p),
{
    lemma_row(files, p, 0);
    let k = row(files, p, 0);
    let after = with(files, p, e);
    if is_tree(files) && !is_under_file(files, p) && (is_file_entry(e) ==> !has_below(files, p)) {
        assert forall|i: int, j: int|
            0 <= i < after.len() && 0 <= j < after.len() && is_file_entry((#[trigger] after[i]).1)
            implies !is_below(after[i].0, (#[trigger] after[j]).0) by {
            if i < files.len() && i != k {
                assert(after[i] == files[i]);
            }
            if j < files.len() && j != k {
                assert(after[j] == files[j]);
            }
        }
    }
    if is_tree(files) && is_file(files, p) {
        assert forall|j: int| 0 <= j < files.len() implies !is_below(
            p,
            (#[trigger] files[j]).0,
        ) by {
            assert(!is_below(files[k].0, files[j].0));
        }
        assert forall|i: int| 0 <= i < files.len() && is_file_entry((#[trigger] files[i]).1)
            implies !is_below(files[i].0, p) by {
            assert(!is_below(files[i].0, files[k].0));
        }
    }
}

/// No file leads through another, and nothing is below it.
pub proof fn lemma_file_stands_free(files: Contents, p: Seq<char>)
    requires
        is_tree(files),
        is_file(files, p),
    ensures
        !is_under_file(files, p),
        !is_directory(files, p),
{
    lemma_with_keeps_the_tree(files, p, Entry::Gone);
}

/// Whether neither of two paths lies below the other.
pub open spec fn are_beside(a: Seq<char>, b: Seq<char>) -> bool {
    !is_below(a, b) && !is_below(b, a)
}

/// Putting something at a path makes no directory beside it, and puts no file above.
pub proof fn lemma_with_beside(files: Contents, p: Seq<char>, e: Entry, q: Seq<char>)
    requires
        are_beside(p, q),
    ensures
        has_below(with(files, p, e), q) == has_below(files, q),
        is_under_file(with(files, p, e), q) == is_under_file(files, q),
{
    lemma_row(files, p, 0);
    let k = row(files, p, 0);
    let after = with(files, p, e);
    if has_below(files, q) {
        let i = choose|i: int| 0 <= i < files.len() && is_below(q, (#[trigger] files[i]).0);
        assert(after[i] == files[i]);
    }
    if has_below(after, q) {
        let i = choose|i: int| 0 <= i < after.len() && is_below(q, (#[trigger] after[i]).0);
        assert(after[i] == files[i]);
    }
    if is_under_file(files, q) {
        let i = choose|i: int|
            0 <= i < files.len() && is_file_entry((#[trigger] files[i]).1) && is_below(
                files[i].0,
                q,
            );
        assert(after[i] == files[i]);
    }
    if is_under_file(after, q) {
        let i = choose|i: int|
            0 <= i < after.len() && is_file_entry((#[trigger] after[i]).1) && is_below(
                after[i].0,
                q,
            );
        assert(after[i] == files[i]);
    }
}

/// Writing and removing files keeps the paths apart, and files without anything below them.
pub proof fn law_files_stay_a_tree(files: Contents, p: Seq<char>, c: Seq<char>)
    requires
        is_unique(files),
        is_tree(files),
    ensures
        written(files, p, c) matches Ok(after) ==> is_unique(after) && is_tree(after),
        erased(files, p) matches Ok(after) ==> is_unique(after) && is_tree(after),
{
    lemma_with(files, p, Entry::Text(c), p);
    lemma_with_keeps_the_tree(files, p, Entry::Text(c));
    lemma_with(files, p, Entry::Gone, p);
    lemma_with_keeps_the_tree(files, p, Entry::Gone);
}

/// Reading a file gives back what was last written to it, and writing a file changes no other.
pub proof fn law_reading_gives_back_what_was_written(
    files: Contents,
    p: Seq<char>,
    c: Seq<char>,
    other: Seq<char>,
)
    ensures
        written(files, p, c) matches Ok(after) ==> {
            &&& content(after, p) == Some(c)
            &&& other != p ==> at(after, other) == at(files, other)
        },
{
    lemma_with(files, p, Entry::Text(c), other);
}

/// A removed file is gone, and removing a file changes no other.
pub proof fn law_a_removed_file_is_gone(files: Contents, p: Seq<char>, other: Seq<char>)
    ensures
        erased(files, p) matches Ok(after) ==> {
            &&& !exists_at(after, p)
            &&& other != p ==> at(after, other) == at(files, other)
        },
{
    lemma_with(files, p, Entry::Gone, other);
    if is_file(files, p) && !is_directory(files, p) {
        path::law_inside_is_a_preorder(p, p, p);
        lemma_with_beside(files, p, Entry::Gone, p);
    }
}

/// The directory of a file outlives it.
pub proof fn law_a_directory_outlives_its_file(files: Contents, p: Seq<char>, directory: Seq<char>)
    requires
        is_file(files, p),
        is_below(directory, p),
    ensures
        erased(files, p) matches Ok(after) ==> is_directory(after, directory),
{
    lemma_row(files, p, 0);
    let after = with(files, p, Entry::Gone);
    assert(after[row(files, p, 0)].0 == p);
}

/// Where a file is, nothing can be written below it, and its directory is neither overwritten nor
/// removed. What has nothing in its way is written, and where nothing is, removing does nothing.
pub proof fn law_a_file_is_not_in_two_places(
    files: Contents,
    i: int,
    directory: Seq<char>,
    name: Seq<char>,
    below: Seq<char>,
    c: Seq<char>,
)
    requires
        directory.len() > 0,
        path::is_plain_name(name),
        path::is_plain_name(below),
    ensures
        ({
            let file = directory + seq!['/'] + name;
            let deeper = file + seq!['/'] + below;
            let there = 0 <= i < files.len() && files[i].0 == file;
            &&& there && is_file_entry(files[i].1) ==> written(files, deeper, c) is Err
            &&& there ==> written(files, directory, c) is Err && erased(files, directory) is Err
            &&& files.len() == 0 ==> written(files, file, c) == Ok::<Contents, Failure>(
                seq![(file, Entry::Text(c))],
            )
            &&& files.len() == 0 ==> erased(files, file) == Ok::<Contents, Failure>(files)
        }),
{
    let file = directory + seq!['/'] + name;
    let deeper = file + seq!['/'] + below;
    path::law_names_in_a_directory_lie_inside_it(directory, name, name);
    path::law_names_in_a_directory_lie_inside_it(file, below, below);
    assert(is_below(directory, file));
    assert(is_below(file, deeper));
    if files.len() == 0 {
        assert(files.push((file, Entry::Text(c))) =~= seq![(file, Entry::Text(c))]);
    }
}

} // verus!
