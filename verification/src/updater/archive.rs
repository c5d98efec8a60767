//! What is taken out of a release archive.

use std::io::Read;

use vstd::prelude::*;

use crate::text;
use crate::text_laws;
use crate::text::{cat2, chars_of, same_text, split};
use crate::tools::path;
use crate::tools::path::{components_of, join_path, same_path, starts_at_root};
use crate::updater::{Fault, UpdateError};

verus! {

/// What `zip` says of an archive: how many entries it has, or why it cannot be read.
pub uninterp spec fn zip_count(bytes: Seq<u8>) -> Result<usize, Seq<char>>;

/// Counts the entries of an archive with `zip::ZipArchive::new` and `len`. The contract claims no
/// more than that the result is a function of the bytes.
#[verifier::external_body]
fn count_zip(bytes: &Vec<u8>) -> (r: Result<usize, String>)
    ensures
        match r {
            Ok(n) => zip_count(bytes@) == Ok::<usize, Seq<char>>(n),
            Err(e) => zip_count(bytes@) == Err::<usize, Seq<char>>(e@),
        },
{
    match zip::ZipArchive::new(std::io::Cursor::new(bytes)) {
        Ok(archive) => Ok(archive.len()),
        Err(error) => Err(error.to_string()),
    }
}

/// An entry of a zip archive.
#[derive(Debug, PartialEq, Eq)]
pub struct ZipEntry {
    /// The name as the archive gives it.
    pub name: String,
    /// Whether the entry is a directory.
    pub is_dir: bool,
    /// The path that stays inside the directory of extraction, where the name leads to one.
    pub enclosed: Option<String>,
}

/// What `zip` says of an entry: its name, whether it is a directory and its enclosed path, or why it
/// cannot be read.
pub uninterp spec fn zip_entry(bytes: Seq<u8>, index: int) -> Result<
    (Seq<char>, bool, Option<Seq<char>>),
    Seq<char>,
>;

/// Reads an entry of an archive with `zip::ZipArchive::by_index`, and its `name`, `is_dir` and
/// `enclosed_name`. The contract claims no more than that they are functions of the bytes and the
/// index.
#[verifier::external_body]
fn read_zip_entry(bytes: &Vec<u8>, index: usize) -> (r: Result<ZipEntry, String>)
    ensures
        match r {
            Ok(e) => zip_entry(bytes@, index as int) == Ok::<
                (Seq<char>, bool, Option<Seq<char>>),
                Seq<char>,
            >((e.name@, e.is_dir, text::opt_text(e.enclosed))),
            Err(e) => zip_entry(bytes@, index as int) == Err::<
                (Seq<char>, bool, Option<Seq<char>>),
                Seq<char>,
            >(e@),
        },
{
    let mut archive = zip::ZipArchive::new(std::io::Cursor::new(bytes)).map_err(|e| e.to_string())?;
    let entry = archive.by_index(index).map_err(|e| e.to_string())?;
    Ok(ZipEntry {
        name: entry.name().to_string(),
        is_dir: entry.is_dir(),
        enclosed: entry.enclosed_name().map(|p| p.to_string_lossy().into_owned()),
    })
}

/// What an entry of a zip archive holds, or why it cannot be read.
pub uninterp spec fn zip_content(bytes: Seq<u8>, index: int) -> Result<Seq<u8>, Seq<char>>;

/// Reads what an entry of an archive holds, with `Read` of `zip::read::ZipFile`. The contract claims
/// no more than that it is a function of the bytes and the index.
#[verifier::external_body]
fn read_zip_content(bytes: &Vec<u8>, index: usize) -> (r: Result<Vec<u8>, String>)
    ensures
        match r {
            Ok(v) => zip_content(bytes@, index as int) == Ok::<Seq<u8>, Seq<char>>(v@),
            Err(e) => zip_content(bytes@, index as int) == Err::<Seq<u8>, Seq<char>>(e@),
        },
{
    let mut archive = zip::ZipArchive::new(std::io::Cursor::new(bytes)).map_err(|e| e.to_string())?;
    let mut entry = archive.by_index(index).map_err(|e| e.to_string())?;
    let mut content = Vec::new();
    match entry.read_to_end(&mut content) {
        Ok(_) => Ok(content),
        Err(error) => Err(error.to_string()),
    }
}

/// What to do with an entry of an archive.
#[derive(Clone, Copy, Debug, PartialEq, Eq, Structural)]
pub enum EntryUse {
    /// It is passed over.
    Skip,
    /// It is the application.
    App,
    /// It is the updater.
    Updater,
    /// It must not be there.
    Unsafe,
}

/// What to do with an entry of a Windows archive: every file lies at the root, and only the two
/// executables are taken.
pub open spec fn zip_use(name: Seq<char>, is_dir: bool, enclosed: Option<Seq<char>>) -> EntryUse {
    if is_dir {
        EntryUse::Skip
    } else if enclosed is None || !path::is_same(enclosed->0, name) || name.contains('/')
        || name.contains('\\') {
        EntryUse::Unsafe
    } else if name == "gocode.exe"@ {
        EntryUse::App
    } else if name == "gocode-updater.exe"@ {
        EntryUse::Updater
    } else {
        EntryUse::Skip
    }
}

/// Tells whether a character stands in a text.
fn holds(s: &str, c: char) -> (r: bool)
    ensures
        r == s@.contains(c),
{
    let v: Vec<char> = chars_of(s);
    let mut i: usize = 0;
    while i < v.len()
        invariant
            i <= v@.len(),
            v@ == s@,
            forall|j: int| 0 <= j < i ==> v@[j] != c,
        decreases v@.len() - i,
    {
        if v[i] == c {
            assert(s@[i as int] == c);
            return true;
        }
        i = i + 1;
    }
    false
}

/// Says what to do with an entry of a Windows archive.
pub fn judge_zip_entry(e: &ZipEntry) -> (r: EntryUse)
    ensures
        r == zip_use(e.name@, e.is_dir, text::opt_text(e.enclosed)),
{
    if e.is_dir {
        return EntryUse::Skip;
    }
    let inside: bool = match &e.enclosed {
        Some(p) => same_path(p.as_str(), e.name.as_str()),
        None => false,
    };
    if !inside || holds(e.name.as_str(), '/') || holds(e.name.as_str(), '\\') {
        EntryUse::Unsafe
    } else if same_text(e.name.as_str(), "gocode.exe") {
        EntryUse::App
    } else if same_text(e.name.as_str(), "gocode-updater.exe") {
        EntryUse::Updater
    } else {
        EntryUse::Skip
    }
}

/// A file that is put into the staging directory.
#[derive(Debug, PartialEq, Eq)]
pub struct StagedFile {
    pub path: String,
    pub content: Vec<u8>,
}

/// Staged files over plain values.
pub open spec fn staged(v: Seq<StagedFile>) -> Seq<(Seq<char>, Seq<u8>)> {
    Seq::new(v.len(), |i: int| (v[i].path@, v[i].content@))
}

/// Going through an archive: the files so far, where the executables are, and what stopped it.
pub struct Unpacking {
    pub files: Seq<(Seq<char>, Seq<u8>)>,
    pub app: Option<Seq<char>>,
    pub updater: Option<Seq<char>>,
    pub failure: Option<Fault>,
}

/// The first `n` entries of a Windows archive.
pub open spec fn unzipped(bytes: Seq<u8>, staging: Seq<char>, n: int) -> Unpacking
    decreases n,
{
    if n <= 0 {
        Unpacking { files: Seq::empty(), app: None, updater: None, failure: None }
    } else {
        let u = unzipped(bytes, staging, n - 1);
        if u.failure is Some {
            u
        } else {
            match zip_entry(bytes, n - 1) {
                Err(e) => Unpacking { failure: Some(Fault::UnsafeArchive(e)), ..u },
                Ok((name, is_dir, enclosed)) => {
                    let use_of = zip_use(name, is_dir, enclosed);
                    let to = path::joined(staging, name);
                    if use_of == EntryUse::Skip {
                        u
                    } else if use_of == EntryUse::Unsafe {
                        Unpacking {
                            failure: Some(
                                Fault::UnsafeArchive("unexpected archive entry: "@ + name),
                            ),
                            ..u
                        }
                    } else {
                        match zip_content(bytes, n - 1) {
                            Err(e) => Unpacking { failure: Some(Fault::Io(e)), ..u },
                            Ok(content) => if use_of == EntryUse::App {
                                Unpacking { files: u.files.push((to, content)), app: Some(to), ..u }
                            } else {
                                Unpacking {
                                    files: u.files.push((to, content)),
                                    updater: Some(to),
                                    ..u
                                }
                            },
                        }
                    }
                },
            }
        }
    }
}

proof fn lemma_unzip_stops(bytes: Seq<u8>, staging: Seq<char>, i: int, n: int)
    requires
        0 <= i <= n,
        unzipped(bytes, staging, i).failure is Some,
    ensures
        unzipped(bytes, staging, n) == unzipped(bytes, staging, i),
    decreases n - i,
{
    if i < n {
        lemma_unzip_stops(bytes, staging, i, n - 1);
    }
}

/// What comes of a Windows archive.
pub open spec fn windows_outcome(bytes: Seq<u8>, staging: Seq<char>) -> (
    Seq<(Seq<char>, Seq<u8>)>,
    Result<(Seq<char>, Seq<char>), Fault>,
) {
    match zip_count(bytes) {
        Err(e) => (Seq::empty(), Err(Fault::UnsafeArchive(e))),
        Ok(n) => {
            let u = unzipped(bytes, staging, n as int);
            let result = match u.failure {
                Some(e) => Err(e),
                None => if u.app is Some && u.updater is Some {
                    Ok((u.app->0, u.updater->0))
                } else {
                    Err(
                        Fault::UnsafeArchive(
                            "archive must contain gocode.exe and gocode-updater.exe"@,
                        ),
                    )
                },
            };
            (u.files, result)
        },
    }
}

/// Takes the application and the updater out of a Windows archive. The files are to be written in
/// the order given, also where the archive turns out to be unsafe further on.
pub fn extract_windows_archive(
    bytes: &Vec<u8>,
    staging: &str,
    files: &mut Vec<StagedFile>,
) -> (r: Result<(String, String), UpdateError>)
    ensures
        staged(final(files)@) == staged(old(files)@) + windows_outcome(bytes@, staging@).0,
        match windows_outcome(bytes@, staging@).1 {
            Ok((app, updater)) => r matches Ok((a, u)) && a@ == app && u@ == updater,
            Err(e) => r matches Err(f) && f@ == e,
        },
{
    let ghost before = staged(files@);
    assert(before + Seq::<(Seq<char>, Seq<u8>)>::empty() =~= before);
    let count: usize = match count_zip(bytes) {
        Ok(n) => n,
        Err(e) => {
            return Err(UpdateError::UnsafeArchive(e));
        },
    };
    let mut app: Option<String> = None;
    let mut updater: Option<String> = None;
    let mut i: usize = 0;
    while i < count
        invariant
            i <= count,
            zip_count(bytes@) == Ok::<usize, Seq<char>>(count),
            before == staged(old(files)@),
            ({
                let u = unzipped(bytes@, staging@, i as int);
                &&& u.failure is None
                &&& staged(files@) == before + u.files
                &&& u.app == text::opt_text(app)
                &&& u.updater == text::opt_text(updater)
            }),
        decreases count - i,
    {
        let ghost u = unzipped(bytes@, staging@, i as int);
        let entry: ZipEntry = match read_zip_entry(bytes, i) {
            Ok(e) => e,
            Err(e) => {
                proof {
                    lemma_unzip_stops(bytes@, staging@, i + 1, count as int);
                }
                return Err(UpdateError::UnsafeArchive(e));
            },
        };
        let use_of: EntryUse = judge_zip_entry(&entry);
        if use_of == EntryUse::Unsafe {
            proof {
                lemma_unzip_stops(bytes@, staging@, i + 1, count as int);
            }
            return Err(
                UpdateError::UnsafeArchive(cat2("unexpected archive entry: ", entry.name.as_str())),
            );
        }
        if use_of != EntryUse::Skip {
            let content: Vec<u8> = match read_zip_content(bytes, i) {
                Ok(c) => c,
                Err(e) => {
                    proof {
                        lemma_unzip_stops(bytes@, staging@, i + 1, count as int);
                    }
                    return Err(UpdateError::Io(e));
                },
            };
            let to: String = join_path(staging, entry.name.as_str());
            let ghost own = (to@, content@);
            let ghost so_far = staged(files@);
            if use_of == EntryUse::App {
                app = Some(to.clone());
            } else {
                updater = Some(to.clone());
            }
            files.push(StagedFile { path: to, content });
            assert(staged(files@) =~= so_far.push(own));
            assert(so_far.push(own) =~= before + u.files.push(own));
        }
        i = i + 1;
    }
    match (app, updater) {
        (Some(a), Some(u)) => Ok((a, u)),
        _ => Err(
            UpdateError::UnsafeArchive(
                "archive must contain gocode.exe and gocode-updater.exe".to_owned(),
            ),
        ),
    }
}

proof fn lemma_unzipped_paths(bytes: Seq<u8>, staging: Seq<char>, n: int)
    ensures
        forall|i: int|
            0 <= i < unzipped(bytes, staging, n).files.len() ==> is_executable(
                staging,
                (#[trigger] unzipped(bytes, staging, n).files[i]).0,
            ),
    decreases n,
{
    if n > 0 {
        lemma_unzipped_paths(bytes, staging, n - 1);
        let u = unzipped(bytes, staging, n - 1);
        let v = unzipped(bytes, staging, n);
        assert forall|i: int| 0 <= i < v.files.len() implies is_executable(
            staging,
            (#[trigger] v.files[i]).0,
        ) by {
            if i < u.files.len() {
                assert(v.files[i] == u.files[i]);
            }
        }
    }
}

/// Whether a path is that of one of the two executables in the staging directory.
pub open spec fn is_executable(staging: Seq<char>, p: Seq<char>) -> bool {
    p == path::joined(staging, "gocode.exe"@) || p == path::joined(staging, "gocode-updater.exe"@)
}

/// Whatever a Windows archive holds, nothing but the two executables is written, each to its own
/// place in the staging directory.
pub proof fn law_only_executables_are_staged(bytes: Seq<u8>, staging: Seq<char>, i: int)
    requires
        0 <= i < windows_outcome(bytes, staging).0.len(),
    ensures
        is_executable(staging, windows_outcome(bytes, staging).0[i].0),
{
    if let Ok(n) = zip_count(bytes) {
        lemma_unzipped_paths(bytes, staging, n as int);
    }
}

/// An entry of a tar archive.
#[derive(Debug, PartialEq, Eq)]
pub struct TarEntry {
    /// Whether the entry is a directory.
    pub is_dir: bool,
    /// Its path, or why it has none.
    pub path: Result<String, String>,
}

/// How many entries `tar` meets in a compressed archive, one that cannot be read included, or why
/// the archive cannot be read at all.
pub uninterp spec fn tar_count(bytes: Seq<u8>) -> Result<usize, Seq<char>>;

/// Counts the entries of a compressed archive with `tar::Archive::entries` on a
/// `flate2::read::GzDecoder`. The contract claims no more than that the result is a function of the
/// bytes.
#[verifier::external_body]
fn count_tar(bytes: &Vec<u8>) -> (r: Result<usize, String>)
    ensures
        match r {
            Ok(n) => tar_count(bytes@) == Ok::<usize, Seq<char>>(n),
            Err(e) => tar_count(bytes@) == Err::<usize, Seq<char>>(e@),
        },
{
    let mut archive = tar::Archive::new(flate2::read::GzDecoder::new(bytes.as_slice()));
    match archive.entries() {
        Ok(entries) => Ok(entries.count()),
        Err(error) => Err(error.to_string()),
    }
}

/// What `tar` says of an entry: whether it is a directory and its path, or why it cannot be read.
pub uninterp spec fn tar_entry(bytes: Seq<u8>, index: int) -> Result<
    (bool, Result<Seq<char>, Seq<char>>),
    Seq<char>,
>;

/// A tar entry over plain values.
pub open spec fn tar_view(e: TarEntry) -> (bool, Result<Seq<char>, Seq<char>>) {
    (
        e.is_dir,
        match e.path {
            Ok(p) => Ok(p@),
            Err(why) => Err(why@),
        },
    )
}

/// Reads an entry of a compressed archive with `tar::Archive::entries` on a
/// `flate2::read::GzDecoder`: the type in its header, and its `path`. The contract claims no more
/// than that they are functions of the bytes and the index.
#[verifier::external_body]
fn read_tar_entry(bytes: &Vec<u8>, index: usize) -> (r: Result<TarEntry, String>)
    ensures
        match r {
            Ok(e) => tar_entry(bytes@, index as int) == Ok::<
                (bool, Result<Seq<char>, Seq<char>>),
                Seq<char>,
            >(tar_view(e)),
            Err(e) => tar_entry(bytes@, index as int) == Err::<
                (bool, Result<Seq<char>, Seq<char>>),
                Seq<char>,
            >(e@),
        },
{
    let mut archive = tar::Archive::new(flate2::read::GzDecoder::new(bytes.as_slice()));
    let mut entries = archive.entries().map_err(|e| e.to_string())?;
    let entry = entries.nth(index).ok_or_else(String::new)?.map_err(|e| e.to_string())?;
    let is_dir = entry.header().entry_type().is_dir();
    let path = entry.path().map(|p| p.display().to_string()).map_err(|e| e.to_string());
    Ok(TarEntry { is_dir, path })
}

/// Whether a path lies directly under one directory: it has two names and nothing else.
pub open spec fn is_one_deep(p: Seq<char>) -> bool {
    let list = path::components(p);
    &&& !path::is_absolute(p)
    &&& text::split_on(p, '/')[0] != "."@
    &&& list.len() == 2
    &&& list[0] != ".."@
    &&& list[1] != ".."@
}

/// What to do with a file of a Linux archive: every file lies directly under the one top-level
/// directory, which the first file names, and only the executable is taken.
pub open spec fn tar_use(p: Seq<char>, top: Option<Seq<char>>) -> EntryUse {
    if !is_one_deep(p) || (top matches Some(t) && t != path::components(p)[0]) {
        EntryUse::Unsafe
    } else if path::components(p)[1] == "gocode"@ {
        EntryUse::App
    } else {
        EntryUse::Skip
    }
}

/// Says what to do with a file of a Linux archive, given the top-level directory of the files before
/// it, and names its own where it is not refused.
pub fn judge_tar_path(p: &str, top: &Option<String>) -> (r: (EntryUse, Option<String>))
    ensures
        r.0 == tar_use(p@, text::opt_text(*top)),
        text::opt_text(r.1) == (if r.0 == EntryUse::Unsafe {
            None
        } else {
            Some(path::components(p@)[0])
        }),
{
    let list: Vec<String> = components_of(p);
    let parts: Vec<String> = split(p, '/');
    let ghost names = path::components(p@);
    assert(names.len() == list@.len());
    assert(text::texts(parts@)[0] == parts@[0]@);
    if starts_at_root(p) || same_text(parts[0].as_str(), ".") || list.len() != 2 {
        return (EntryUse::Unsafe, None);
    }
    assert(names[0] == list@[0]@ && names[1] == list@[1]@);
    if same_text(list[0].as_str(), "..") || same_text(list[1].as_str(), "..") {
        return (EntryUse::Unsafe, None);
    }
    match top {
        Some(t) => {
            if !same_text(t.as_str(), list[0].as_str()) {
                return (EntryUse::Unsafe, None);
            }
        },
        None => {},
    }
    let own: Option<String> = Some(list[0].clone());
    if same_text(list[1].as_str(), "gocode") {
        (EntryUse::App, own)
    } else {
        (EntryUse::Skip, own)
    }
}

/// Going through a Linux archive: the top-level directory of its files so far, the entries that are
/// unpacked, and what stopped it.
pub struct Untarring {
    pub top: Option<Seq<char>>,
    pub unpack: Seq<usize>,
    pub failure: Option<Fault>,
}

/// The first `n` entries of a Linux archive.
pub open spec fn untarred(bytes: Seq<u8>, n: int) -> Untarring
    decreases n,
{
    if n <= 0 {
        Untarring { top: None, unpack: Seq::empty(), failure: None }
    } else {
        let u = untarred(bytes, n - 1);
        if u.failure is Some {
            u
        } else {
            match tar_entry(bytes, n - 1) {
                Err(e) => Untarring { failure: Some(Fault::UnsafeArchive(e)), ..u },
                Ok((is_dir, p)) => if is_dir {
                    u
                } else {
                    match p {
                        Err(e) => Untarring { failure: Some(Fault::UnsafeArchive(e)), ..u },
                        Ok(name) => match tar_use(name, u.top) {
                            EntryUse::Unsafe => Untarring {
                                failure: Some(
                                    Fault::UnsafeArchive("unexpected archive entry: "@ + name),
                                ),
                                ..u
                            },
                            EntryUse::App => Untarring {
                                top: Some(path::components(name)[0]),
                                unpack: u.unpack.push((n - 1) as usize),
                                ..u
                            },
                            _ => Untarring { top: Some(path::components(name)[0]), ..u },
                        },
                    }
                },
            }
        }
    }
}

proof fn lemma_untar_stops(bytes: Seq<u8>, i: int, n: int)
    requires
        0 <= i <= n,
        untarred(bytes, i).failure is Some,
    ensures
        untarred(bytes, n) == untarred(bytes, i),
    decreases n - i,
{
    if i < n {
        lemma_untar_stops(bytes, i, n - 1);
    }
}

/// What comes of a Linux archive.
pub open spec fn linux_outcome(bytes: Seq<u8>, staging: Seq<char>) -> (
    Seq<usize>,
    Result<Seq<char>, Fault>,
) {
    match tar_count(bytes) {
        Err(e) => (Seq::empty(), Err(Fault::UnsafeArchive(e))),
        Ok(n) => {
            let u = untarred(bytes, n as int);
            let result = match u.failure {
                Some(e) => Err(e),
                None => if u.unpack.len() > 0 {
                    Ok(path::joined(staging, "gocode"@))
                } else {
                    Err(Fault::UnsafeArchive("archive must contain a gocode executable"@))
                },
            };
            (u.unpack, result)
        },
    }
}

/// Finds the executable in a Linux archive, and gives where it goes. The entries are to be unpacked
/// there in the order given, also where the archive turns out to be unsafe further on.
pub fn extract_linux_archive(bytes: &Vec<u8>, staging: &str, unpack: &mut Vec<usize>) -> (r: Result<
    String,
    UpdateError,
>)
    ensures
        final(unpack)@ == old(unpack)@ + linux_outcome(bytes@, staging@).0,
        match linux_outcome(bytes@, staging@).1 {
            Ok(app) => r matches Ok(a) && a@ == app,
            Err(e) => r matches Err(f) && f@ == e,
        },
{
    let ghost before = unpack@;
    assert(before + Seq::<usize>::empty() =~= before);
    let count: usize = match count_tar(bytes) {
        Ok(n) => n,
        Err(e) => {
            return Err(UpdateError::UnsafeArchive(e));
        },
    };
    let mut found: bool = false;
    let mut top: Option<String> = None;
    let mut i: usize = 0;
    while i < count
        invariant
            i <= count,
            tar_count(bytes@) == Ok::<usize, Seq<char>>(count),
            before == old(unpack)@,
            ({
                let u = untarred(bytes@, i as int);
                &&& u.failure is None
                &&& unpack@ == before + u.unpack
                &&& found == (u.unpack.len() > 0)
                &&& text::opt_text(top) == u.top
            }),
        decreases count - i,
    {
        let ghost u = untarred(bytes@, i as int);
        let entry: TarEntry = match read_tar_entry(bytes, i) {
            Ok(e) => e,
            Err(e) => {
                proof {
                    lemma_untar_stops(bytes@, i + 1, count as int);
                }
                return Err(UpdateError::UnsafeArchive(e));
            },
        };
        if !entry.is_dir {
            let name: String = match entry.path {
                Ok(p) => p,
                Err(e) => {
                    proof {
                        lemma_untar_stops(bytes@, i + 1, count as int);
                    }
                    return Err(UpdateError::UnsafeArchive(e));
                },
            };
            let (use_of, own) = judge_tar_path(name.as_str(), &top);
            if use_of == EntryUse::Unsafe {
                proof {
                    lemma_untar_stops(bytes@, i + 1, count as int);
                }
                return Err(
                    UpdateError::UnsafeArchive(cat2("unexpected archive entry: ", name.as_str())),
                );
            }
            top = own;
            if use_of == EntryUse::App {
                unpack.push(i);
                found = true;
                assert(unpack@ =~= before + u.unpack.push(i));
            }
        }
        i = i + 1;
    }
    if found {
        Ok(join_path(staging, "gocode"))
    } else {
        Err(UpdateError::UnsafeArchive("archive must contain a gocode executable".to_owned()))
    }
}

/// Whether an entry of a Linux archive is a file named like the executable, directly under a
/// directory.
pub open spec fn is_packed_executable(bytes: Seq<u8>, i: int, top: Seq<char>) -> bool {
    tar_entry(bytes, i) matches Ok((is_dir, p)) && !is_dir && (p matches Ok(name) && is_one_deep(name)
        && path::components(name) == seq![top, "gocode"@])
}

/// Whether an entry of a Linux archive may stand in it: a directory, or a file directly under the
/// top-level directory.
pub open spec fn is_expected_entry(bytes: Seq<u8>, i: int, top: Seq<char>) -> bool {
    tar_entry(bytes, i) matches Ok((is_dir, p)) && (is_dir || (p matches Ok(name) && is_one_deep(name)
        && path::components(name)[0] == top))
}

/// Whether the entries of a list are the executable under a directory.
pub open spec fn are_packed_executables(bytes: Seq<u8>, list: Seq<usize>, top: Seq<char>) -> bool {
    forall|k: int|
        0 <= k < list.len() ==> is_packed_executable(bytes, #[trigger] list[k] as int, top)
}

/// Whether the first `n` entries may stand in an archive with a top-level directory.
pub open spec fn are_expected_entries(bytes: Seq<u8>, n: int, top: Seq<char>) -> bool {
    forall|i: int| 0 <= i < n ==> #[trigger] is_expected_entry(bytes, i, top)
}

proof fn lemma_untarred(bytes: Seq<u8>, n: int, top: Seq<char>)
    requires
        0 <= n <= usize::MAX,
        untarred(bytes, n).top matches Some(t) ==> t == top,
    ensures
        untarred(bytes, n).unpack.len() > 0 ==> untarred(bytes, n).top is Some,
        are_packed_executables(bytes, untarred(bytes, n).unpack, top),
        untarred(bytes, n).failure is None ==> are_expected_entries(bytes, n, top),
    decreases n,
{
    if n > 0 {
        let u = untarred(bytes, n - 1);
        let v = untarred(bytes, n);
        assert(u.top is Some ==> v.top == u.top);
        lemma_untarred(bytes, n - 1, top);
        assert forall|k: int| 0 <= k < v.unpack.len() implies is_packed_executable(
            bytes,
            #[trigger] v.unpack[k] as int,
            top,
        ) by {
            if k < u.unpack.len() {
                assert(v.unpack[k] == u.unpack[k]);
            } else {
                let name = tar_entry(bytes, n - 1)->Ok_0.1->Ok_0;
                assert(path::components(name) =~= seq![top, "gocode"@]);
            }
        }
        if v.failure is None {
            assert(is_expected_entry(bytes, n - 1, top));
        }
    }
}

/// Whatever a Linux archive holds, nothing but the executable is unpacked, and every file of an
/// archive that is accepted lies directly under one and the same top-level directory.
pub proof fn law_only_the_executable_is_unpacked(bytes: Seq<u8>, staging: Seq<char>)
    ensures
        exists|top: Seq<char>| #[trigger]
            are_packed_executables(bytes, linux_outcome(bytes, staging).0, top),
        linux_outcome(bytes, staging).1 is Ok ==> {
            &&& linux_outcome(bytes, staging).0.len() > 0
            &&& tar_count(bytes) matches Ok(n)
            &&& exists|top: Seq<char>| #[trigger] are_expected_entries(bytes, n as int, top)
        },
{
    let none = Seq::<char>::empty();
    if let Ok(n) = tar_count(bytes) {
        let top = match untarred(bytes, n as int).top {
            Some(t) => t,
            None => none,
        };
        lemma_untarred(bytes, n as int, top);
        assert(are_packed_executables(bytes, linux_outcome(bytes, staging).0, top));
    } else {
        assert(are_packed_executables(bytes, linux_outcome(bytes, staging).0, none));
    }
}

/// An archive with files under two top-level directories is refused.
pub proof fn law_files_under_two_directories_are_refused(
    bytes: Seq<u8>,
    staging: Seq<char>,
    n: usize,
    i: int,
    j: int,
    a: Seq<char>,
    b: Seq<char>,
)
    requires
        tar_count(bytes) == Ok::<usize, Seq<char>>(n),
        0 <= i < n,
        0 <= j < n,
        tar_entry(bytes, i) == Ok::<(bool, Result<Seq<char>, Seq<char>>), Seq<char>>(
            (false, Ok(a)),
        ),
        tar_entry(bytes, j) == Ok::<(bool, Result<Seq<char>, Seq<char>>), Seq<char>>(
            (false, Ok(b)),
        ),
        path::components(a)[0] != path::components(b)[0],
    ensures
        linux_outcome(bytes, staging).1 matches Err(Fault::UnsafeArchive(_)),
{
    law_only_the_executable_is_unpacked(bytes, staging);
    lemma_untar_faults(bytes, n as int);
    if linux_outcome(bytes, staging).1 is Ok {
        let top = choose|top: Seq<char>| #[trigger] are_expected_entries(bytes, n as int, top);
        assert(is_expected_entry(bytes, i, top));
        assert(is_expected_entry(bytes, j, top));
    }
}

proof fn lemma_untar_faults(bytes: Seq<u8>, n: int)
    ensures
        untarred(bytes, n).failure matches Some(e) ==> e is UnsafeArchive,
    decreases n,
{
    if n > 0 {
        lemma_untar_faults(bytes, n - 1);
    }
}

/// A file at the root of a Windows archive is taken where it has the name of one of the executables,
/// and passed over otherwise. One with a slash or a backslash in its name, or that does not stay in
/// the directory, is refused.
pub proof fn law_a_windows_archive_is_flat(name: Seq<char>, inside: Seq<char>)
    ensures
        text_laws::lacks(name, '/') && text_laws::lacks(name, '\\') ==> zip_use(
            name,
            false,
            Some(name),
        ) == (if name == "gocode.exe"@ {
            EntryUse::App
        } else if name == "gocode-updater.exe"@ {
            EntryUse::Updater
        } else {
            EntryUse::Skip
        }),
        !text_laws::lacks(name, '/') || !text_laws::lacks(name, '\\') ==> zip_use(
            name,
            false,
            Some(name),
        ) == EntryUse::Unsafe,
        path::is_plain_name(inside) && path::is_plain_name(name) && inside != name ==> zip_use(
            name,
            false,
            Some(inside),
        ) == EntryUse::Unsafe,
        zip_use(name, false, None) == EntryUse::Unsafe,
        zip_use(name, true, None) == EntryUse::Skip,
{
    if text_laws::lacks(name, '/') && text_laws::lacks(name, '\\') {
        assert(!name.contains('/') && !name.contains('\\'));
    }
    if !text_laws::lacks(name, '/') {
        assert(name.contains('/'));
    }
    if !text_laws::lacks(name, '\\') {
        assert(name.contains('\\'));
    }
    if path::is_plain_name(inside) && path::is_plain_name(name) && inside != name {
        path::law_a_path_ends_in_its_name(Seq::empty(), name, name, name);
        path::law_a_path_ends_in_its_name(Seq::empty(), inside, inside, inside);
        assert(path::file_name(inside) != path::file_name(name));
    }
}

/// A file of a Linux archive lies right under the one directory: the executable is taken, other
/// files are passed over. One under another directory, deeper or at the root is refused.
pub proof fn law_a_linux_archive_is_one_deep(
    top: Seq<char>,
    other: Seq<char>,
    name: Seq<char>,
    below: Seq<char>,
)
    requires
        path::is_plain_name(top),
        path::is_plain_name(other),
        path::is_plain_name(name),
        path::is_plain_name(below),
        other != top,
    ensures
        ({
            let file = top + seq!['/'] + name;
            let taken = if name == "gocode"@ {
                EntryUse::App
            } else {
                EntryUse::Skip
            };
            &&& tar_use(file, None) == taken
            &&& tar_use(file, Some(top)) == taken
            &&& tar_use(file, Some(other)) == EntryUse::Unsafe
            &&& tar_use(file + seq!['/'] + below, Some(top)) == EntryUse::Unsafe
            &&& tar_use(name, None) == EntryUse::Unsafe
            &&& tar_use(seq!['/'] + file, None) == EntryUse::Unsafe
            &&& tar_use(top + seq!['/', '.', '.'], None) == EntryUse::Unsafe
        }),
{
    reveal_strlit(".");
    reveal_strlit("..");
    assert("."@ =~= seq!['.']);
    assert(".."@ =~= seq!['.', '.']);
    let file = top + seq!['/'] + name;
    let none = Seq::<char>::empty();
    text_laws::lemma_split_lacking(top, '/');
    text_laws::lemma_split_lacking(name, '/');
    text_laws::lemma_split_at(top, '/', name);
    path::lemma_component(top, name);
    path::lemma_component(file, below);
    path::lemma_one_component(top);
    path::lemma_one_component(name);
    assert(path::components(file) =~= seq![top, name]);
    assert(text::split_on(file, '/')[0] == top);
    assert(file[0] == top[0] && top[0] != '/');
    assert(path::components(file + seq!['/'] + below).len() == 3);
    assert((seq!['/'] + file)[0] == '/');
    let up = seq!['.', '.'];
    assert(text_laws::lacks(up, '/'));
    text_laws::lemma_split_lacking(up, '/');
    text_laws::lemma_split_at(top, '/', up);
    assert(top + seq!['/'] + up =~= top + seq!['/', '.', '.']);
    let parts = seq![top] + seq![up];
    assert(parts =~= seq![top, up]);
    assert(path::kept_parts(parts, 2) == path::kept_parts(parts, 1).push(up));
    assert(path::kept_parts(parts, 2).last() == up);
    if path::kept_parts(parts, 2).len() == 2 {
        assert(path::kept_parts(parts, 2)[1] == up);
    }
}

/// Whether every entry of a Windows archive can be read and may be there.
pub open spec fn is_sound(bytes: Seq<u8>, k: int) -> bool {
    zip_entry(bytes, k) matches Ok((name, is_dir, enclosed)) && zip_use(name, is_dir, enclosed)
        != EntryUse::Unsafe && zip_content(bytes, k) is Ok
}

/// Whether an entry of a Windows archive is a file of the given name.
pub open spec fn is_file_named(bytes: Seq<u8>, k: int, name: Seq<char>) -> bool {
    zip_entry(bytes, k) matches Ok((own, is_dir, _)) && own == name && !is_dir
}

proof fn lemma_sound(bytes: Seq<u8>, staging: Seq<char>, n: int)
    requires
        n >= 0,
        forall|k: int| 0 <= k < n ==> is_sound(bytes, k),
    ensures
        ({
            let u = unzipped(bytes, staging, n);
            let app = path::joined(staging, "gocode.exe"@);
            let updater = path::joined(staging, "gocode-updater.exe"@);
            &&& u.failure is None
            &&& u.app is Some <==> exists|k: int|
                0 <= k < n && is_file_named(bytes, k, "gocode.exe"@)
            &&& u.updater is Some <==> exists|k: int|
                0 <= k < n && is_file_named(bytes, k, "gocode-updater.exe"@)
            &&& u.app matches Some(p) ==> p == app
            &&& u.updater matches Some(p) ==> p == updater
            &&& forall|k: int|
                0 <= k < n && is_file_named(bytes, k, "gocode.exe"@) ==> u.files.contains(
                    (app, zip_content(bytes, k)->Ok_0),
                )
            &&& forall|k: int|
                0 <= k < n && is_file_named(bytes, k, "gocode-updater.exe"@) ==> u.files.contains(
                    (updater, zip_content(bytes, k)->Ok_0),
                )
        }),
    decreases n,
{
    reveal_strlit("gocode.exe");
    reveal_strlit("gocode-updater.exe");
    assert("gocode.exe"@.len() != "gocode-updater.exe"@.len());
    if n > 0 {
        lemma_sound(bytes, staging, n - 1);
        let before = unzipped(bytes, staging, n - 1);
        let u = unzipped(bytes, staging, n);
        assert(is_sound(bytes, n - 1));
        assert(u.files == before.files || u.files == before.files.push(u.files.last()));
        assert(u.files.len() > before.files.len() ==> u.files.contains(u.files.last())) by {
            if u.files.len() > before.files.len() {
                assert(u.files[u.files.len() - 1] == u.files.last());
            }
        }
        assert forall|f: (Seq<char>, Seq<u8>)| before.files.contains(f) implies u.files.contains(
            f,
        ) by {
            let i = choose|i: int| 0 <= i < before.files.len() && before.files[i] == f;
            assert(u.files[i] == f);
        }
        assert(is_file_named(bytes, n - 1, "gocode.exe"@) ==> u.app is Some);
        assert(is_file_named(bytes, n - 1, "gocode-updater.exe"@) ==> u.updater is Some);
    }
}

/// A Windows archive all of whose entries are in order is accepted where it holds both executables,
/// and only then. Each executable goes into the staging directory under its own name, with what the
/// archive holds of it.
pub proof fn law_a_sound_windows_archive_is_unpacked(
    bytes: Seq<u8>,
    staging: Seq<char>,
    n: usize,
    app: int,
    updater: int,
)
    requires
        zip_count(bytes) == Ok::<usize, Seq<char>>(n),
        forall|k: int| 0 <= k < n ==> is_sound(bytes, k),
    ensures
        ({
            let (files, outcome) = windows_outcome(bytes, staging);
            let first = path::joined(staging, "gocode.exe"@);
            let second = path::joined(staging, "gocode-updater.exe"@);
            &&& 0 <= app < n && 0 <= updater < n && is_file_named(bytes, app, "gocode.exe"@)
                && is_file_named(bytes, updater, "gocode-updater.exe"@) ==> {
                &&& outcome == Ok::<(Seq<char>, Seq<char>), Fault>((first, second))
                &&& files.contains((first, zip_content(bytes, app)->Ok_0))
                &&& files.contains((second, zip_content(bytes, updater)->Ok_0))
            }
            &&& outcome is Ok ==> {
                &&& exists|k: int| 0 <= k < n && is_file_named(bytes, k, "gocode.exe"@)
                &&& exists|k: int| 0 <= k < n && is_file_named(bytes, k, "gocode-updater.exe"@)
            }
        }),
{
    lemma_sound(bytes, staging, n as int);
}

} // verus!
