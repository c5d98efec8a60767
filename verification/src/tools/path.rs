//! Paths as text: their components, lexical normalization, and the workspace boundary.

use vstd::prelude::*;

use crate::text;
use crate::text_laws;
use crate::text::{cat2, cat3, chars_of, join, same_text, split, text_of};
use crate::tools::contract;
use crate::tools::contract::{invalid, Failure, FailureKind, ToolError};

verus! {

// ---------------------------------------------------------------------------------------------
// Components
// ---------------------------------------------------------------------------------------------

/// Whether a path begins at the root.
pub open spec fn is_absolute(path: Seq<char>) -> bool {
    path.len() > 0 && path[0] == '/'
}

/// One more part of a path taken in: nothing for an empty part or a dot; two dots go back one
/// name where there is one.
pub open spec fn stepped(before: Seq<Seq<char>>, part: Seq<char>) -> Seq<Seq<char>> {
    if part.len() == 0 || part == "."@ {
        before
    } else if part == ".."@ && before.len() > 0 && before.last() != ".."@ {
        before.drop_last()
    } else {
        before.push(part)
    }
}

/// The parts of a path from the first to the `n`th, normalized.
pub open spec fn walked(parts: Seq<Seq<char>>, n: int) -> Seq<Seq<char>>
    decreases n,
{
    if n <= 0 {
        Seq::empty()
    } else {
        stepped(walked(parts, n - 1), parts[n - 1])
    }
}

/// The names of a path after lexical normalization; two dots are left only where there is nothing
/// to go back from.
pub open spec fn names(path: Seq<char>) -> Seq<Seq<char>> {
    let parts = text::split_on(path, '/');
    walked(parts, parts.len() as int)
}

/// A path written out from its names.
pub open spec fn written(absolute: bool, names: Seq<Seq<char>>) -> Seq<char> {
    if absolute {
        "/"@ + text::joined(names, "/"@)
    } else {
        text::joined(names, "/"@)
    }
}

/// A path without dots, doubled separators and steps back.
pub open spec fn normalized(path: Seq<char>) -> Seq<char> {
    written(is_absolute(path), names(path))
}

/// Tells whether a path begins at the root.
pub fn starts_at_root(path: &str) -> (r: bool)
    ensures
        r == is_absolute(path@),
{
    let v: Vec<char> = chars_of(path);
    v.len() > 0 && v[0] == '/'
}

/// Reads the names of a path.
pub fn names_of(path: &str) -> (r: Vec<String>)
    ensures
        text::texts(r@) == names(path@),
{
    let parts: Vec<String> = split(path, '/');
    let ghost all = text::texts(parts@);
    let mut out: Vec<String> = Vec::new();
    let mut i: usize = 0;
    assert(text::texts(out@) =~= walked(all, 0));
    while i < parts.len()
        invariant
            i <= parts@.len(),
            all == text::texts(parts@),
            text::texts(out@) == walked(all, i as int),
        decreases parts@.len() - i,
    {
        assert(all[i as int] == parts@[i as int]@);
        let ghost before = text::texts(out@);
        let part: &str = parts[i].as_str();
        if part.is_empty() || same_text(part, ".") {
        } else if same_text(part, "..") && out.len() > 0 && !same_text(
            out[out.len() - 1].as_str(),
            "..",
        ) {
            assert(before.last() == out@[out@.len() - 1]@);
            let _ = out.pop();
            assert(text::texts(out@) =~= before.drop_last());
        } else {
            assert(out@.len() > 0 ==> before.last() == out@[out@.len() - 1]@);
            out.push(parts[i].clone());
            assert(text::texts(out@) =~= before.push(all[i as int]));
        }
        i = i + 1;
    }
    out
}

/// Writes a path out from its names.
pub fn write_path(absolute: bool, list: &Vec<String>) -> (r: String)
    ensures
        r@ == written(absolute, text::texts(list@)),
{
    let t: String = join(list, "/");
    if absolute {
        cat2("/", t.as_str())
    } else {
        t
    }
}

/// Removes dots, doubled separators and steps back from a path, without looking at the disk.
pub fn normalize_lexically(path: &str) -> (r: String)
    ensures
        r@ == normalized(path@),
{
    let list: Vec<String> = names_of(path);
    write_path(starts_at_root(path), &list)
}

/// The parts of a path that are neither empty nor a dot, up to the `n`th.
pub open spec fn kept_parts(parts: Seq<Seq<char>>, n: int) -> Seq<Seq<char>>
    decreases n,
{
    if n <= 0 {
        Seq::empty()
    } else if parts[n - 1].len() == 0 || parts[n - 1] == "."@ {
        kept_parts(parts, n - 1)
    } else {
        kept_parts(parts, n - 1).push(parts[n - 1])
    }
}

/// The components of a path as it is written, steps back included.
pub open spec fn components(path: Seq<char>) -> Seq<Seq<char>> {
    let parts = text::split_on(path, '/');
    kept_parts(parts, parts.len() as int)
}

/// Whether a path begins with a dot that stands for the current directory.
pub open spec fn starts_here(path: Seq<char>) -> bool {
    text::split_on(path, '/')[0] == "."@
}

/// Whether two paths are the same, component by component.
pub open spec fn is_same(a: Seq<char>, b: Seq<char>) -> bool {
    &&& is_absolute(a) == is_absolute(b)
    &&& starts_here(a) == starts_here(b)
    &&& components(a) == components(b)
}

/// Tells whether a path begins with a dot that stands for the current directory.
fn begins_here(path: &str) -> (r: bool)
    ensures
        r == starts_here(path@),
{
    let parts: Vec<String> = split(path, '/');
    let ghost all = text::texts(parts@);
    assert(all[0] == parts@[0]@);
    same_text(parts[0].as_str(), ".")
}

/// Reads the components of a path.
pub fn components_of(path: &str) -> (r: Vec<String>)
    ensures
        text::texts(r@) == components(path@),
{
    let parts: Vec<String> = split(path, '/');
    let ghost all = text::texts(parts@);
    let mut out: Vec<String> = Vec::new();
    let mut i: usize = 0;
    assert(text::texts(out@) =~= kept_parts(all, 0));
    while i < parts.len()
        invariant
            i <= parts@.len(),
            all == text::texts(parts@),
            text::texts(out@) == kept_parts(all, i as int),
        decreases parts@.len() - i,
    {
        assert(all[i as int] == parts@[i as int]@);
        let ghost before = text::texts(out@);
        if !parts[i].as_str().is_empty() && !same_text(parts[i].as_str(), ".") {
            out.push(parts[i].clone());
            assert(text::texts(out@) =~= before.push(all[i as int]));
        }
        i = i + 1;
    }
    out
}

/// Tells whether two paths are the same, component by component.
pub fn same_path(a: &str, b: &str) -> (r: bool)
    ensures
        r == is_same(a@, b@),
{
    let x: Vec<String> = components_of(a);
    let y: Vec<String> = components_of(b);
    let alike: bool = x.len() == y.len() && begins_with(&x, &y);
    proof {
        let m = text::texts(x@);
        let n = text::texts(y@);
        assert(m.len() == x@.len() && n.len() == y@.len());
        assert(m.subrange(0, m.len() as int) =~= m);
    }
    starts_at_root(a) == starts_at_root(b) && begins_here(a) == begins_here(b) && alike
}

/// The last name of a path, where it has one.
pub open spec fn file_name(path: Seq<char>) -> Option<Seq<char>> {
    let list = components(path);
    if list.len() > 0 && list.last() != ".."@ {
        Some(list.last())
    } else {
        None
    }
}

/// The last of the first `n` parts that is neither empty nor a dot, or -1.
pub open spec fn last_kept(parts: Seq<Seq<char>>, n: int) -> int
    decreases n,
{
    if n <= 0 {
        -1
    } else if parts[n - 1].len() == 0 || parts[n - 1] == "."@ {
        last_kept(parts, n - 1)
    } else {
        n - 1
    }
}

/// The path that holds a path's last component, where there is one, written as it is there.
pub open spec fn parent(path: Seq<char>) -> Option<Seq<char>> {
    let parts = text::split_on(path, '/');
    let last = last_kept(parts, parts.len() as int);
    let before = last_kept(parts, last);
    if last < 0 {
        if starts_here(path) {
            Some(Seq::empty())
        } else {
            None
        }
    } else if before >= 0 {
        Some(text::joined(parts.take(before + 1), "/"@))
    } else if is_absolute(path) {
        Some("/"@)
    } else if starts_here(path) {
        Some("."@)
    } else {
        Some(Seq::empty())
    }
}

/// The last component is the last part that is neither empty nor a dot.
pub proof fn lemma_last_component(parts: Seq<Seq<char>>, n: int)
    requires
        0 <= n <= parts.len(),
    ensures
        ({
            let i = last_kept(parts, n);
            let list = kept_parts(parts, n);
            &&& -1 <= i < n
            &&& i >= 0 <==> list.len() > 0
            &&& i >= 0 ==> list.last() == parts[i]
        }),
    decreases n,
{
    if n > 0 {
        lemma_last_component(parts, n - 1);
    }
}

/// Finds the last of the first `n` parts that is neither empty nor a dot.
pub fn find_kept(parts: &Vec<String>, n: usize) -> (r: Option<usize>)
    requires
        n <= parts.len(),
    ensures
        match r {
            Some(i) => i < n && last_kept(text::texts(parts@), n as int) == i,
            None => last_kept(text::texts(parts@), n as int) == -1,
        },
{
    let ghost all = text::texts(parts@);
    let mut i: usize = n;
    while i > 0
        invariant
            i <= n <= parts.len(),
            all == text::texts(parts@),
            last_kept(all, n as int) == last_kept(all, i as int),
        decreases i,
    {
        assert(all[i - 1] == parts@[i - 1]@);
        if !parts[i - 1].as_str().is_empty() && !same_text(parts[i - 1].as_str(), ".") {
            return Some(i - 1);
        }
        i = i - 1;
    }
    None
}

/// Copies the first `n` parts.
pub fn first_parts(parts: &Vec<String>, n: usize) -> (r: Vec<String>)
    requires
        n <= parts.len(),
    ensures
        text::texts(r@) == text::texts(parts@).take(n as int),
{
    let ghost all = text::texts(parts@);
    let mut out: Vec<String> = Vec::new();
    let mut i: usize = 0;
    assert(text::texts(out@) =~= all.take(0));
    while i < n
        invariant
            i <= n <= parts.len(),
            all == text::texts(parts@),
            text::texts(out@) == all.take(i as int),
        decreases n - i,
    {
        let ghost before = text::texts(out@);
        out.push(parts[i].clone());
        assert(all[i as int] == parts@[i as int]@);
        assert(text::texts(out@) =~= before.push(all[i as int]));
        i = i + 1;
        assert(all.take(i as int) =~= before.push(all[i - 1]));
    }
    out
}

/// Reads the last name of a path.
pub fn file_name_of(path: &str) -> (r: Option<String>)
    ensures
        text::opt_text(r) == file_name(path@),
{
    let list: Vec<String> = components_of(path);
    let ghost all = text::texts(list@);
    if list.len() == 0 {
        return None;
    }
    assert(all.last() == list@[list@.len() - 1]@);
    if same_text(list[list.len() - 1].as_str(), "..") {
        return None;
    }
    Some(list[list.len() - 1].clone())
}

/// Reads the path that holds a path's last component.
pub fn parent_of(path: &str) -> (r: Option<String>)
    ensures
        text::opt_text(r) == parent(path@),
{
    let parts: Vec<String> = split(path, '/');
    assert(text::texts(parts@).len() == parts@.len());
    let last: usize = match find_kept(&parts, parts.len()) {
        Some(i) => i,
        None => {
            if begins_here(path) {
                let none: String = String::new();
                assert(none@ =~= Seq::empty());
                return Some(none);
            }
            return None;
        },
    };
    match find_kept(&parts, last) {
        Some(before) => {
            let head: Vec<String> = first_parts(&parts, before + 1);
            Some(join(&head, "/"))
        },
        None => {
            if starts_at_root(path) {
                Some("/".to_owned())
            } else if begins_here(path) {
                Some(".".to_owned())
            } else {
                let none: String = String::new();
                assert(none@ =~= Seq::empty());
                Some(none)
            }
        },
    }
}

/// The last place of a character in a text before `n`, or -1.
pub open spec fn last_of(s: Seq<char>, c: char, n: int) -> int
    decreases n,
{
    if n <= 0 {
        -1
    } else if s[n - 1] == c {
        n - 1
    } else {
        last_of(s, c, n - 1)
    }
}

/// What follows the last dot of a file's name, where the dot is not its first character.
pub open spec fn extension(path: Seq<char>) -> Option<Seq<char>> {
    match file_name(path) {
        Some(name) => {
            let dot = last_of(name, '.', name.len() as int);
            if dot > 0 {
                Some(name.skip(dot + 1))
            } else {
                None
            }
        },
        None => None,
    }
}

/// Reads the extension of a file's name.
pub fn extension_of(path: &str) -> (r: Option<String>)
    ensures
        text::opt_text(r) == extension(path@),
{
    let name: String = match file_name_of(path) {
        Some(name) => name,
        None => {
            return None;
        },
    };
    let v: Vec<char> = chars_of(name.as_str());
    let mut i: usize = v.len();
    while i > 0
        invariant
            i <= v@.len(),
            v@ == name@,
            Some(name@) == file_name(path@),
            last_of(v@, '.', v@.len() as int) == last_of(v@, '.', i as int),
        decreases i,
    {
        if v[i - 1] == '.' {
            if i == 1 {
                return None;
            }
            let e: String = text_of(&v, i, v.len());
            assert(e@ =~= name@.skip(i as int));
            return Some(e);
        }
        i = i - 1;
    }
    None
}

// ---------------------------------------------------------------------------------------------
// The workspace
// ---------------------------------------------------------------------------------------------

/// Whether a path lies at or under another: its names begin with the other's.
pub open spec fn is_inside(root: Seq<char>, path: Seq<char>) -> bool {
    is_absolute(root) == is_absolute(path) && names(root).is_prefix_of(names(path))
}

/// A path as given, or under the root where it is relative.
pub open spec fn placed(root: Seq<char>, raw: Seq<char>) -> Seq<char> {
    if is_absolute(raw) || root.len() == 0 {
        raw
    } else {
        root + "/"@ + raw
    }
}

/// A path behind a directory: an absolute path replaces it, and no second separator is put behind
/// one.
pub open spec fn joined(directory: Seq<char>, name: Seq<char>) -> Seq<char> {
    if is_absolute(name) || directory.len() == 0 {
        name
    } else if directory.last() == '/' {
        directory + name
    } else {
        directory + "/"@ + name
    }
}

/// Puts a path behind a directory.
pub fn join_path(directory: &str, name: &str) -> (r: String)
    ensures
        r@ == joined(directory@, name@),
{
    let all: Vec<char> = chars_of(directory);
    if starts_at_root(name) || all.len() == 0 {
        name.to_owned()
    } else if all[all.len() - 1] == '/' {
        cat2(directory, name)
    } else {
        cat3(directory, "/", name)
    }
}

fn begins_with(list: &Vec<String>, head: &Vec<String>) -> (r: bool)
    ensures
        r == text::texts(head@).is_prefix_of(text::texts(list@)),
{
    let ghost a = text::texts(head@);
    let ghost b = text::texts(list@);
    if head.len() > list.len() {
        return false;
    }
    let mut i: usize = 0;
    while i < head.len()
        invariant
            i <= head@.len() <= list@.len(),
            a == text::texts(head@),
            b == text::texts(list@),
            forall|j: int| 0 <= j < i ==> #[trigger] a[j] == b[j],
        decreases head@.len() - i,
    {
        assert(a[i as int] == head@[i as int]@ && b[i as int] == list@[i as int]@);
        if !same_text(head[i].as_str(), list[i].as_str()) {
            assert(b.subrange(0, a.len() as int)[i as int] == b[i as int]);
            return false;
        }
        i = i + 1;
    }
    assert(a =~= b.subrange(0, a.len() as int));
    true
}

/// Tells whether a path lies at or under another.
pub fn lies_inside(root: &str, path: &str) -> (r: bool)
    ensures
        r == is_inside(root@, path@),
{
    let head: Vec<String> = names_of(root);
    let list: Vec<String> = names_of(path);
    starts_at_root(root) == starts_at_root(path) && begins_with(&list, &head)
}

/// Checks that a path was given, and places and normalizes it.
pub fn place_path(root: &str, raw: &str) -> (r: Result<String, ToolError>)
    ensures
        match r {
            Ok(path) => !text::is_blank(raw@) && path@ == normalized(placed(root@, raw@)),
            Err(e) => text::is_blank(raw@) && contract::is_invalid(e, "path must not be empty"@),
        },
{
    if text::blank(raw) {
        return Err(invalid("path must not be empty"));
    }
    let joined: String = if starts_at_root(raw) || root.is_empty() {
        raw.to_owned()
    } else {
        cat3(root, "/", raw)
    };
    Ok(normalize_lexically(joined.as_str()))
}

/// The path that an existing ancestor resolves to, with the names below it that do not exist yet.
pub open spec fn rejoined(path: Seq<char>, canonical: Seq<char>, missing: int) -> Seq<char> {
    let list = names(path);
    if missing <= 0 || missing > list.len() {
        canonical
    } else {
        joined(canonical, text::joined(list.skip(list.len() - missing), "/"@))
    }
}

/// Puts the names of a path that do not exist yet under what its longest existing ancestor
/// resolves to, so that the boundary check sees through a symbolic link even for a new file.
pub fn rejoin(path: &str, canonical: &str, missing: usize) -> (r: String)
    ensures
        r@ == rejoined(path@, canonical@, missing as int),
{
    let list: Vec<String> = names_of(path);
    let ghost all = text::texts(list@);
    if missing == 0 || missing > list.len() {
        return canonical.to_owned();
    }
    let mut tail: Vec<String> = Vec::new();
    let mut i: usize = list.len() - missing;
    let ghost from = i as int;
    while i < list.len()
        invariant
            from <= i <= list@.len(),
            all == text::texts(list@),
            tail@.len() == i - from,
            forall|j: int| 0 <= j < tail@.len() ==> (#[trigger] tail@[j])@ == all[from + j],
            0 <= from,
        decreases list@.len() - i,
    {
        tail.push(list[i].clone());
        i = i + 1;
    }
    assert(text::texts(tail@) =~= all.skip(from));
    let t: String = join(&tail, "/");
    join_path(canonical, t.as_str())
}

/// Decides whether a path, once resolved on disk, is inside the workspace.
pub fn check_inside(canonical_root: &str, resolved: String, normalized_path: String) -> (r: Result<
    String,
    ToolError,
>)
    ensures
        r == (if is_inside(canonical_root@, resolved@) {
            Ok(resolved)
        } else {
            Err(ToolError::OutsideWorkspace(normalized_path))
        }),
{
    if lies_inside(canonical_root, resolved.as_str()) {
        Ok(resolved)
    } else {
        Err(ToolError::OutsideWorkspace(normalized_path))
    }
}

/// A symbolic link on the way: where a normalized path leads on disk.
#[derive(Debug, PartialEq, Eq)]
pub struct Link {
    pub path: String,
    pub target: String,
}

/// A workspace: its root as it was given, its root on disk, and where paths lead that do not lead
/// where they say.
#[derive(Debug, PartialEq, Eq)]
pub struct Workspace {
    pub root: String,
    pub canonical: String,
    pub links: Vec<Link>,
}

/// A workspace over plain values.
pub struct Site {
    pub root: Seq<char>,
    pub canonical: Seq<char>,
    pub links: Seq<(Seq<char>, Seq<char>)>,
}

/// Links over plain values.
pub open spec fn linked(v: Seq<Link>) -> Seq<(Seq<char>, Seq<char>)> {
    Seq::new(v.len(), |i: int| (v[i].path@, v[i].target@))
}

/// A workspace without links.
pub open spec fn plain_site(root: Seq<char>) -> Site {
    Site { root, canonical: root, links: Seq::empty() }
}

impl View for Workspace {
    type V = Site;

    open spec fn view(&self) -> Site {
        Site { root: self.root@, canonical: self.canonical@, links: linked(self.links@) }
    }
}

/// Where a normalized path leads, by the links from the `i`-th on: the first that is for it decides,
/// and without one it leads where it says.
pub open spec fn led(links: Seq<(Seq<char>, Seq<char>)>, path: Seq<char>, i: int) -> Seq<char>
    decreases links.len() - i,
{
    if i >= links.len() {
        path
    } else if links[i].0 == path {
        links[i].1
    } else {
        led(links, path, i + 1)
    }
}

impl Workspace {
    /// A workspace without links.
    pub fn new(root: &str) -> (r: Workspace)
        ensures
            r@ == plain_site(root@),
    {
        let r: Workspace = Workspace {
            root: root.to_owned(),
            canonical: root.to_owned(),
            links: Vec::new(),
        };
        assert(r@.links =~= Seq::empty());
        r
    }

    /// Follows the links from a normalized path.
    pub fn follow(&self, path: &str) -> (r: String)
        ensures
            r@ == led(self@.links, path@, 0),
    {
        let ghost all = self@.links;
        let mut i: usize = 0;
        while i < self.links.len()
            invariant
                i <= self.links@.len(),
                all == self@.links,
                led(all, path@, 0) == led(all, path@, i as int),
            decreases self.links@.len() - i,
        {
            assert(all[i as int] == (self.links@[i as int].path@, self.links@[i as int].target@));
            if same_text(self.links[i].path.as_str(), path) {
                return self.links[i].target.clone();
            }
            i = i + 1;
        }
        path.to_owned()
    }
}

/// How a model-supplied path resolves in a workspace: it is placed, normalized and followed on disk,
/// and where it ends must lie inside.
pub open spec fn resolution(site: Site, raw: Seq<char>) -> Result<Seq<char>, Failure> {
    let path = normalized(placed(site.root, raw));
    let target = led(site.links, path, 0);
    if text::is_blank(raw) {
        Err(contract::wrong("path must not be empty"@))
    } else if is_inside(site.canonical, target) {
        Ok(target)
    } else {
        Err(Failure { kind: FailureKind::OutsideWorkspace, text: path })
    }
}

/// Resolves a model-supplied path against a workspace and proves that it stays inside, also where a
/// symbolic link is on the way.
pub fn resolve_workspace_path(workspace: &Workspace, raw: &str) -> (r: Result<String, ToolError>)
    ensures
        contract::outcome(r) == resolution(workspace@, raw@),
{
    match place_path(workspace.root.as_str(), raw) {
        Ok(path) => {
            let target: String = workspace.follow(path.as_str());
            check_inside(workspace.canonical.as_str(), target, path)
        },
        Err(e) => Err(e),
    }
}

/// A path under a root, written relative to it with forward slashes; any other path as it is.
pub open spec fn relative(root: Seq<char>, path: Seq<char>) -> Seq<char> {
    text::replaced(
        if is_inside(root, path) {
            text::joined(names(path).skip(names(root).len() as int), "/"@)
        } else {
            normalized(path)
        },
        "\\"@,
        "/"@,
    )
}

/// Renders a path relative to the workspace's root using forward slashes, for model-facing output.
pub fn to_workspace_relative(root: &str, path: &str) -> (r: String)
    ensures
        r@ == relative(root@, path@),
{
    let list: Vec<String> = names_of(path);
    let ghost all = text::texts(list@);
    let t: String = if lies_inside(root, path) {
        let head: Vec<String> = names_of(root);
        let ghost n = text::texts(head@).len() as int;
        let mut tail: Vec<String> = Vec::new();
        let mut i: usize = head.len();
        while i < list.len()
            invariant
                n <= i <= list@.len(),
                n <= all.len(),
                all == text::texts(list@),
                0 <= n,
                tail@.len() == i - n,
                forall|j: int| 0 <= j < tail@.len() ==> (#[trigger] tail@[j])@ == all[n + j],
            decreases list@.len() - i,
        {
            tail.push(list[i].clone());
            i = i + 1;
        }
        assert(text::texts(tail@) =~= all.skip(n));
        join(&tail, "/")
    } else {
        normalize_lexically(path)
    };
    proof {
        reveal_strlit("\\");
    }
    text::replace(t.as_str(), "\\", "/")
}

// ---------------------------------------------------------------------------------------------
// Laws
// ---------------------------------------------------------------------------------------------

/// Whether names are normalized: none is empty or a dot, and two dots come only before any other
/// name.
pub open spec fn is_normal(list: Seq<Seq<char>>) -> bool {
    forall|i: int|
        0 <= i < list.len() ==> (#[trigger] list[i]).len() > 0 && list[i] != "."@ && (i > 0
            && list[i] == ".."@ ==> list[i - 1] == ".."@)
}

proof fn lemma_walked_is_normal(parts: Seq<Seq<char>>, n: int)
    requires
        0 <= n <= parts.len(),
    ensures
        is_normal(walked(parts, n)),
    decreases n,
{
    if n > 0 {
        lemma_walked_is_normal(parts, n - 1);
        let before = walked(parts, n - 1);
        let after = walked(parts, n);
        assert forall|i: int| 0 <= i < after.len() implies (#[trigger] after[i]).len() > 0
            && after[i] != "."@ && (i > 0 && after[i] == ".."@ ==> after[i - 1] == ".."@) by {
            if i < before.len() {
                assert(after[i] == before[i]);
                if i > 0 {
                    assert(after[i - 1] == before[i - 1]);
                }
            } else if i > 0 {
                assert(after[i - 1] == before[i - 1]);
            }
        }
    }
}

/// The names of a path hold no dots and no step back that could be taken.
pub proof fn law_names_are_normal(path: Seq<char>)
    ensures
        is_normal(names(path)),
{
    lemma_walked_is_normal(text::split_on(path, '/'), text::split_on(path, '/').len() as int);
}

/// A path resolves exactly where it is given and what it leads to, links followed, lies inside the
/// workspace.
pub proof fn law_resolved_paths_stay_inside(site: Site, raw: Seq<char>)
    ensures
        resolution(site, raw) is Ok <==> !text::is_blank(raw) && is_inside(
            site.canonical,
            led(site.links, normalized(placed(site.root, raw)), 0),
        ),
        resolution(site, raw) matches Ok(p) ==> is_inside(site.canonical, p) && p == led(
            site.links,
            normalized(placed(site.root, raw)),
            0,
        ),
{
}

proof fn lemma_no_step_back(list: Seq<Seq<char>>, i: int)
    requires
        is_normal(list),
        list.len() > 0,
        list[0] != ".."@,
        0 <= i < list.len(),
    ensures
        list[i] != ".."@,
    decreases i,
{
    if i > 0 {
        lemma_no_step_back(list, i - 1);
    }
}

/// A path inside a workspace whose own path takes no step back takes none either.
pub proof fn law_inside_paths_take_no_step_back(root: Seq<char>, path: Seq<char>, i: int)
    requires
        is_inside(root, path),
        names(root).len() > 0,
        names(root)[0] != ".."@,
        0 <= i < names(path).len(),
    ensures
        names(path)[i] != ".."@,
{
    law_names_are_normal(path);
    assert(names(root)[0] == names(path).subrange(0, names(root).len() as int)[0]);
    lemma_no_step_back(names(path), i);
}

/// The workspace lies inside itself, and what lies inside what lies inside it lies inside it.
pub proof fn law_inside_is_a_preorder(a: Seq<char>, b: Seq<char>, c: Seq<char>)
    ensures
        is_inside(a, a),
        is_inside(a, b) && is_inside(b, c) ==> is_inside(a, c),
{
    assert(names(a) =~= names(a).subrange(0, names(a).len() as int));
    if is_inside(a, b) && is_inside(b, c) {
        let x = names(a);
        let y = names(b);
        let z = names(c);
        assert forall|i: int| 0 <= i < x.len() implies #[trigger] x[i] == z[i] by {
            assert(x[i] == y.subrange(0, x.len() as int)[i]);
            assert(y[i] == z.subrange(0, y.len() as int)[i]);
        }
        assert(x =~= z.subrange(0, x.len() as int));
    }
}

/// A name without separators behind a separator is one more part.
pub proof fn lemma_split_after(d: Seq<char>, name: Seq<char>)
    requires
        !name.contains('/'),
    ensures
        text::split_on(d + "/"@ + name, '/') == text::split_on(d, '/').push(name),
    decreases name.len(),
{
    reveal_strlit("/");
    let all = d + "/"@ + name;
    if name.len() == 0 {
        assert(all.drop_last() =~= d);
        assert(name =~= Seq::empty());
    } else {
        let some = name.drop_last();
        assert(!some.contains('/')) by {
            if some.contains('/') {
                let i = choose|i: int| 0 <= i < some.len() && some[i] == '/';
                assert(name[i] == '/');
            }
        }
        lemma_split_after(d, some);
        assert(all.drop_last() =~= d + "/"@ + some);
        assert(all.last() == name.last());
        assert(name.contains(name[name.len() - 1]));
        let before = text::split_on(d, '/').push(some);
        assert(before.drop_last() =~= text::split_on(d, '/'));
        assert(some.push(name.last()) =~= name);
    }
}

/// Whether no name holds a separator.
pub open spec fn is_separate(list: Seq<Seq<char>>) -> bool {
    forall|i: int| 0 <= i < list.len() ==> !(#[trigger] list[i]).contains('/')
}

proof fn lemma_split_parts(s: Seq<char>)
    ensures
        is_separate(text::split_on(s, '/')),
        text::split_on(s, '/').len() > 0,
        !s.contains('/') ==> text::split_on(s, '/') == seq![s],
    decreases s.len(),
{
    let after = text::split_on(s, '/');
    if s.len() == 0 {
        assert(s =~= Seq::empty());
    } else {
        let some = s.drop_last();
        lemma_split_parts(some);
        let before = text::split_on(some, '/');
        assert forall|i: int| 0 <= i < after.len() implies !(#[trigger] after[i]).contains('/') by {
            if after[i].contains('/') {
                let k = choose|k: int| 0 <= k < after[i].len() && after[i][k] == '/';
                if i < before.len() && after[i] != before[i] {
                    assert(after[i] == before.last().push(s.last()));
                    assert(before[before.len() - 1][k] == '/');
                } else if i < before.len() {
                    assert(before[i][k] == '/');
                }
            }
        }
        if !s.contains('/') {
            assert(s.contains(s[s.len() - 1]));
            assert(!some.contains('/')) by {
                if some.contains('/') {
                    let i = choose|i: int| 0 <= i < some.len() && some[i] == '/';
                    assert(s[i] == '/');
                }
            }
            assert(some.push(s.last()) =~= s);
            assert(after =~= seq![s]);
        }
    }
}

proof fn lemma_split_joined(list: Seq<Seq<char>>)
    requires
        is_separate(list),
        list.len() > 0,
    ensures
        text::split_on(text::joined(list, "/"@), '/') == list,
    decreases list.len(),
{
    if list.len() == 1 {
        lemma_split_parts(list[0]);
        assert(!list[0].contains('/'));
        assert(seq![list[0]] =~= list);
    } else {
        lemma_split_joined(list.drop_last());
        assert(!list[list.len() - 1].contains('/'));
        lemma_split_after(text::joined(list.drop_last(), "/"@), list.last());
        assert(list.drop_last().push(list.last()) =~= list);
    }
}

proof fn lemma_split_below(d: Seq<char>, list: Seq<Seq<char>>)
    requires
        is_separate(list),
        list.len() > 0,
    ensures
        text::split_on(d + "/"@ + text::joined(list, "/"@), '/') == text::split_on(d, '/') + list,
    decreases list.len(),
{
    assert(!list[list.len() - 1].contains('/'));
    if list.len() == 1 {
        lemma_split_after(d, list[0]);
        assert(text::split_on(d, '/').push(list[0]) =~= text::split_on(d, '/') + list);
    } else {
        let some = list.drop_last();
        lemma_split_below(d, some);
        let above = d + "/"@ + text::joined(some, "/"@);
        lemma_split_after(above, list.last());
        assert(d + "/"@ + text::joined(list, "/"@) =~= above + "/"@ + list.last());
        assert((text::split_on(d, '/') + some).push(list.last()) =~= text::split_on(d, '/') + list);
    }
}

proof fn lemma_walked_parts(parts: Seq<Seq<char>>, n: int)
    requires
        0 <= n <= parts.len(),
        is_separate(parts),
    ensures
        is_separate(walked(parts, n)),
    decreases n,
{
    if n > 0 {
        lemma_walked_parts(parts, n - 1);
    }
}

proof fn lemma_walked_start(parts: Seq<Seq<char>>, more: Seq<Seq<char>>, n: int)
    requires
        0 <= n <= parts.len(),
    ensures
        walked(parts + more, n) == walked(parts, n),
    decreases n,
{
    if n > 0 {
        lemma_walked_start(parts, more, n - 1);
        assert((parts + more)[n - 1] == parts[n - 1]);
    }
}

proof fn lemma_walked_on(parts: Seq<Seq<char>>, list: Seq<Seq<char>>, k: int)
    requires
        0 <= k <= list.len(),
        is_normal(walked(parts, parts.len() as int) + list),
    ensures
        walked(parts + list, parts.len() + k) == walked(parts, parts.len() as int) + list.take(k),
    decreases k,
{
    let so_far = walked(parts, parts.len() as int);
    let whole = so_far + list;
    if k == 0 {
        lemma_walked_start(parts, list, parts.len() as int);
        assert(so_far + list.take(0) =~= so_far);
    } else {
        lemma_walked_on(parts, list, k - 1);
        let before = so_far + list.take(k - 1);
        let i = so_far.len() + k - 1;
        assert((parts + list)[parts.len() + k - 1] == list[k - 1]);
        assert(whole[i] == list[k - 1]);
        if before.len() > 0 {
            assert(before.last() == whole[i - 1]);
        }
        assert(before.push(list[k - 1]) =~= so_far + list.take(k));
    }
}

/// A path written from normalized names has those names.
proof fn lemma_names_of_written(absolute: bool, list: Seq<Seq<char>>)
    requires
        is_normal(list),
        is_separate(list),
    ensures
        names(written(absolute, list)) == list,
        is_absolute(written(absolute, list)) == absolute,
{
    reveal_strlit("/");
    let path = written(absolute, list);
    let none = Seq::<char>::empty();
    assert(text::split_on(none, '/') == seq![none]);
    assert(walked(seq![none], 0) =~= Seq::empty());
    assert(walked(seq![none], 1) == walked(seq![none], 0));
    if list.len() == 0 {
        assert(list =~= Seq::empty());
        if absolute {
            assert(path =~= none + "/"@ + none);
            lemma_split_after(none, none);
            let parts = seq![none].push(none);
            assert(walked(parts, 0) =~= list);
            assert(walked(parts, 1) == walked(parts, 0));
            assert(walked(parts, 2) == walked(parts, 1));
        } else {
            assert(path =~= none);
        }
    } else if absolute {
        assert(path =~= none + "/"@ + text::joined(list, "/"@));
        lemma_split_below(none, list);
        assert(walked(seq![none], 1) + list =~= list);
        lemma_walked_on(seq![none], list, list.len() as int);
        assert(list.take(list.len() as int) =~= list);
    } else {
        lemma_split_joined(list);
        let start = Seq::<Seq<char>>::empty();
        assert(walked(start, 0) + list =~= list);
        lemma_walked_on(start, list, list.len() as int);
        assert(start + list =~= list);
        assert(list.take(list.len() as int) =~= list);
        lemma_joined_begins(list);
        assert(list[0].len() > 0);
        assert(list[0].contains(list[0][0]));
    }
}

proof fn lemma_joined_begins(list: Seq<Seq<char>>)
    requires
        list.len() > 0,
    ensures
        list[0].is_prefix_of(text::joined(list, "/"@)),
        list[0].len() > 0 ==> text::joined(list, "/"@).len() > 0 && text::joined(list, "/"@)[0]
            == list[0][0],
    decreases list.len(),
{
    let all = text::joined(list, "/"@);
    if list.len() > 1 {
        lemma_joined_begins(list.drop_last());
        let head = text::joined(list.drop_last(), "/"@);
        assert(head.subrange(0, list[0].len() as int) =~= all.subrange(0, list[0].len() as int));
    } else {
        assert(all =~= all.subrange(0, all.len() as int));
    }
}

/// Normalizing a path keeps its names and where it begins, and doing it twice changes nothing.
pub proof fn law_normalizing_twice_changes_nothing(path: Seq<char>)
    ensures
        names(normalized(path)) == names(path),
        is_absolute(normalized(path)) == is_absolute(path),
        normalized(normalized(path)) == normalized(path),
{
    let parts = text::split_on(path, '/');
    law_names_are_normal(path);
    lemma_split_parts(path);
    lemma_walked_parts(parts, parts.len() as int);
    lemma_names_of_written(is_absolute(path), names(path));
}

proof fn lemma_nothing_replaced(s: Seq<char>, c: char, to: Seq<char>)
    requires
        !s.contains(c),
    ensures
        text::replaced(s, seq![c], to) == s,
    decreases s.len(),
{
    if s.len() > 0 {
        assert(s.contains(s[0]));
        if seq![c].is_prefix_of(s) {
            assert(s.subrange(0, 1)[0] == s[0]);
        }
        assert(!s.skip(1).contains(c)) by {
            if s.skip(1).contains(c) {
                let i = choose|i: int| 0 <= i < s.skip(1).len() && s.skip(1)[i] == c;
                assert(s[i + 1] == c);
            }
        }
        lemma_nothing_replaced(s.skip(1), c, to);
        assert(seq![s[0]] + s.skip(1) =~= s);
    }
}

/// What is shown of a file under an absolute root resolves to the file again, where no link is on the
/// way and the shown path is not blank and holds no backslash.
pub proof fn law_shown_paths_lead_back(site: Site, root: Seq<char>, path: Seq<char>)
    requires
        site.root == root,
        site.canonical == root,
        led(site.links, path, 0) == path,
        is_absolute(root),
        is_inside(root, path),
        path == normalized(path),
        names(path).len() > names(root).len(),
        !text::is_blank(relative(root, path)),
        !text::joined(names(path).skip(names(root).len() as int), "/"@).contains('\\'),
    ensures
        resolution(site, relative(root, path)) == Ok::<Seq<char>, Failure>(path),
{
    reveal_strlit("/");
    reveal_strlit("\\");
    let n = names(root).len() as int;
    let list = names(path).skip(n);
    let shown = text::joined(list, "/"@);
    let parts = text::split_on(root, '/');
    assert("\\"@ =~= seq!['\\']);
    lemma_nothing_replaced(shown, '\\', "/"@);
    assert(relative(root, path) == shown);
    law_names_are_normal(path);
    lemma_split_parts(path);
    lemma_walked_parts(text::split_on(path, '/'), text::split_on(path, '/').len() as int);
    assert forall|i: int| 0 <= i < list.len() implies !(#[trigger] list[i]).contains('/') by {
        assert(list[i] == names(path)[n + i]);
    }
    lemma_joined_begins(list);
    assert(list[0] == names(path)[n]);
    assert(list[0].contains(list[0][0]));
    assert(!is_absolute(shown));
    lemma_split_below(root, list);
    assert(names(root) + list =~= names(path));
    lemma_walked_on(parts, list, list.len() as int);
    assert(list.take(list.len() as int) =~= list);
    let placed_path = placed(root, shown);
    assert(names(placed_path) == names(path));
    assert(is_absolute(placed_path));
}

// ---------------------------------------------------------------------------------------------
// Paths, name by name
// ---------------------------------------------------------------------------------------------

/// Whether a text is the name of a file or a directory: not empty, without a slash, and no dots that
/// stand for a step.
pub open spec fn is_plain_name(name: Seq<char>) -> bool {
    &&& name.len() > 0
    &&& text_laws::lacks(name, '/')
    &&& name != seq!['.']
    &&& name != seq!['.', '.']
}

/// The parts of a path with one more behind it.
pub proof fn lemma_one_more_part(directory: Seq<char>, part: Seq<char>)
    requires
        text_laws::lacks(part, '/'),
    ensures
        text::split_on(directory + seq!['/'] + part, '/') == text::split_on(directory, '/').push(
            part,
        ),
        walked(
            text::split_on(directory, '/').push(part),
            text::split_on(directory, '/').len() as int,
        ) == names(directory),
        kept_parts(
            text::split_on(directory, '/').push(part),
            text::split_on(directory, '/').len() as int,
        ) == components(directory),
{
    text_laws::lemma_split_at(directory, '/', part);
    text_laws::lemma_split_lacking(part, '/');
    let parts = text::split_on(directory, '/');
    assert(parts + seq![part] =~= parts.push(part));
    lemma_same_walk(parts, parts.push(part), parts.len() as int);
}

proof fn lemma_same_walk(a: Seq<Seq<char>>, b: Seq<Seq<char>>, n: int)
    requires
        0 <= n <= a.len(),
        n <= b.len(),
        forall|i: int| 0 <= i < n ==> a[i] == b[i],
    ensures
        walked(a, n) == walked(b, n),
        kept_parts(a, n) == kept_parts(b, n),
        last_kept(a, n) == last_kept(b, n),
    decreases n,
{
    if n > 0 {
        lemma_same_walk(a, b, n - 1);
    }
}

pub proof fn lemma_dots()
    ensures
        "."@ == seq!['.'],
        ".."@ == seq!['.', '.'],
        "/"@ == seq!['/'],
        seq!['.'] != seq!['.', '.'],
{
    reveal_strlit(".");
    reveal_strlit("..");
    reveal_strlit("/");
    assert("."@ =~= seq!['.']);
    assert(".."@ =~= seq!['.', '.']);
    assert("/"@ =~= seq!['/']);
    assert(seq!['.'].len() != seq!['.', '.'].len());
}

/// A name behind a directory is one component more.
pub proof fn lemma_component(directory: Seq<char>, name: Seq<char>)
    requires
        is_plain_name(name),
    ensures
        components(directory + seq!['/'] + name) == components(directory).push(name),
{
    lemma_dots();
    lemma_one_more_part(directory, name);
}

/// A plain name is its own one component.
pub proof fn lemma_one_component(name: Seq<char>)
    requires
        is_plain_name(name),
    ensures
        components(name) == seq![name],
{
    lemma_dots();
    text_laws::lemma_split_lacking(name, '/');
    assert(kept_parts(seq![name], 0) =~= Seq::empty());
    assert(kept_parts(seq![name], 1) =~= seq![name]);
}

/// The root has no component.
pub proof fn lemma_root_has_no_component()
    ensures
        components(seq!['/']).len() == 0,
{
    let e = Seq::<char>::empty();
    text_laws::lemma_split_at(e, '/', e);
    assert(e + seq!['/'] + e =~= seq!['/']);
    assert(text::split_on(e, '/') =~= seq![e]);
    let parts = text::split_on(seq!['/'], '/');
    assert(parts =~= seq![e, e]);
    assert(kept_parts(parts, 0) =~= Seq::empty());
    assert(kept_parts(parts, 1) =~= Seq::empty());
    assert(kept_parts(parts, 2) =~= Seq::empty());
}

/// A path is walked name by name: a name behind a directory is one name more, nothing or a dot changes
/// nothing, and two dots take back the name before, where there is one.
pub proof fn law_a_path_is_walked_name_by_name(directory: Seq<char>, name: Seq<char>)
    requires
        is_plain_name(name),
    ensures
        names(Seq::empty()).len() == 0,
        names(directory + seq!['/'] + name) == names(directory).push(name),
        names(directory + seq!['/']) == names(directory),
        names(directory + seq!['/', '.']) == names(directory),
        names(directory + seq!['/'] + name + seq!['/', '.', '.']) == names(directory),
        is_absolute(directory + seq!['/'] + name) <==> directory.len() == 0 || directory[0] == '/',
        is_absolute(directory) ==> (names(directory).len() == 0 || names(directory)[0] != seq!['.', '.'])
            ==> normalized(directory + seq!['/'] + name) == (if names(directory).len() == 0 {
            seq!['/'] + name
        } else {
            normalized(directory) + seq!['/'] + name
        }),
{
    lemma_dots();
    let e = Seq::<char>::empty();
    assert(text::split_on(e, '/') =~= seq![e]);
    assert(walked(seq![e], 0) =~= Seq::empty());
    assert(walked(seq![e], 1) =~= Seq::empty());
    lemma_one_more_part(directory, name);
    lemma_one_more_part(directory, e);
    assert(directory + seq!['/'] + e =~= directory + seq!['/']);
    lemma_one_more_part(directory, seq!['.']);
    assert(directory + seq!['/'] + seq!['.'] =~= directory + seq!['/', '.']);
    let below = directory + seq!['/'] + name;
    lemma_one_more_part(below, seq!['.', '.']);
    assert(below + seq!['/'] + seq!['.', '.'] =~= below + seq!['/', '.', '.']);
    assert(names(directory).push(name).drop_last() =~= names(directory));
    if directory.len() > 0 {
        assert(below[0] == directory[0]);
    } else {
        assert(below[0] == '/');
    }
    let list = names(directory);
    if is_absolute(directory) {
        text_laws::law_joining_puts_the_separator_between(list, seq![name], name, "/"@);
        assert(list + seq![name] =~= list.push(name));
        if list.len() == 0 {
            assert(list.push(name) =~= seq![name]);
        } else {
            assert("/"@ + (text::joined(list, "/"@) + "/"@ + name) =~= normalized(directory)
                + seq!['/'] + name);
        }
    }
}

/// The last name of a path is what stands behind its last slash, and its extension what stands behind
/// the last dot of that name, unless the name begins with it.
pub proof fn law_a_path_ends_in_its_name(
    directory: Seq<char>,
    name: Seq<char>,
    stem: Seq<char>,
    ext: Seq<char>,
)
    requires
        is_plain_name(name),
    ensures
        file_name(directory + seq!['/'] + name) == Some(name),
        file_name(name) == Some(name),
        name == stem + seq!['.'] + ext && stem.len() > 0 && text_laws::lacks(ext, '.')
            ==> extension(directory + seq!['/'] + name) == Some(ext),
        text_laws::lacks(name, '.') ==> extension(directory + seq!['/'] + name) is None,
        name == seq!['.'] + ext && text_laws::lacks(ext, '.') ==> extension(
            directory + seq!['/'] + name,
        ) is None,
{
    lemma_dots();
    lemma_one_more_part(directory, name);
    text_laws::lemma_split_lacking(name, '/');
    assert(kept_parts(seq![name], 0) =~= Seq::empty());
    assert(kept_parts(seq![name], 1) =~= seq![name]);
    assert(components(directory + seq!['/'] + name) == components(directory).push(name));
    if name == stem + seq!['.'] + ext && text_laws::lacks(ext, '.') {
        lemma_last_of(name, '.', stem.len() as int, name.len() as int);
        assert(name.skip(stem.len() as int + 1) =~= ext);
    }
    if text_laws::lacks(name, '.') {
        lemma_last_of(name, '.', -1, name.len() as int);
    }
    if name == seq!['.'] + ext && text_laws::lacks(ext, '.') {
        lemma_last_of(name, '.', 0, name.len() as int);
    }
}

pub proof fn lemma_last_of(s: Seq<char>, c: char, at: int, n: int)
    requires
        -1 <= at < n || (at == -1 && n == 0),
        n <= s.len(),
        at >= 0 ==> s[at] == c,
        forall|i: int| at < i < n ==> s[i] != c,
    ensures
        last_of(s, c, n) == at,
    decreases n,
{
    if n > 0 && at < n - 1 {
        lemma_last_of(s, c, at, n - 1);
    }
}

/// The parent of a name behind a directory is the directory, as it is written.
pub proof fn law_a_names_parent_holds_it(above: Seq<char>, directory: Seq<char>, name: Seq<char>)
    requires
        is_plain_name(name),
        is_plain_name(directory),
    ensures
        parent(above + seq!['/'] + directory + seq!['/'] + name) == Some(
            above + seq!['/'] + directory,
        ),
        parent(directory + seq!['/'] + name) == Some(directory),
        parent(seq!['/'] + name) == Some(seq!['/']),
        joined(above + seq!['/'] + directory, name) == above + seq!['/'] + directory + seq!['/']
            + name,
        joined(directory, seq!['/'] + name) == seq!['/'] + name,
{
    lemma_dots();
    let holder = above + seq!['/'] + directory;
    lemma_one_more_part(above, directory);
    lemma_parent(holder, name);
    text_laws::lemma_split_lacking(directory, '/');
    lemma_parent(directory, name);
    let e = Seq::<char>::empty();
    lemma_one_more_part(e, name);
    assert(e + seq!['/'] + name =~= seq!['/'] + name);
    assert(text::split_on(e, '/') =~= seq![e]);
    let parts = seq![e].push(name);
    assert(last_kept(parts, 2) == 1);
    assert(last_kept(parts, 1) == last_kept(parts, 0));
    assert(last_kept(parts, 0) == -1);
    assert(holder.last() == directory.last());
    assert(directory[directory.len() - 1] != '/');
    assert(!is_absolute(name)) by {
        assert(name[0] != '/');
    }
    assert(is_absolute(seq!['/'] + name));
}

proof fn lemma_parent(directory: Seq<char>, name: Seq<char>)
    requires
        is_plain_name(name),
        is_plain_name(text::split_on(directory, '/').last()),
    ensures
        parent(directory + seq!['/'] + name) == Some(directory),
{
    lemma_dots();
    lemma_one_more_part(directory, name);
    text::lemma_split_nonempty(directory, '/');
    let parts = text::split_on(directory, '/');
    let all = parts.push(name);
    let n = parts.len() as int;
    assert(last_kept(all, n + 1) == n);
    assert(all[n - 1] == parts.last());
    assert(last_kept(all, n) == n - 1);
    assert(all.take(n) =~= parts);
    assert(text_laws::all_lack(seq![name], '/'));
    text_laws::law_pieces_make_the_text(directory, seq![name], '/');
}

/// What lies in a directory lies inside it, and inside it only: two names in one directory lie inside
/// each other only where they are the same.
pub proof fn law_names_in_a_directory_lie_inside_it(
    directory: Seq<char>,
    a: Seq<char>,
    b: Seq<char>,
)
    requires
        is_plain_name(a),
        is_plain_name(b),
    ensures
        directory.len() > 0 ==> is_inside(directory, directory + seq!['/'] + a),
        is_inside(directory + seq!['/'] + a, directory + seq!['/'] + b) <==> a == b,
        !is_inside(directory + seq!['/'] + a, directory),
{
    law_a_path_is_walked_name_by_name(directory, a);
    law_a_path_is_walked_name_by_name(directory, b);
    let list = names(directory);
    assert(list.push(a).subrange(0, list.len() as int) =~= list);
    assert(list.push(b).subrange(0, list.len() as int + 1) =~= list.push(b));
    assert(list.push(a).last() == a && list.push(b).last() == b);
}

/// A workspace without links holds the names right below its root and lets nothing be reached by a step
/// back: a plain name resolves to the file below the root, and two dots to nothing.
pub proof fn law_a_workspace_holds_what_is_below_it(root: Seq<char>, name: Seq<char>)
    requires
        is_plain_name(name),
        is_absolute(root),
        names(root).len() > 0,
        names(root)[0] != seq!['.', '.'],
        !text_laws::all_white(name),
    ensures
        resolution(plain_site(root), name) == Ok::<Seq<char>, Failure>(
            normalized(root) + seq!['/'] + name,
        ),
        resolution(plain_site(root), seq!['.', '.']) matches Err(e) && e.kind
            == FailureKind::OutsideWorkspace,
        resolution(plain_site(root), name + seq!['/', '.', '.', '/', '.', '.']) matches Err(e)
            && e.kind == FailureKind::OutsideWorkspace,
{
    lemma_dots();
    law_a_path_is_walked_name_by_name(root, name);
    law_normalizing_twice_changes_nothing(root + seq!['/'] + name);
    let site = plain_site(root);
    assert(!is_absolute(name)) by {
        assert(name[0] != '/');
    }
    let list = names(root);
    assert(list.push(name).subrange(0, list.len() as int) =~= list);
    text_laws::lemma_blank(name);
    let up = seq!['.', '.'];
    lemma_one_more_part(root, up);
    let above = root + seq!['/'] + up;
    law_names_are_normal(root);
    lemma_no_step_back(list, list.len() - 1);
    assert(names(above) == list.drop_last());
    assert(above[0] == root[0]);
    law_normalizing_twice_changes_nothing(above);
    text_laws::lemma_blank(up);
    assert(!is_inside(root, normalized(above)));
    let back = name + seq!['/', '.', '.', '/', '.', '.'];
    let down = root + seq!['/'] + name + seq!['/', '.', '.'];
    lemma_one_more_part(down, up);
    assert(down + seq!['/'] + up =~= root + seq!['/'] + back);
    assert(names(down) == list);
    assert((root + seq!['/'] + back)[0] == root[0]);
    law_normalizing_twice_changes_nothing(root + seq!['/'] + back);
    assert(back[0] == name[0]);
    assert(!text_laws::all_white(back)) by {
        assert(back[name.len() as int] == '/');
    }
    text_laws::lemma_blank(back);
}

/// A path below a root is shown by its names below the root, with slashes between them.
pub proof fn law_a_path_below_the_root_is_shown_by_its_names(
    root: Seq<char>,
    a: Seq<char>,
    b: Seq<char>,
)
    requires
        root.len() > 0,
        is_plain_name(a),
        is_plain_name(b),
        text_laws::lacks(a, '\\'),
        text_laws::lacks(b, '\\'),
    ensures
        relative(root, root + seq!['/'] + a) == a,
        relative(root, root + seq!['/'] + a + seq!['/'] + b) == a + seq!['/'] + b,
{
    lemma_dots();
    reveal_strlit("\\");
    assert("\\"@ =~= seq!['\\']);
    law_a_path_is_walked_name_by_name(root, a);
    let below = root + seq!['/'] + a;
    law_a_path_is_walked_name_by_name(below, b);
    let list = names(root);
    let n = list.len() as int;
    assert(below[0] == root[0]);
    assert((below + seq!['/'] + b)[0] == root[0]);
    assert(list.push(a).subrange(0, n) =~= list);
    assert(list.push(a).push(b).subrange(0, n) =~= list);
    assert(list.push(a).skip(n) =~= seq![a]);
    assert(list.push(a).push(b).skip(n) =~= seq![a, b]);
    text_laws::law_joining_puts_the_separator_between(seq![a], seq![b], a, "/"@);
    text_laws::law_joining_puts_the_separator_between(seq![a], seq![b], b, "/"@);
    assert(seq![a] + seq![b] =~= seq![a, b]);
    let both = a + seq!['/'] + b;
    assert(!a.contains('\\'));
    assert(!both.contains('\\')) by {
        if both.contains('\\') {
            let i = choose|i: int| 0 <= i < both.len() && both[i] == '\\';
            if i < a.len() {
                assert(a[i] == '\\');
            } else if i > a.len() {
                assert(b[i - a.len() - 1] == '\\');
            }
        }
    }
    lemma_nothing_replaced(a, '\\', "/"@);
    lemma_nothing_replaced(both, '\\', "/"@);
}

} // verus!
