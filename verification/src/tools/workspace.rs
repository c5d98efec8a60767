//! Listing a workspace, telling text from binary content, and replacing files as a whole.

use vstd::prelude::*;

use crate::sorting;
use crate::sorting::comes_before;
use crate::text;
use crate::text::{cat2, cat5, number, same_text};
use crate::tools::contract::{Failure, FailureKind, ToolError};
use crate::tools::path;
use crate::tools::path::{
    components_of, file_name_of, join_path, parent_of, same_path, to_workspace_relative, Workspace,
};

verus! {

/// How many leading bytes are looked at to tell whether content is binary.
pub const BINARY_SNIFF_LEN: usize = 8000;

/// One entry of a listing.
#[derive(Debug, PartialEq, Eq)]
pub struct DiscoveredEntry {
    /// Project-relative path with forward slashes.
    pub relative_path: String,
    /// Whether the entry is a directory.
    pub is_dir: bool,
}

/// One entry met on a walk through the workspace.
#[derive(Debug, PartialEq, Eq)]
pub struct WalkedEntry {
    /// Absolute path.
    pub path: String,
    /// Whether the entry is a directory.
    pub is_dir: bool,
}

/// Whether a directory is never listed, even where no ignore file names it.
pub open spec fn is_excluded_name(name: Seq<char>) -> bool {
    name == ".git"@ || name == ".gocode"@
}

/// Whether a path leads through a directory that is never listed.
pub open spec fn is_excluded(p: Seq<char>) -> bool {
    exists|i: int| 0 <= i < path::components(p).len() && is_excluded_name(#[trigger] path::components(p)[i])
}

/// Tells whether a path leads through a directory that is never listed.
pub fn leads_through_excluded(p: &str) -> (r: bool)
    ensures
        r == is_excluded(p@),
{
    let list: Vec<String> = components_of(p);
    let ghost all = path::components(p@);
    let mut i: usize = 0;
    while i < list.len()
        invariant
            i <= list@.len(),
            all == path::components(p@),
            all == text::texts(list@),
            forall|j: int| 0 <= j < i ==> !is_excluded_name(#[trigger] all[j]),
        decreases list@.len() - i,
    {
        assert(all[i as int] == list@[i as int]@);
        if same_text(list[i].as_str(), ".git") || same_text(list[i].as_str(), ".gocode") {
            assert(is_excluded_name(path::components(p@)[i as int]));
            return true;
        }
        i = i + 1;
    }
    false
}

/// Walked entries over plain values.
pub open spec fn walked(v: Seq<WalkedEntry>) -> Seq<(Seq<char>, bool)> {
    Seq::new(v.len(), |i: int| (v[i].path@, v[i].is_dir))
}

/// Listed entries over plain values.
pub open spec fn listed(v: Seq<DiscoveredEntry>) -> Seq<(Seq<char>, bool)> {
    Seq::new(v.len(), |i: int| (v[i].relative_path@, v[i].is_dir))
}

/// Whether a walked entry is listed.
pub open spec fn is_listed(start: Seq<char>, e: (Seq<char>, bool)) -> bool {
    !path::is_same(e.0, start) && !is_excluded(e.0)
}

/// The entries of a walk that are listed, in the order of the walk, until there are `limit` of them.
/// One is always taken.
pub open spec fn collected(
    site: path::Site,
    start: Seq<char>,
    walk: Seq<(Seq<char>, bool)>,
    limit: nat,
) -> Seq<(Seq<char>, bool)>
    decreases walk.len(),
{
    if walk.len() == 0 {
        Seq::empty()
    } else {
        let so_far = collected(site, start, walk.drop_last(), limit);
        let e = walk.last();
        if !is_listed(start, e) || (so_far.len() > 0 && so_far.len() >= limit) {
            so_far
        } else {
            so_far.push((path::relative(site.canonical, path::led(site.links, e.0, 0)), e.1))
        }
    }
}

/// How many entries of a walk could be listed.
pub open spec fn listable(start: Seq<char>, walk: Seq<(Seq<char>, bool)>) -> nat
    decreases walk.len(),
{
    if walk.len() == 0 {
        0
    } else {
        listable(start, walk.drop_last()) + (if is_listed(start, walk.last()) {
            1nat
        } else {
            0nat
        })
    }
}

/// Counts the entries of a walk that could be listed.
pub fn count_listable(start: &str, walk: &Vec<WalkedEntry>) -> (r: usize)
    ensures
        r == listable(start@, walked(walk@)),
{
    let ghost all = walked(walk@);
    let mut n: usize = 0;
    let mut i: usize = 0;
    assert(all.take(0) =~= Seq::empty());
    while i < walk.len()
        invariant
            i <= walk@.len(),
            n <= i,
            all == walked(walk@),
            n == listable(start@, all.take(i as int)),
        decreases walk@.len() - i,
    {
        proof {
            assert(all[i as int] == (walk@[i as int].path@, walk@[i as int].is_dir));
            assert(all.take(i + 1).drop_last() =~= all.take(i as int));
            assert(all.take(i + 1).last() == all[i as int]);
        }
        if !same_path(walk[i].path.as_str(), start) && !leads_through_excluded(
            walk[i].path.as_str(),
        ) {
            n = n + 1;
        }
        i = i + 1;
    }
    assert(all.take(i as int) =~= all);
    n
}

/// The path of an entry.
pub open spec fn entry_key() -> spec_fn((Seq<char>, bool)) -> Seq<char> {
    |e: (Seq<char>, bool)| e.0
}

/// The listing that a walk makes, sorted by path.
pub open spec fn listing(
    site: path::Site,
    start: Seq<char>,
    walk: Seq<(Seq<char>, bool)>,
    limit: nat,
) -> Seq<(Seq<char>, bool)> {
    sorting::in_order(collected(site, start, walk, limit), entry_key())
}

/// Inserts an entry into a sorted listing.
fn insert_entry(list: &mut Vec<DiscoveredEntry>, entry: DiscoveredEntry)
    ensures
        listed(final(list)@) == sorting::inserted(
            listed(old(list)@),
            entry_key(),
            (entry.relative_path@, entry.is_dir),
        ),
{
    let ghost before = listed(list@);
    let ghost item = (entry.relative_path@, entry.is_dir);
    let mut at: usize = list.len();
    while at > 0 && comes_before(
        entry.relative_path.as_str(),
        list[at - 1].relative_path.as_str(),
    )
        invariant
            at <= list@.len(),
            before == listed(list@),
            item == (entry.relative_path@, entry.is_dir),
            forall|j: int|
                at <= j < before.len() ==> sorting::before(
                    entry_key()(item),
                    entry_key()(#[trigger] before[j]),
                ),
        decreases at,
    {
        assert(before[at - 1].0 == list@[at - 1].relative_path@);
        at = at - 1;
    }
    proof {
        if at > 0 {
            assert(before[at - 1].0 == list@[at - 1].relative_path@);
        }
        sorting::lemma_insertion_point(before, entry_key(), item, at as int);
    }
    list.insert(at, entry);
    assert(listed(list@) =~= before.take(at as int).push(item) + before.skip(at as int));
}

/// Sorts a listing by path.
fn sort_entries(list: Vec<DiscoveredEntry>) -> (r: Vec<DiscoveredEntry>)
    ensures
        listed(r@) == sorting::in_order(listed(list@), entry_key()),
{
    let ghost all = listed(list@);
    let mut rest: Vec<DiscoveredEntry> = list;
    let mut r: Vec<DiscoveredEntry> = Vec::new();
    let ghost mut n: int = 0;
    assert(listed(r@) =~= Seq::empty());
    assert(all.take(0) =~= Seq::empty());
    assert(all.skip(0) =~= all);
    while rest.len() > 0
        invariant
            0 <= n <= all.len(),
            listed(rest@) == all.skip(n),
            listed(r@) == sorting::in_order(all.take(n), entry_key()),
        decreases rest@.len(),
    {
        let ghost before = rest@;
        let entry: DiscoveredEntry = rest.remove(0);
        proof {
            assert(listed(before).len() == before.len());
            assert(listed(before)[0] == all.skip(n)[0]);
            assert(listed(rest@) =~= listed(before).skip(1));
            assert(all.skip(n).skip(1) =~= all.skip(n + 1));
            assert(all.take(n + 1).drop_last() =~= all.take(n));
            n = n + 1;
        }
        insert_entry(&mut r, entry);
    }
    assert(listed(rest@).len() == rest@.len());
    assert(all.take(n) =~= all);
    r
}

/// Makes the listing of a walk below a start. Entries below a directory that is never listed are
/// left out, and the walk ends when there are `limit` entries.
pub fn list_walk(
    workspace: &Workspace,
    start: &str,
    walk: &Vec<WalkedEntry>,
    limit: usize,
) -> (r: Vec<DiscoveredEntry>)
    ensures
        listed(r@) == listing(workspace@, start@, walked(walk@), limit as nat),
{
    let ghost all = walked(walk@);
    let mut found: Vec<DiscoveredEntry> = Vec::new();
    let mut i: usize = 0;
    assert(listed(found@) =~= Seq::empty());
    assert(all.take(0) =~= Seq::empty());
    while i < walk.len()
        invariant
            i <= walk@.len(),
            all == walked(walk@),
            listed(found@) == collected(workspace@, start@, all.take(i as int), limit as nat),
        decreases walk@.len() - i,
    {
        let e: &WalkedEntry = &walk[i];
        proof {
            assert(all[i as int] == (e.path@, e.is_dir));
            assert(all.take(i + 1).drop_last() =~= all.take(i as int));
            assert(all.take(i + 1).last() == all[i as int]);
            assert(listed(found@).len() == found@.len());
        }
        if found.len() > 0 && found.len() >= limit {
            proof {
                lemma_full_stays(workspace@, start@, all, limit as nat, i as int);
            }
            return sort_entries(found);
        }
        if !same_path(e.path.as_str(), start) && !leads_through_excluded(e.path.as_str()) {
            let ghost before = listed(found@);
            let target: String = workspace.follow(e.path.as_str());
            let entry: DiscoveredEntry = DiscoveredEntry {
                relative_path: to_workspace_relative(
                    workspace.canonical.as_str(),
                    target.as_str(),
                ),
                is_dir: e.is_dir,
            };
            let ghost own = (entry.relative_path@, entry.is_dir);
            found.push(entry);
            assert(listed(found@) =~= before.push(own));
        }
        i = i + 1;
    }
    assert(all.take(i as int) =~= all);
    sort_entries(found)
}

proof fn lemma_full_stays(
    site: path::Site,
    start: Seq<char>,
    walk: Seq<(Seq<char>, bool)>,
    limit: nat,
    n: int,
)
    requires
        0 <= n <= walk.len(),
        collected(site, start, walk.take(n), limit).len() > 0,
        collected(site, start, walk.take(n), limit).len() >= limit,
    ensures
        collected(site, start, walk, limit) == collected(site, start, walk.take(n), limit),
    decreases walk.len() - n,
{
    if n < walk.len() {
        assert(walk.take(n + 1).drop_last() =~= walk.take(n));
        lemma_full_stays(site, start, walk, limit, n + 1);
    } else {
        assert(walk.take(n) =~= walk);
    }
}

/// The start of a listing, or why there is none.
pub open spec fn listing_start(
    site: path::Site,
    start: Seq<char>,
    exists_at: bool,
) -> Result<Seq<char>, Failure> {
    match path::resolution(site, start) {
        Ok(p) => if exists_at {
            Ok(p)
        } else {
            Err(Failure { kind: FailureKind::NotFound, text: p })
        },
        Err(e) => Err(e),
    }
}

/// Lists the workspace below a start, from what a walk met there. `exists_at` says whether the start
/// is there at all.
pub fn discover(
    workspace: &Workspace,
    start: &str,
    exists_at: bool,
    walk: &Vec<WalkedEntry>,
    limit: usize,
) -> (r: Result<Vec<DiscoveredEntry>, ToolError>)
    ensures
        match listing_start(workspace@, start@, exists_at) {
            Ok(p) => r matches Ok(v) && listed(v@) == listing(
                workspace@,
                p,
                walked(walk@),
                limit as nat,
            ),
            Err(e) => r matches Err(f) && f@ == e,
        },
{
    match path::resolve_workspace_path(workspace, start) {
        Ok(p) => {
            if !exists_at {
                return Err(ToolError::NotFound(p));
            }
            Ok(list_walk(workspace, p.as_str(), walk, limit))
        },
        Err(e) => Err(e),
    }
}

proof fn lemma_collected_is_bounded(
    site: path::Site,
    start: Seq<char>,
    walk: Seq<(Seq<char>, bool)>,
    limit: nat,
)
    ensures
        collected(site, start, walk, limit).len() <= limit || collected(
            site,
            start,
            walk,
            limit,
        ).len() == 1,
        collected(site, start, walk, limit).len() <= listable(start, walk),
        collected(site, start, walk, limit).len() < listable(start, walk) ==> collected(
            site,
            start,
            walk,
            limit,
        ).len() >= limit,
    decreases walk.len(),
{
    if walk.len() > 0 {
        lemma_collected_is_bounded(site, start, walk.drop_last(), limit);
    }
}

/// A listing is sorted, and holds no more entries than asked for, except that one is always taken. It
/// leaves out an entry that could be listed only where it is full.
pub proof fn law_a_listing_is_sorted_and_bounded(
    site: path::Site,
    start: Seq<char>,
    walk: Seq<(Seq<char>, bool)>,
    limit: nat,
)
    ensures
        sorting::is_in_order(listing(site, start, walk, limit), entry_key()),
        listing(site, start, walk, limit).len() <= limit || listing(
            site,
            start,
            walk,
            limit,
        ).len() == 1,
        listing(site, start, walk, limit).len() <= listable(start, walk),
        listing(site, start, walk, limit).len() < listable(start, walk) ==> listing(
            site,
            start,
            walk,
            limit,
        ).len() >= limit,
{
    sorting::law_sorting_orders(collected(site, start, walk, limit), entry_key());
    lemma_collected_is_bounded(site, start, walk, limit);
}

/// Whether content looks binary: a zero byte is among its first bytes.
pub open spec fn is_binary(content: Seq<u8>) -> bool {
    exists|i: int| 0 <= i < content.len() && i < BINARY_SNIFF_LEN && #[trigger] content[i] == 0
}

/// Tells whether content looks binary.
#[must_use]
pub fn looks_binary(content: &[u8]) -> (r: bool)
    ensures
        r == is_binary(content@),
{
    let mut i: usize = 0;
    while i < content.len() && i < BINARY_SNIFF_LEN
        invariant
            i <= content@.len(),
            i <= BINARY_SNIFF_LEN,
            forall|j: int| 0 <= j < i ==> content@[j] != 0,
        decreases content@.len() - i,
    {
        if content[i] == 0 {
            return true;
        }
        i = i + 1;
    }
    false
}

/// How a file is replaced as a whole: it is written under another name beside it and then renamed.
#[derive(Debug, PartialEq, Eq)]
pub struct WritePlan {
    /// The directory that has to be there first.
    pub parent: Option<String>,
    /// The other name.
    pub temp_path: String,
}

/// The name under which a file is written first.
pub open spec fn temp_name(file_name: Seq<char>, process: u32, nonce: Seq<char>) -> Seq<char> {
    "."@ + file_name + "."@ + text::decimal(process as nat) + "-"@ + nonce + ".tmp"@
}

/// Says how a file is replaced as a whole. The number of the process and a nonce keep the names of
/// two writers apart.
pub fn plan_write(p: &str, process: u32, nonce: &str) -> (r: Result<WritePlan, ToolError>)
    ensures
        match (path::file_name(p@), r) {
            (Some(name), Ok(plan)) => {
                let parent = path::parent(p@);
                &&& text::opt_text(plan.parent) == (match parent {
                    Some(d) => if d.len() > 0 {
                        Some(d)
                    } else {
                        None
                    },
                    None => None,
                })
                &&& plan.temp_path@ == (match parent {
                    Some(d) => path::joined(d, temp_name(name, process, nonce@)),
                    None => temp_name(name, process, nonce@),
                })
            },
            (None, Err(e)) => e@ == (Failure {
                kind: FailureKind::Io,
                text: p@ + " has no file name"@,
            }),
            _ => false,
        },
{
    let name: String = match file_name_of(p) {
        Some(n) => n,
        None => {
            return Err(ToolError::Io(cat2(p, " has no file name")));
        },
    };
    let id: String = number(process as u64);
    let front: String = cat5(".", name.as_str(), ".", id.as_str(), "-");
    let own: String = text::cat3(front.as_str(), nonce, ".tmp");
    assert(own@ =~= temp_name(name@, process, nonce@));
    match parent_of(p) {
        Some(d) => {
            let temp_path: String = join_path(d.as_str(), own.as_str());
            if d.as_str().is_empty() {
                Ok(WritePlan { parent: None, temp_path })
            } else {
                Ok(WritePlan { parent: Some(d), temp_path })
            }
        },
        None => Ok(WritePlan { parent: None, temp_path: own }),
    }
}

/// What is listed of a walked entry.
pub open spec fn as_listed(site: path::Site, e: (Seq<char>, bool)) -> (Seq<char>, bool) {
    (path::relative(site.canonical, path::led(site.links, e.0, 0)), e.1)
}

proof fn lemma_collected_holds(
    site: path::Site,
    start: Seq<char>,
    walk: Seq<(Seq<char>, bool)>,
    limit: nat,
)
    ensures
        collected(site, start, walk, limit).len() <= walk.len(),
        walk.len() <= limit ==> forall|i: int|
            0 <= i < walk.len() && is_listed(start, #[trigger] walk[i]) ==> collected(
                site,
                start,
                walk,
                limit,
            ).contains(as_listed(site, walk[i])),
        forall|k: int|
            0 <= k < collected(site, start, walk, limit).len() ==> exists|i: int|
                0 <= i < walk.len() && is_listed(start, #[trigger] walk[i]) && as_listed(site, walk[i])
                    == #[trigger] collected(site, start, walk, limit)[k],
    decreases walk.len(),
{
    if walk.len() > 0 {
        let some = walk.drop_last();
        lemma_collected_holds(site, start, some, limit);
        let before = collected(site, start, some, limit);
        let after = collected(site, start, walk, limit);
        assert forall|i: int| walk.len() <= limit && 0 <= i < walk.len() && is_listed(
            start,
            #[trigger] walk[i],
        ) implies after.contains(as_listed(site, walk[i])) by {
            if i < some.len() {
                assert(some[i] == walk[i]);
                let k = choose|k: int| 0 <= k < before.len() && before[k] == as_listed(site, walk[i]);
                assert(after[k] == before[k]);
            } else {
                assert(after[before.len() as int] == as_listed(site, walk[i]));
            }
        }
        assert forall|k: int| 0 <= k < after.len() implies exists|i: int|
            0 <= i < walk.len() && is_listed(start, #[trigger] walk[i]) && as_listed(site, walk[i])
                == #[trigger] after[k] by {
            if k < before.len() {
                let i = choose|i: int|
                    0 <= i < some.len() && is_listed(start, #[trigger] some[i]) && as_listed(
                        site,
                        some[i],
                    ) == before[k];
                assert(walk[i] == some[i]);
            } else {
                assert(is_listed(start, walk[walk.len() - 1]));
            }
        }
    }
}

/// A listing with room enough holds everything that a walk met, by its path below the root, but for the
/// start of the walk and what lies in a directory that is never listed; and it holds nothing else.
pub proof fn law_a_listing_holds_what_the_walk_met(
    site: path::Site,
    start: Seq<char>,
    walk: Seq<(Seq<char>, bool)>,
    limit: nat,
    i: int,
    e: (Seq<char>, bool),
)
    ensures
        walk.len() <= limit && 0 <= i < walk.len() && !path::is_same(walk[i].0, start)
            && !is_excluded(walk[i].0) ==> listing(site, start, walk, limit).contains(
            (path::relative(site.canonical, path::led(site.links, walk[i].0, 0)), walk[i].1),
        ),
        listing(site, start, walk, limit).contains(e) ==> exists|j: int|
            0 <= j < walk.len() && !path::is_same(walk[j].0, start) && !is_excluded(walk[j].0) && e
                == as_listed(site, #[trigger] walk[j]),
{
    broadcast use vstd::seq_lib::group_to_multiset_ensures;

    let all = collected(site, start, walk, limit);
    lemma_collected_holds(site, start, walk, limit);
    sorting::law_sorting_orders(all, entry_key());
    let sorted = listing(site, start, walk, limit);
    if walk.len() <= limit && 0 <= i < walk.len() && is_listed(start, walk[i]) {
        let x = as_listed(site, walk[i]);
        assert(all.contains(x));
        assert(all.to_multiset().count(x) > 0);
        assert(sorted.contains(x));
    }
    if sorted.contains(e) {
        assert(sorted.to_multiset().count(e) > 0);
        assert(all.contains(e));
        let k = choose|k: int| 0 <= k < all.len() && all[k] == e;
        let j = choose|j: int|
            0 <= j < walk.len() && is_listed(start, #[trigger] walk[j]) && as_listed(site, walk[j])
                == all[k];
        assert(as_listed(site, walk[j]) == e);
    }
}

/// What is never listed is a directory named `.git` or `.gocode` and everything in it, wherever it
/// lies; a name in any other directory is listed.
pub proof fn law_two_directories_are_never_listed(directory: Seq<char>, name: Seq<char>)
    requires
        path::is_plain_name(name),
    ensures
        is_excluded(directory + seq!['/'] + name) <==> is_excluded(directory) || name == ".git"@
            || name == ".gocode"@,
        !is_excluded(seq!['/']),
{
    path::lemma_component(directory, name);
    let list = path::components(directory);
    let more = path::components(directory + seq!['/'] + name);
    assert(more == list.push(name));
    if is_excluded(directory) {
        let i = choose|i: int| 0 <= i < list.len() && is_excluded_name(#[trigger] list[i]);
        assert(more[i] == list[i]);
    }
    if is_excluded_name(name) {
        assert(more[list.len() as int] == name);
    }
    if is_excluded(directory + seq!['/'] + name) {
        let i = choose|i: int| 0 <= i < more.len() && is_excluded_name(#[trigger] more[i]);
        if i < list.len() {
            assert(more[i] == list[i]);
        }
    }
    path::lemma_root_has_no_component();
}

/// Content with a zero among its first 8000 bytes looks binary, and other content does not.
pub proof fn law_a_zero_byte_looks_binary(head: Seq<u8>, tail: Seq<u8>)
    requires
        forall|i: int| 0 <= i < head.len() ==> #[trigger] head[i] != 0,
    ensures
        !is_binary(head),
        head.len() < 8000 ==> is_binary(head.push(0) + tail),
        head.len() >= 8000 ==> !is_binary(head + tail),
{
    if head.len() < 8000 {
        assert((head.push(0) + tail)[head.len() as int] == 0);
    } else {
        let all = head + tail;
        assert forall|i: int| 0 <= i < all.len() && i < BINARY_SNIFF_LEN implies #[trigger] all[i]
            != 0 by {
            assert(all[i] == head[i]);
        }
    }
}

/// The name under which a file is written first begins with a dot and its own name and ends in
/// `.tmp`. It is another one for another nonce.
pub proof fn law_two_writers_use_two_names(
    file_name: Seq<char>,
    process: u32,
    a: Seq<char>,
    b: Seq<char>,
)
    requires
        a.len() == b.len(),
        a != b,
    ensures
        temp_name(file_name, process, a) != temp_name(file_name, process, b),
        (seq!['.'] + file_name + seq!['.']).is_prefix_of(temp_name(file_name, process, a)),
        seq!['.', 't', 'm', 'p'].is_suffix_of(temp_name(file_name, process, a)),
{
    reveal_strlit(".");
    reveal_strlit(".tmp");
    reveal_strlit("-");
    assert("."@ =~= seq!['.']);
    assert(".tmp"@ =~= seq!['.', 't', 'm', 'p']);
    let front = "."@ + file_name + "."@ + text::decimal(process as nat) + "-"@;
    let x = temp_name(file_name, process, a);
    let y = temp_name(file_name, process, b);
    let n = front.len() as int;
    assert(x.subrange(n, n + a.len()) =~= a);
    assert(y.subrange(n, n + b.len()) =~= b);
    let begun = seq!['.'] + file_name + seq!['.'];
    assert(x.subrange(0, begun.len() as int) =~= begun);
    assert(x.subrange(x.len() - 4, x.len() as int) =~= seq!['.', 't', 'm', 'p']);
}

} // verus!
