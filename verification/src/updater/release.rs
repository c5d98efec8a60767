//! Releases and the update that is offered.

use vstd::prelude::*;

use crate::text;
use crate::text::{cat4, same_text, trim_start_of};
use crate::updater::version;
use crate::updater::version::Version;
use crate::updater::{
    Fault, UpdateError, CHECKSUM_ASSET, LINUX_ARCHIVE_SUFFIX, RELEASES_URL, WINDOWS_ARCHIVE_SUFFIX,
};

verus! {

/// How the archive of an operating system's release ends, for the systems that are supported.
pub open spec fn suffix_of(os: Seq<char>) -> Option<Seq<char>> {
    if os == "windows"@ {
        Some(WINDOWS_ARCHIVE_SUFFIX@)
    } else if os == "linux"@ {
        Some(LINUX_ARCHIVE_SUFFIX@)
    } else {
        None
    }
}

/// Gives how the archive of an operating system's release ends.
pub fn current_platform_archive_suffix(os: &str) -> (r: Result<&'static str, UpdateError>)
    ensures
        match r {
            Ok(s) => suffix_of(os@) == Some(s@),
            Err(e) => suffix_of(os@) is None && e@ == Fault::UnsupportedPlatform,
        },
{
    if same_text(os, "windows") {
        Ok(WINDOWS_ARCHIVE_SUFFIX)
    } else if same_text(os, "linux") {
        Ok(LINUX_ARCHIVE_SUFFIX)
    } else {
        Err(UpdateError::UnsupportedPlatform)
    }
}

/// A file of a release.
#[derive(Debug, PartialEq, Eq)]
pub struct ReleaseAsset {
    pub name: String,
    pub download_url: String,
}

impl View for ReleaseAsset {
    type V = (Seq<char>, Seq<char>);

    open spec fn view(&self) -> (Seq<char>, Seq<char>) {
        (self.name@, self.download_url@)
    }
}

impl ReleaseAsset {
    /// Copies the asset.
    pub fn copy(&self) -> (r: ReleaseAsset)
        ensures
            r@ == self@,
    {
        ReleaseAsset { name: self.name.clone(), download_url: self.download_url.clone() }
    }
}

/// A release.
#[derive(Debug, PartialEq, Eq)]
pub struct ReleaseInfo {
    pub version: Version,
    pub notes: String,
    pub assets: Vec<ReleaseAsset>,
}

/// An update that can be installed.
#[derive(Debug, PartialEq, Eq)]
pub struct UpdateInfo {
    pub version: Version,
    pub notes: String,
    pub archive: ReleaseAsset,
    pub checksums: ReleaseAsset,
}

/// The versions of releases.
pub open spec fn versions(list: Seq<ReleaseInfo>) -> Seq<Seq<char>> {
    Seq::new(list.len(), |i: int| list[i].version@)
}

/// The newest of the first `n` versions that are newer than the current one, or -1. Of equal ones
/// it is the last.
pub open spec fn newest(current: Seq<char>, list: Seq<Seq<char>>, n: int) -> int
    decreases n,
{
    if n <= 0 {
        -1
    } else {
        let best = newest(current, list, n - 1);
        if !version::is_newer(list[n - 1], current) {
            best
        } else if best < 0 || !version::is_newer(list[best], list[n - 1]) {
            n - 1
        } else {
            best
        }
    }
}

/// Whether no other version is newer.
pub open spec fn is_newest(list: Seq<Seq<char>>, n: int) -> bool {
    forall|j: int|
        0 <= j < list.len() && j != n ==> !version::is_newer(#[trigger] list[j], list[n])
}

/// The first asset at or after `i` with a name, or -1.
pub open spec fn asset_row(list: Seq<ReleaseAsset>, name: Seq<char>, i: int) -> int
    decreases list.len() - i,
{
    if i >= list.len() {
        -1
    } else if list[i].name@ == name {
        i
    } else {
        asset_row(list, name, i + 1)
    }
}

/// Finds an asset by its name.
fn find_asset(list: &Vec<ReleaseAsset>, name: &str) -> (r: Option<ReleaseAsset>)
    ensures
        ({
            let i = asset_row(list@, name@, 0);
            match r {
                Some(a) => 0 <= i < list@.len() && a@ == list@[i]@,
                None => i < 0,
            }
        }),
{
    let mut i: usize = 0;
    while i < list.len()
        invariant
            i <= list@.len(),
            asset_row(list@, name@, 0) == asset_row(list@, name@, i as int),
        decreases list@.len() - i,
    {
        if same_text(list[i].name.as_str(), name) {
            return Some(list[i].copy());
        }
        i = i + 1;
    }
    None
}

/// The name of a release's archive.
pub open spec fn archive_name(release: Seq<char>, suffix: Seq<char>) -> Seq<char> {
    "gocode-"@ + release + "-"@ + suffix
}

/// Whether an offer is the one that a release makes: its archive and its checksums, if it has both.
pub open spec fn is_offer_of(
    offer: Option<UpdateInfo>,
    release: ReleaseInfo,
    suffix: Seq<char>,
) -> bool {
    let archive = asset_row(release.assets@, archive_name(release.version@, suffix), 0);
    let checksums = asset_row(release.assets@, CHECKSUM_ASSET@, 0);
    match offer {
        Some(u) => {
            &&& archive >= 0
            &&& checksums >= 0
            &&& u.version@ == release.version@
            &&& u.notes@ == release.notes@
            &&& u.archive@ == release.assets@[archive]@
            &&& u.checksums@ == release.assets@[checksums]@
        },
        None => archive < 0 || checksums < 0,
    }
}

/// Makes the offer of a release.
fn offer_of(release: &ReleaseInfo, suffix: &str) -> (r: Option<UpdateInfo>)
    ensures
        is_offer_of(r, *release, suffix@),
{
    let name: String = cat4("gocode-", release.version.as_str(), "-", suffix);
    match find_asset(&release.assets, name.as_str()) {
        Some(archive) => match find_asset(&release.assets, CHECKSUM_ASSET) {
            Some(checksums) => Some(
                UpdateInfo {
                    version: release.version.copy(),
                    notes: release.notes.clone(),
                    archive,
                    checksums,
                },
            ),
            None => None,
        },
        None => None,
    }
}

/// Finds the newest of the releases that are newer than the current version.
fn find_newest(current: &Version, releases: &Vec<ReleaseInfo>) -> (r: Option<usize>)
    ensures
        ({
            let all = versions(releases@);
            let n = newest(current@, all, all.len() as int);
            match r {
                Some(i) => n == i && i < releases@.len() && version::is_newer(all[n], current@)
                    && is_newest(all, n),
                None => n < 0,
            }
        }),
{
    let ghost all = versions(releases@);
    let mut best: Option<usize> = None;
    let mut i: usize = 0;
    while i < releases.len()
        invariant
            i <= releases@.len(),
            all == versions(releases@),
            forall|j: int| 0 <= j < i ==> version::is_version(#[trigger] all[j]),
            match best {
                Some(b) => newest(current@, all, i as int) == b && b < i && version::is_newer(
                    all[b as int],
                    current@,
                ) && (forall|j: int|
                    0 <= j < i && j != b ==> !version::is_newer(#[trigger] all[j], all[b as int]))
                    && (forall|c: Seq<char>|
                    version::is_version(c) && !version::is_newer(c, current@)
                        ==> !#[trigger] version::is_newer(c, all[b as int])),
                None => newest(current@, all, i as int) < 0 && forall|j: int|
                    0 <= j < i ==> !version::is_newer(#[trigger] all[j], current@),
            },
        decreases releases@.len() - i,
    {
        let own: &Version = &releases[i].version;
        assert(all[i as int] == own@);
        let newer: bool = own.newer_than(current);
        if newer {
            match best {
                Some(b) => {
                    assert(all[b as int] == releases@[b as int].version@);
                    if !releases[b].version.newer_than(own) {
                        best = Some(i);
                    }
                },
                None => {
                    best = Some(i);
                },
            }
        }
        i = i + 1;
    }
    best
}

/// Whether an offer is the one that releases make: that of the newest of those that are newer than
/// the current version.
pub open spec fn is_offer(
    offer: Option<UpdateInfo>,
    current: Seq<char>,
    releases: Seq<ReleaseInfo>,
    suffix: Seq<char>,
) -> bool {
    let n = newest(current, versions(releases), releases.len() as int);
    if n < 0 {
        offer is None
    } else {
        is_offer_of(offer, releases[n], suffix)
    }
}

/// Offers the newest of the releases that are newer than the current version, if it has an archive
/// with the given suffix and checksums. What is offered is newer than the current version, and no
/// other release is newer.
#[must_use]
pub fn available_update(
    current: &Version,
    releases: &Vec<ReleaseInfo>,
    archive_suffix: &str,
) -> (r: Option<UpdateInfo>)
    ensures
        is_offer(r, current@, releases@, archive_suffix@),
        r matches Some(u) ==> {
            &&& version::is_newer(u.version@, current@)
            &&& exists|n: int|
                0 <= n < releases@.len() && (#[trigger] versions(releases@)[n]) == u.version@
                    && is_newest(versions(releases@), n)
        },
{
    match find_newest(current, releases) {
        Some(i) => {
            assert(versions(releases@)[i as int] == releases@[i as int].version@);
            offer_of(&releases[i], archive_suffix)
        },
        None => None,
    }
}

/// A release as it is published.
#[derive(Debug, PartialEq, Eq)]
pub struct PublishedRelease {
    pub tag_name: String,
    pub body: Option<String>,
    pub draft: bool,
    pub prerelease: bool,
    pub assets: Vec<ReleaseAsset>,
}

/// The version that a tag stands for, or why there is none.
pub open spec fn tag_version(tag: Seq<char>) -> Result<Seq<char>, Seq<char>> {
    version::version_text(text::trimmed_start_of(tag, 'v'))
}

/// Whether a release is what a published one gives, or the error what is wrong with it.
pub open spec fn is_release_of(
    r: Result<ReleaseInfo, UpdateError>,
    published: PublishedRelease,
    parsed: Result<Seq<char>, Seq<char>>,
) -> bool {
    match parsed {
        Ok(v) => {
            &&& r matches Ok(release)
            &&& release.version@ == v
            &&& release.notes@ == (match published.body {
                Some(b) => b@,
                None => Seq::empty(),
            })
            &&& release.assets == published.assets
        },
        Err(e) => r matches Err(f) && f@ == Fault::InvalidRelease(
            "invalid release tag "@ + published.tag_name@ + ": "@ + e,
        ),
    }
}

/// Puts a release together from what its tag was parsed to.
pub fn assemble_release(published: PublishedRelease, parsed: Result<Version, String>) -> (r: Result<
    ReleaseInfo,
    UpdateError,
>)
    ensures
        is_release_of(
            r,
            published,
            match parsed {
                Ok(v) => Ok(v@),
                Err(e) => Err(e@),
            },
        ),
{
    match parsed {
        Ok(version) => {
            let notes: String = match published.body {
                Some(b) => b,
                None => {
                    let none: String = String::new();
                    assert(none@ =~= Seq::empty());
                    none
                },
            };
            Ok(ReleaseInfo { version, notes, assets: published.assets })
        },
        Err(e) => Err(
            UpdateError::InvalidRelease(
                cat4("invalid release tag ", published.tag_name.as_str(), ": ", e.as_str()),
            ),
        ),
    }
}

/// Reads a published release. Its tag is a version, which may have a `v` before it.
pub fn try_from_published(published: PublishedRelease) -> (r: Result<ReleaseInfo, UpdateError>)
    ensures
        is_release_of(r, published, tag_version(published.tag_name@)),
{
    let bare: String = trim_start_of(published.tag_name.as_str(), 'v');
    let parsed: Result<Version, String> = Version::parse(bare.as_str());
    assemble_release(published, parsed)
}

/// Whether a published release is meant for everyone.
pub open spec fn is_stable(r: PublishedRelease) -> bool {
    !r.draft && !r.prerelease
}

/// The published releases that are meant for everyone.
pub open spec fn stable(list: Seq<PublishedRelease>) -> Seq<PublishedRelease> {
    list.filter(|r: PublishedRelease| is_stable(r))
}

/// The first release at or after `i` whose tag is no version, or the end.
pub open spec fn first_bad(list: Seq<PublishedRelease>, i: int) -> int
    decreases list.len() - i,
{
    if i >= list.len() || tag_version(list[i].tag_name@) is Err {
        i
    } else {
        first_bad(list, i + 1)
    }
}

/// Reads the published releases that are meant for everyone, in order. The first tag that is no
/// version is an error.
pub fn stable_releases(list: Vec<PublishedRelease>) -> (r: Result<Vec<ReleaseInfo>, UpdateError>)
    ensures
        ({
            let kept = stable(list@);
            let n = first_bad(kept, 0);
            if n < kept.len() {
                r matches Err(e) && is_release_of(
                    Err(e),
                    kept[n],
                    tag_version(kept[n].tag_name@),
                )
            } else {
                &&& r matches Ok(v)
                &&& v@.len() == kept.len()
                &&& forall|i: int|
                    0 <= i < kept.len() ==> is_release_of(
                        Ok(#[trigger] v@[i]),
                        kept[i],
                        tag_version(kept[i].tag_name@),
                    )
            }
        }),
{
    let ghost all = list@;
    let ghost kept = stable(all);
    let ghost keep = |r: PublishedRelease| is_stable(r);
    let mut rest: Vec<PublishedRelease> = list;
    let mut out: Vec<ReleaseInfo> = Vec::new();
    let ghost mut n: int = 0;
    assert(all.skip(0) =~= all);
    assert(all.take(0) =~= Seq::empty());
    assert(all.take(0).filter(keep) =~= Seq::empty()) by {
        reveal(Seq::filter);
    }
    while rest.len() > 0
        invariant
            0 <= n <= all.len(),
            rest@ == all.skip(n),
            keep == (|r: PublishedRelease| is_stable(r)),
            kept == all.filter(keep),
            kept == stable(all),
            all == list@,
            out@.len() == all.take(n).filter(keep).len(),
            all.take(n).filter(keep).len() <= kept.len(),
            all.take(n).filter(keep) == kept.take(all.take(n).filter(keep).len() as int),
            first_bad(kept, 0) == first_bad(kept, out@.len() as int),
            forall|i: int|
                0 <= i < out@.len() ==> is_release_of(
                    Ok(#[trigger] out@[i]),
                    kept[i],
                    tag_version(kept[i].tag_name@),
                ),
        decreases rest@.len(),
    {
        let ghost before = all.take(n).filter(keep);
        let published: PublishedRelease = rest.remove(0);
        proof {
            assert(published == all[n]);
            assert(rest@ =~= all.skip(n + 1));
            assert(all.take(n + 1) =~= all.take(n).push(all[n]));
            lemma_filter_push(all.take(n), all[n], keep);
            lemma_filter_prefix(all, n + 1, keep);
            lemma_filter_prefix(all, n, keep);
        }
        let ghost after = all.take(n + 1).filter(keep);
        if !published.draft && !published.prerelease {
            proof {
                assert(after == before.push(published));
                assert(kept[out@.len() as int] == after[out@.len() as int]);
            }
            match try_from_published(published) {
                Ok(release) => {
                    out.push(release);
                },
                Err(e) => {
                    return Err(e);
                },
            }
        }
        proof {
            n = n + 1;
        }
    }
    assert(all.take(n) =~= all);
    Ok(out)
}

proof fn lemma_filter_push(
    s: Seq<PublishedRelease>,
    x: PublishedRelease,
    keep: spec_fn(PublishedRelease) -> bool,
)
    ensures
        s.push(x).filter(keep) == (if keep(x) {
            s.filter(keep).push(x)
        } else {
            s.filter(keep)
        }),
{
    reveal(Seq::filter);
    assert(s.push(x).drop_last() =~= s);
}

proof fn lemma_filter_prefix(
    s: Seq<PublishedRelease>,
    n: int,
    keep: spec_fn(PublishedRelease) -> bool,
)
    requires
        0 <= n <= s.len(),
    ensures
        s.take(n).filter(keep).len() <= s.filter(keep).len(),
        s.take(n).filter(keep) == s.filter(keep).take(s.take(n).filter(keep).len() as int),
    decreases s.len() - n,
{
    if n < s.len() {
        lemma_filter_prefix(s, n + 1, keep);
        assert(s.take(n + 1) =~= s.take(n).push(s[n]));
        lemma_filter_push(s.take(n), s[n], keep);
        let a = s.take(n).filter(keep);
        let b = s.take(n + 1).filter(keep);
        assert(a =~= b.take(a.len() as int));
        assert(b.take(a.len() as int) =~= s.filter(keep).take(a.len() as int));
    } else {
        assert(s.take(n) =~= s);
        assert(s.filter(keep).take(s.filter(keep).len() as int) =~= s.filter(keep));
    }
}

/// What `reqwest` makes of a URL: its scheme and the URL as it is written, or why it is none.
pub uninterp spec fn url_parts(url: Seq<char>) -> Result<(Seq<char>, Seq<char>), Seq<char>>;

/// Parses a URL with `reqwest::Url::parse`, and gives its scheme and how it is written. The contract
/// claims no more than that both are functions of the text.
#[verifier::external_body]
fn parse_url(url: &str) -> (r: Result<(String, String), String>)
    ensures
        match r {
            Ok((scheme, written)) => url_parts(url@) == Ok::<
                (Seq<char>, Seq<char>),
                Seq<char>,
            >((scheme@, written@)),
            Err(e) => url_parts(url@) == Err::<(Seq<char>, Seq<char>), Seq<char>>(e@),
        },
{
    match reqwest::Url::parse(url) {
        Ok(parsed) => Ok((parsed.scheme().to_owned(), parsed.as_str().to_owned())),
        Err(error) => Err(error.to_string()),
    }
}

/// Parts of a URL over plain values.
pub open spec fn parts_view(p: Result<(String, String), String>) -> Result<
    (Seq<char>, Seq<char>),
    Seq<char>,
> {
    match p {
        Ok((scheme, written)) => Ok((scheme@, written@)),
        Err(e) => Err(e@),
    }
}

/// The URL that is accepted, or why none is.
pub open spec fn accepted(parts: Result<(Seq<char>, Seq<char>), Seq<char>>) -> Result<
    Seq<char>,
    Fault,
> {
    match parts {
        Ok((scheme, written)) => if scheme == "https"@ {
            Ok(written)
        } else {
            Err(Fault::Network("official updates require HTTPS"@))
        },
        Err(e) => Err(Fault::Network(e)),
    }
}

/// Accepts a parsed URL whose scheme is HTTPS.
pub fn accept_url(parts: Result<(String, String), String>) -> (r: Result<String, UpdateError>)
    ensures
        match accepted(parts_view(parts)) {
            Ok(written) => r matches Ok(u) && u@ == written,
            Err(e) => r matches Err(f) && f@ == e,
        },
{
    match parts {
        Ok((scheme, written)) => {
            if same_text(scheme.as_str(), "https") {
                Ok(written)
            } else {
                Err(UpdateError::Network("official updates require HTTPS".to_owned()))
            }
        },
        Err(e) => Err(UpdateError::Network(e)),
    }
}

/// Accepts a URL whose scheme is HTTPS, before anything is downloaded from it.
pub fn official_download_url(url: &str) -> (r: Result<String, UpdateError>)
    ensures
        match accepted(url_parts(url@)) {
            Ok(written) => r matches Ok(u) && u@ == written,
            Err(e) => r matches Err(f) && f@ == e,
        },
{
    accept_url(parse_url(url))
}

/// Nothing but HTTPS is ever accepted, and every HTTPS URL is.
pub proof fn law_updates_come_over_https(parts: Result<(Seq<char>, Seq<char>), Seq<char>>)
    ensures
        accepted(parts) is Ok <==> (parts matches Ok(p) && p.0 == "https"@),
        accepted(parts) matches Ok(written) ==> (parts matches Ok(p) && p.1 == written),
{
}

/// Where releases are listed.
#[derive(Debug, PartialEq, Eq)]
pub struct GitHubReleaseSource {
    pub endpoint: String,
}

impl GitHubReleaseSource {
    /// The list of the official releases.
    pub fn new() -> (r: Result<GitHubReleaseSource, UpdateError>)
        ensures
            match accepted(url_parts(RELEASES_URL@)) {
                Ok(written) => r matches Ok(s) && s.endpoint@ == written,
                Err(e) => r matches Err(f) && f@ == e,
            },
    {
        GitHubReleaseSource::with_endpoint(RELEASES_URL)
    }

    /// The list at an endpoint, which must be HTTPS.
    pub fn with_endpoint(endpoint: &str) -> (r: Result<GitHubReleaseSource, UpdateError>)
        ensures
            match accepted(url_parts(endpoint@)) {
                Ok(written) => r matches Ok(s) && s.endpoint@ == written,
                Err(e) => r matches Err(f) && f@ == e,
            },
    {
        match official_download_url(endpoint) {
            Ok(u) => Ok(GitHubReleaseSource { endpoint: u }),
            Err(e) => Err(e),
        }
    }
}

/// A tag stands for the version that it writes, with a `v` before it or without.
pub proof fn law_a_tag_may_begin_with_a_v(version: Seq<char>)
    requires
        version.len() > 0,
        version[0] != 'v',
    ensures
        tag_version(version) == version::version_text(version),
        tag_version(seq!['v'] + version) == version::version_text(version),
{
    assert((seq!['v'] + version).skip(1) =~= version);
}

/// A version is chosen where one is newer than the current one, and only then; the chosen one is
/// newer than the current one.
pub proof fn law_an_update_is_newer(current: Seq<char>, list: Seq<Seq<char>>, n: int)
    requires
        0 <= n <= list.len(),
    ensures
        newest(current, list, n) < 0 <==> (forall|j: int|
            0 <= j < n ==> !version::is_newer(#[trigger] list[j], current)),
        newest(current, list, n) >= 0 ==> newest(current, list, n) < n && version::is_newer(
            list[newest(current, list, n)],
            current,
        ),
    decreases n,
{
    if n > 0 {
        law_an_update_is_newer(current, list, n - 1);
        if newest(current, list, n - 1) < 0 && !version::is_newer(list[n - 1], current) {
            assert forall|j: int| 0 <= j < n implies !version::is_newer(
                #[trigger] list[j],
                current,
            ) by {}
        }
        if version::is_newer(list[n - 1], current) {
            assert(!(forall|j: int| 0 <= j < n ==> !version::is_newer(#[trigger] list[j], current)));
        }
    }
}

/// Of the published releases, in their order, those are kept that are neither a draft nor marked as
/// preliminary.
pub proof fn law_drafts_and_previews_are_left_out(
    list: Seq<PublishedRelease>,
    next: PublishedRelease,
)
    ensures
        stable(Seq::empty()).len() == 0,
        stable(list.push(next)) == (if next.draft || next.prerelease {
            stable(list)
        } else {
            stable(list).push(next)
        }),
{
    let keep = |r: PublishedRelease| is_stable(r);
    reveal(Seq::filter);
    assert(list.push(next).drop_last() =~= list);
}

proof fn lemma_asset_row(list: Seq<ReleaseAsset>, name: Seq<char>, i: int)
    requires
        0 <= i <= list.len(),
    ensures
        ({
            let r = asset_row(list, name, i);
            &&& r < 0 <==> (forall|j: int| i <= j < list.len() ==> (#[trigger] list[j]).name@ != name)
            &&& r >= 0 ==> i <= r < list.len() && list[r].name@ == name && forall|j: int|
                i <= j < r ==> (#[trigger] list[j]).name@ != name
        }),
    decreases list.len() - i,
{
    if i < list.len() && list[i].name@ != name {
        lemma_asset_row(list, name, i + 1);
    }
}

/// A release is offered where it has both an archive for the system and the checksums, and only
/// then. What is offered is the first file of that name: the archive's is made of the name of the
/// application, the version and the ending, with hyphens between.
pub proof fn law_an_offer_has_an_archive_and_checksums(
    offer: Option<UpdateInfo>,
    release: ReleaseInfo,
    suffix: Seq<char>,
)
    requires
        is_offer_of(offer, release, suffix),
    ensures
        ({
            let archive = "gocode-"@ + release.version@ + seq!['-'] + suffix;
            let sums = "SHA256SUMS"@;
            let list = release.assets@;
            &&& offer is Some <==> {
                &&& exists|j: int| 0 <= j < list.len() && (#[trigger] list[j]).name@ == archive
                &&& exists|j: int| 0 <= j < list.len() && (#[trigger] list[j]).name@ == sums
            }
            &&& offer matches Some(u) ==> {
                &&& u.version@ == release.version@
                &&& u.notes@ == release.notes@
                &&& u.archive.name@ == archive
                &&& u.checksums.name@ == sums
                &&& exists|j: int|
                    0 <= j < list.len() && (#[trigger] list[j])@ == u.archive@ && forall|k: int|
                        0 <= k < j ==> (#[trigger] list[k]).name@ != archive
                &&& exists|j: int|
                    0 <= j < list.len() && (#[trigger] list[j])@ == u.checksums@ && forall|k: int|
                        0 <= k < j ==> (#[trigger] list[k]).name@ != sums
            }
        }),
{
    reveal_strlit("-");
    let archive = "gocode-"@ + release.version@ + seq!['-'] + suffix;
    let sums = "SHA256SUMS"@;
    let list = release.assets@;
    assert("-"@ =~= seq!['-']);
    assert(archive_name(release.version@, suffix) =~= archive);
    lemma_asset_row(list, archive, 0);
    lemma_asset_row(list, sums, 0);
    let a = asset_row(list, archive, 0);
    let s = asset_row(list, sums, 0);
    if offer is Some {
        assert(list[a]@ == offer->0.archive@);
        assert(list[s]@ == offer->0.checksums@);
    }
}

} // verus!
