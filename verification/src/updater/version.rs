//! Semantic versions.

use vstd::prelude::*;

verus! {

/// What `semver` makes of a text: the version as it is written, or why there is none.
pub uninterp spec fn version_text(text: Seq<char>) -> Result<Seq<char>, Seq<char>>;

/// Parses a version with `semver::Version::parse` and writes it with its `Display`. The contract
/// claims that both are functions of the text, and that a version as it is written parses to
/// itself; which texts are versions is left to the crate.
#[verifier::external_body]
fn parse_semver(text: &str) -> (r: Result<String, String>)
    ensures
        match r {
            Ok(s) => version_text(text@) == Ok::<Seq<char>, Seq<char>>(s@) && version_text(s@)
                == Ok::<Seq<char>, Seq<char>>(s@),
            Err(e) => version_text(text@) == Err::<Seq<char>, Seq<char>>(e@),
        },
{
    match semver::Version::parse(text) {
        Ok(version) => Ok(version.to_string()),
        Err(error) => Err(error.to_string()),
    }
}

/// Whether a text is a version as it is written.
pub open spec fn is_version(text: Seq<char>) -> bool {
    version_text(text) == Ok::<Seq<char>, Seq<char>>(text)
}

/// Whether `semver` puts a version behind another.
pub uninterp spec fn is_newer(a: Seq<char>, b: Seq<char>) -> bool;

/// Compares two versions with `>` of `semver::Version`. The contract claims that the result is a
/// function of the two texts, and that among versions it is a total order: no two are each newer
/// than the other, and what is not newer than the older of two is not newer than the other.
#[verifier::external_body]
fn compare_semver(a: &str, b: &str) -> (r: bool)
    ensures
        r == is_newer(a@, b@),
        r ==> !is_newer(b@, a@),
        !r && is_version(a@) && is_version(b@) ==> forall|c: Seq<char>|
            is_version(c) && !is_newer(c, a@) ==> !#[trigger] is_newer(c, b@),
        r && is_version(a@) && is_version(b@) ==> forall|c: Seq<char>|
            is_version(c) && !is_newer(c, b@) ==> !#[trigger] is_newer(c, a@),
{
    match (semver::Version::parse(a), semver::Version::parse(b)) {
        (Ok(x), Ok(y)) => x > y,
        _ => false,
    }
}

/// A semantic version.
#[derive(Debug, PartialEq, Eq)]
pub struct Version {
    text: String,
}

impl View for Version {
    type V = Seq<char>;

    closed spec fn view(&self) -> Seq<char> {
        self.text@
    }
}

impl Version {
    #[verifier::type_invariant]
    spec fn is_written(self) -> bool {
        is_version(self.text@)
    }

    /// Parses a version, or says why the text is none.
    pub fn parse(text: &str) -> (r: Result<Version, String>)
        ensures
            match r {
                Ok(v) => version_text(text@) == Ok::<Seq<char>, Seq<char>>(v@) && is_version(v@),
                Err(e) => version_text(text@) == Err::<Seq<char>, Seq<char>>(e@),
            },
    {
        match parse_semver(text) {
            Ok(s) => Ok(Version { text: s }),
            Err(e) => Err(e),
        }
    }

    /// The version as it is written.
    pub fn as_str(&self) -> (r: &str)
        ensures
            r@ == self@,
            is_version(self@),
    {
        proof {
            use_type_invariant(self);
        }
        self.text.as_str()
    }

    /// Copies the version.
    pub fn copy(&self) -> (r: Version)
        ensures
            r@ == self@,
    {
        proof {
            use_type_invariant(self);
        }
        Version { text: self.text.clone() }
    }

    /// Tells whether a version is newer than another.
    pub fn newer_than(&self, other: &Version) -> (r: bool)
        ensures
            r == is_newer(self@, other@),
            is_version(self@),
            is_version(other@),
            r ==> !is_newer(other@, self@),
            !r ==> forall|c: Seq<char>|
                is_version(c) && !is_newer(c, self@) ==> !#[trigger] is_newer(c, other@),
            r ==> forall|c: Seq<char>|
                is_version(c) && !is_newer(c, other@) ==> !#[trigger] is_newer(c, self@),
    {
        proof {
            use_type_invariant(self);
            use_type_invariant(other);
        }
        compare_semver(self.text.as_str(), other.text.as_str())
    }
}

} // verus!
