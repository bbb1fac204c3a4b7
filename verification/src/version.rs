//! Release versions: reading a version text and comparing two versions by
//! the rules of Semantic Versioning, through the `semver` crate.
use vstd::prelude::*;
use crate::text::{strip_one, trim, trimmed, without_first};

verus! {

#[verifier::external_type_specification]
#[verifier::external_body]
pub struct ExSemverVersion(semver::Version);

/// A version as plain values: major, minor, patch, pre-release and build
/// metadata.
pub type VersionParts = (u64, u64, u64, Seq<char>, Seq<char>);

/// What `semver::Version::parse` gives for a text: `None` where it refuses
/// the text, else the parts of the version it reads.
pub uninterp spec fn semver_parse(text: Seq<char>) -> Option<VersionParts>;

/// Whether, by `semver::Version`'s order, the version with parts `a` is
/// greater than the one with parts `b`.
pub uninterp spec fn semver_greater(a: VersionParts, b: VersionParts) -> bool;

/// A version read from text. Its `parsed` field holds the `semver::Version`
/// that its plain fields were copied from; only [`parse_version`] makes one.
#[derive(Debug, PartialEq)]
pub struct SemVersion {
    major: u64,
    minor: u64,
    patch: u64,
    pre: String,
    build: String,
    parsed: semver::Version,
}

impl View for SemVersion {
    type V = VersionParts;

    closed spec fn view(&self) -> VersionParts {
        (self.major, self.minor, self.patch, self.pre@, self.build@)
    }
}

impl DeepView for SemVersion {
    type V = VersionParts;

    open spec fn deep_view(&self) -> VersionParts {
        self@
    }
}

impl SemVersion {
    /// The `semver::Version` value that [`parse_version`] read this version
    /// as, and whose parts it copied into the plain fields.
    pub closed spec fn read_as(self) -> semver::Version {
        self.parsed
    }

    /// The `semver::Version` this version was read as.
    pub fn into_version(self) -> (r: semver::Version)
        ensures
            r == self.read_as(),
    {
        self.parsed
    }
}

/// Calls `semver::Version::parse` and copies the fields of the version it
/// reads. Claimed: the result is `semver_parse` of the text; `None` exactly
/// where the parse fails. Nothing about which texts it accepts is stated.
#[verifier::external_body]
fn parse_version(text: &str) -> (r: Option<SemVersion>)
    ensures
        r.deep_view() == semver_parse(text@),
{
    match semver::Version::parse(text) {
        Ok(v) => Some(SemVersion {
            major: v.major,
            minor: v.minor,
            patch: v.patch,
            pre: v.pre.as_str().to_string(),
            build: v.build.as_str().to_string(),
            parsed: v,
        }),
        Err(_) => None,
    }
}

/// Calls `>` on the two `semver::Version` values, whose `Ord` is derived over
/// (major, minor, patch, pre-release, build). Claimed: the result is
/// `semver_greater` of the parts; `>` is a strict order (irreflexive,
/// asymmetric, transitive); the numeric parts decide first, in that order;
/// with equal numbers a release is greater than any pre-release (documented on
/// `semver::Prerelease`'s order). How pre-releases and build metadata compare
/// among themselves is left to the name.
#[verifier::external_body]
fn version_greater(a: &SemVersion, b: &SemVersion) -> (r: bool)
    ensures
        r == semver_greater(a@, b@),
        a@ == b@ ==> !r,
        r ==> !semver_greater(b@, a@),
        forall|t: Seq<char>|
            r && semver_parse(t) is Some && semver_greater(b@, semver_parse(t)->0) ==> semver_greater(
                a@,
                semver_parse(t)->0,
            ),
        a@.0 != b@.0 ==> (r <==> a@.0 > b@.0),
        a@.0 == b@.0 && a@.1 != b@.1 ==> (r <==> a@.1 > b@.1),
        a@.0 == b@.0 && a@.1 == b@.1 && a@.2 != b@.2 ==> (r <==> a@.2 > b@.2),
        a@.0 == b@.0 && a@.1 == b@.1 && a@.2 == b@.2 && a@.3.len() == 0 && b@.3.len() > 0 ==> r,
        a@.0 == b@.0 && a@.1 == b@.1 && a@.2 == b@.2 && a@.3.len() > 0 && b@.3.len() == 0 ==> !r,
{
    a.parsed > b.parsed
}

/// The text that a version text is read from: trimmed, one leading `v` dropped.
pub open spec fn version_text(text: Seq<char>) -> Seq<char> {
    without_first(trimmed(text), 'v')
}

/// The version a text denotes, if any.
pub open spec fn version_of(text: Seq<char>) -> Option<VersionParts> {
    semver_parse(version_text(text))
}

/// Whether the version `latest` denotes is newer than the one `current`
/// denotes; false where either text is no version.
pub open spec fn newer(latest: Seq<char>, current: Seq<char>) -> bool {
    match (version_of(latest), version_of(current)) {
        (Some(a), Some(b)) => semver_greater(a, b),
        _ => false,
    }
}

/// Reads a version from text, after trimming it and dropping one leading `v`.
pub fn parse_semver(version: &str) -> (r: Option<SemVersion>)
    ensures
        r.deep_view() == version_of(version@),
{
    let t = trim(version);
    let s = strip_one(t, 'v');
    parse_version(s)
}

/// Whether `latest` denotes a newer version than `current`; false where either
/// is not a version. No version is newer than itself, of two versions at most
/// one is newer than the other, and being newer carries over along a chain.
pub fn is_newer(latest: &str, current: &str) -> (r: bool)
    ensures
        r == newer(latest@, current@),
        latest@ == current@ ==> !r,
        r ==> !newer(current@, latest@),
        forall|other: Seq<char>| r && newer(current@, other) ==> newer(latest@, other),
{
    match (parse_semver(latest), parse_semver(current)) {
        (Some(l), Some(c)) => version_greater(&l, &c),
        _ => false,
    }
}

} // verus!
