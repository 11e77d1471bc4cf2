//! Semantic versions of a modpack and of the installer.

use semver::{BuildMetadata, Prerelease, Version};
use std::cmp::Ordering;
use vstd::prelude::*;

verus! {

/// A semantic version: three numbers, a pre-release tag and build metadata.
/// An empty tag means that the version carries none.
#[derive(Debug, PartialEq, Eq)]
pub struct PackVersion {
    pub major: u64,
    pub minor: u64,
    pub patch: u64,
    pub pre: String,
    pub build: String,
}

/// The mathematical value of a [`PackVersion`].
pub struct VersionView {
    pub major: u64,
    pub minor: u64,
    pub patch: u64,
    pub pre: Seq<char>,
    pub build: Seq<char>,
}

impl View for PackVersion {
    type V = VersionView;

    open spec fn view(&self) -> VersionView {
        VersionView {
            major: self.major,
            minor: self.minor,
            patch: self.patch,
            pre: self.pre@,
            build: self.build@,
        }
    }
}

/// How `semver` orders two versions whose numbers agree and whose tags differ:
/// negative when the first comes first, positive when the second does.
/// A tag that `semver` does not accept counts as absent.
pub uninterp spec fn tag_order(
    pre_a: Seq<char>,
    build_a: Seq<char>,
    pre_b: Seq<char>,
    build_b: Seq<char>,
) -> int;

/// The order of two versions: `-1`, `0` or `1`.
///
/// The numbers are compared from left to right as a triple. Versions with the
/// same numbers and the same tags are equal; with differing tags the order is
/// the one `semver` gives.
pub open spec fn version_order(a: VersionView, b: VersionView) -> int {
    if numbers_order(a, b) != 0 {
        numbers_order(a, b)
    } else if a.pre == b.pre && a.build == b.build {
        0
    } else {
        tag_order(a.pre, a.build, b.pre, b.build)
    }
}

/// `a` comes strictly before `b`.
pub open spec fn version_lt(a: VersionView, b: VersionView) -> bool {
    version_order(a, b) < 0
}

/// `a` comes before `b` or equals it.
pub open spec fn version_le(a: VersionView, b: VersionView) -> bool {
    version_order(a, b) <= 0
}

/// The order of the number triples of two versions: `-1`, `0` or `1`.
pub open spec fn numbers_order(a: VersionView, b: VersionView) -> int {
    if a.major != b.major {
        if a.major < b.major { -1 } else { 1 }
    } else if a.minor != b.minor {
        if a.minor < b.minor { -1 } else { 1 }
    } else if a.patch != b.patch {
        if a.patch < b.patch { -1 } else { 1 }
    } else {
        0
    }
}

/// Compares two versions with `semver::Version::cmp`. The tags are handed to
/// `semver` through `Prerelease::new` and `BuildMetadata::new`; a tag that
/// these do not accept is compared as an absent one.
///
/// Trusted: `semver` documents that the three numbers are compared from left
/// to right as a triple and decide whenever they differ, and that its order
/// is total, so versions with the same numbers and tags compare equal. For
/// equal numbers and differing tags the contract only names the result.
#[verifier::external_body]
fn semver_order(a: &PackVersion, b: &PackVersion) -> (r: i8)
    ensures
        -1 <= r <= 1,
        numbers_order(a@, b@) != 0 ==> r == numbers_order(a@, b@),
        numbers_order(a@, b@) == 0 && a@.pre == b@.pre && a@.build == b@.build ==> r == 0,
        numbers_order(a@, b@) == 0 && !(a@.pre == b@.pre && a@.build == b@.build) ==> r
            == tag_order(a@.pre, a@.build, b@.pre, b@.build),
{
    let pre_a = Prerelease::new(&a.pre).unwrap_or(Prerelease::EMPTY);
    let pre_b = Prerelease::new(&b.pre).unwrap_or(Prerelease::EMPTY);
    let build_a = BuildMetadata::new(&a.build).unwrap_or(BuildMetadata::EMPTY);
    let build_b = BuildMetadata::new(&b.build).unwrap_or(BuildMetadata::EMPTY);
    let x = Version { major: a.major, minor: a.minor, patch: a.patch, pre: pre_a, build: build_a };
    let y = Version { major: b.major, minor: b.minor, patch: b.patch, pre: pre_b, build: build_b };
    match x.cmp(&y) {
        Ordering::Less => -1,
        Ordering::Equal => 0,
        Ordering::Greater => 1,
    }
}

impl Clone for PackVersion {
    fn clone(&self) -> (r: Self)
        ensures
            r@ == self@,
    {
        PackVersion {
            major: self.major,
            minor: self.minor,
            patch: self.patch,
            pre: self.pre.clone(),
            build: self.build.clone(),
        }
    }
}

impl PackVersion {
    /// A release version without tags.
    pub fn new(major: u64, minor: u64, patch: u64) -> (r: Self)
        ensures
            r@ == (VersionView { major, minor, patch, pre: Seq::empty(), build: Seq::empty() }),
    {
        PackVersion { major, minor, patch, pre: String::new(), build: String::new() }
    }

    /// Whether this version comes strictly before `other`.
    pub fn precedes(&self, other: &PackVersion) -> (r: bool)
        ensures
            r == version_lt(self@, other@),
    {
        semver_order(self, other) < 0
    }

    /// Whether this version comes before `other` or equals it.
    pub fn at_most(&self, other: &PackVersion) -> (r: bool)
        ensures
            r == version_le(self@, other@),
    {
        semver_order(self, other) <= 0
    }
}

/// Versions with the same tags, such as releases, are ordered by their
/// numbers alone: no version comes before itself, of two such versions
/// not both come before the other, and what comes before an earlier
/// version comes before a later one.
pub proof fn law_same_tags_order_by_numbers(a: VersionView, b: VersionView, c: VersionView)
    requires
        a.pre == b.pre,
        a.build == b.build,
        b.pre == c.pre,
        b.build == c.build,
    ensures
        version_order(a, b) == numbers_order(a, b),
        !version_lt(a, a),
        version_le(a, a),
        version_lt(a, b) ==> !version_lt(b, a),
        version_lt(a, b) || version_lt(b, a) || (a.major == b.major && a.minor == b.minor
            && a.patch == b.patch),
        version_lt(a, b) && version_le(b, c) ==> version_lt(a, c),
        version_le(a, b) && version_lt(b, c) ==> version_lt(a, c),
{
}

} // verus!
