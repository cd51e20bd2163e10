//! Semantic versions as the update client orders them: a
//! `MAJOR.MINOR.PATCH` triple under lexicographic ordering.

use vstd::prelude::*;

verus! {

/// A release version. The registry stores versions as strings; clients
/// parse them into this triple before deciding whether a release is newer
/// than the running build.
#[derive(Clone, Copy, Debug, PartialEq, Eq, Structural)]
pub struct SemVer {
    pub major: u64,
    pub minor: u64,
    pub patch: u64,
}

/// `a` is strictly older than `b` under `MAJOR.MINOR.PATCH` ordering.
pub open spec fn semver_lt(a: SemVer, b: SemVer) -> bool {
    ||| a.major < b.major
    ||| (a.major == b.major && a.minor < b.minor)
    ||| (a.major == b.major && a.minor == b.minor && a.patch < b.patch)
}

impl SemVer {
    pub fn new(major: u64, minor: u64, patch: u64) -> (r: SemVer)
        ensures
            r == (SemVer { major, minor, patch }),
    {
        SemVer { major, minor, patch }
    }

    /// Strict "older than" comparison.
    pub fn lt(&self, other: &SemVer) -> (r: bool)
        ensures
            r == semver_lt(*self, *other),
    {
        if self.major != other.major {
            self.major < other.major
        } else if self.minor != other.minor {
            self.minor < other.minor
        } else {
            self.patch < other.patch
        }
    }

    /// "Not newer than": equal-or-lower never triggers a download.
    pub fn le(&self, other: &SemVer) -> (r: bool)
        ensures
            r == (semver_lt(*self, *other) || *self == *other),
    {
        !other.lt(self)
    }
}

/// The `MAJOR.MINOR.PATCH` numbers of a version string under the
/// semantic-version grammar, or nothing when the string is not one; a
/// function of the string alone.
pub uninterp spec fn semver_triple_of(s: Seq<char>) -> Option<(u64, u64, u64)>;

/// Relies on semver's `Version::parse`: parses the full semantic-version
/// grammar and exposes the `major`, `minor` and `patch` numbers; fails
/// exactly when the string is not a semantic version.
#[verifier::external_body]
pub fn parse_semver(s: &str) -> (r: Option<SemVer>)
    ensures
        match r {
            Some(v) => semver_triple_of(s@) == Some((v.major, v.minor, v.patch)),
            None => semver_triple_of(s@) is None,
        },
{
    match semver::Version::parse(s) {
        Ok(v) => Some(SemVer { major: v.major, minor: v.minor, patch: v.patch }),
        Err(_) => None,
    }
}

/// The ordering is a strict total order: irreflexive, transitive, and any
/// two distinct versions are ordered one way or the other.
pub proof fn lemma_semver_lt_strict_total_order(a: SemVer, b: SemVer, c: SemVer)
    ensures
        !semver_lt(a, a),
        semver_lt(a, b) && semver_lt(b, c) ==> semver_lt(a, c),
        a != b ==> semver_lt(a, b) || semver_lt(b, a),
{
}

} // verus!
