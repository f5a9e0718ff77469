//! Semantic versions, as the `semver` crate reads and orders them.
//!
//! A [`Version`] keeps the text it was parsed from. Whether a text is a
//! version, and which of two versions comes first, is decided by `semver`;
//! this module only names those answers and records what the crate
//! documents of them.

use vstd::prelude::*;

verus! {

/// Whether `semver::Version::parse` accepts `text`.
pub uninterp spec fn semver_accepts(text: Seq<char>) -> bool;

/// What `Ord::cmp` of `semver::Version` answers for the versions written
/// `a` and `b`: negative when `a` comes first, zero when they are the same
/// version, positive when `b` comes first.
pub uninterp spec fn semver_precedence(a: Seq<char>, b: Seq<char>) -> int;

/// `a` is a strictly older version than `b`.
pub open spec fn version_lt(a: Seq<char>, b: Seq<char>) -> bool {
    semver_precedence(a, b) < 0 && semver_precedence(b, a) > 0
}

/// Calls `semver::Version::parse` and reports whether it succeeded.
#[verifier::external_body]
fn semver_parses(text: &str) -> (ok: bool)
    ensures
        ok == semver_accepts(text@),
{
    semver::Version::parse(text).is_ok()
}

/// Parses both texts with `semver::Version::parse` and compares the versions
/// with `Ord::cmp`, giving -1, 0 or 1 for `Less`, `Equal` and `Greater`.
///
/// Besides naming the answer, the contract records what `Ord` promises of it
/// and `semver` keeps: comparing the other way round gives the opposite
/// answer, only a version compares equal to itself (a version's text is
/// canonical), and "older than" is transitive.
#[verifier::external_body]
fn semver_compare(a: &str, b: &str) -> (r: i8)
    requires
        semver_accepts(a@),
        semver_accepts(b@),
    ensures
        r == semver_precedence(a@, b@),
        -1 <= r <= 1,
        semver_precedence(b@, a@) == -r,
        r == 0 <==> a@ == b@,
        forall|c: Seq<char>|
            r < 0 && semver_accepts(c) && #[trigger] version_lt(c, a@) ==> version_lt(c, b@),
{
    let left = semver::Version::parse(a).unwrap();
    let right = semver::Version::parse(b).unwrap();
    match left.cmp(&right) {
        std::cmp::Ordering::Less => -1,
        std::cmp::Ordering::Equal => 0,
        std::cmp::Ordering::Greater => 1,
    }
}

/// A semantic version, such as `1.4.0` or `2.0.0-rc.1+build.5`.
#[derive(Debug)]
pub struct Version {
    text: String,
}

impl View for Version {
    type V = Seq<char>;

    /// The version as it is written.
    closed spec fn view(&self) -> Seq<char> {
        self.text@
    }
}

impl DeepView for Version {
    type V = Seq<char>;

    open spec fn deep_view(&self) -> Seq<char> {
        self@
    }
}

/// How two versions stand to each other.
#[derive(Clone, Copy, Debug, PartialEq, Eq, Structural)]
pub enum Precedence {
    Older,
    Same,
    Newer,
}

impl Clone for Version {
    fn clone(&self) -> (v: Version)
        ensures
            v == *self,
    {
        proof {
            use_type_invariant(self);
        }
        Version { text: self.text.clone() }
    }
}

impl Version {
    #[verifier::type_invariant]
    spec fn accepted(self) -> bool {
        semver_accepts(self.text@)
    }

    /// Reads a version from its text; `None` when `text` is not a semantic
    /// version.
    pub fn parse(text: &str) -> (r: Option<Version>)
        ensures
            r is Some <==> semver_accepts(text@),
            r matches Some(v) ==> v@ == text@,
    {
        if semver_parses(text) {
            Some(Version { text: text.to_owned() })
        } else {
            None
        }
    }

    /// The version as it is written.
    pub fn as_str(&self) -> (s: &str)
        ensures
            s@ == self@,
    {
        self.text.as_str()
    }

    /// The version as it is written, as an owned string.
    pub fn to_string(&self) -> (s: String)
        ensures
            s@ == self@,
    {
        self.text.clone()
    }

    /// Whether both are the same version.
    pub fn same(&self, other: &Version) -> (r: bool)
        ensures
            r == (self@ == other@),
    {
        self.text == other.text
    }

    /// Where this version stands relative to `other`.
    pub fn compare(&self, other: &Version) -> (r: Precedence)
        ensures
            semver_accepts(self@),
            semver_accepts(other@),
            r == Precedence::Older <==> version_lt(self@, other@),
            r == Precedence::Same <==> self@ == other@,
            r == Precedence::Newer <==> version_lt(other@, self@),
            r == Precedence::Older ==> forall|c: Seq<char>|
                semver_accepts(c) && #[trigger] version_lt(c, self@) ==> version_lt(c, other@),
    {
        proof {
            use_type_invariant(self);
            use_type_invariant(other);
        }
        let r = semver_compare(self.text.as_str(), other.text.as_str());
        if r < 0 {
            Precedence::Older
        } else if r == 0 {
            Precedence::Same
        } else {
            Precedence::Newer
        }
    }
}

} // verus!
