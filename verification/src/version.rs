//! Semantic versions and version requirements.
//!
//! The grammar of versions and requirements, the precedence of versions and
//! the matching of a version against a requirement are the `semver` crate's.
//! This module holds a version and a requirement as validated text and asks
//! `semver` through four small functions whose contracts are taken on trust;
//! each of them gives the answer a name that the rest of the library reasons
//! about.

use vstd::prelude::*;
use vstd::string::*;

verus! {

/// The error type of the `semver` crate's parsers, carried through opaquely.
#[verifier::external_type_specification]
#[verifier::external_body]
pub struct ExSemverError(semver::Error);

/// Whether `semver::Version::parse` accepts `text`.
pub uninterp spec fn is_version_text(text: Seq<char>) -> bool;

/// What `semver::VersionReq::parse` makes of `text`, printed back by the
/// requirement's `Display`: `None` where the parser rejects `text`.
pub uninterp spec fn requirement_text(text: Seq<char>) -> Option<Seq<char>>;

/// Whether both texts parse as versions and the first is less than the
/// second in the total order of `semver::Version`.
pub uninterp spec fn version_precedes(a: Seq<char>, b: Seq<char>) -> bool;

/// Whether `requirement` parses as a requirement, `version` parses as a
/// version, and `semver::VersionReq::matches` holds of the two.
pub uninterp spec fn requirement_admits(requirement: Seq<char>, version: Seq<char>) -> bool;

/// Calls `semver::Version::parse` and reports whether it succeeded.
#[verifier::external_body]
fn semver_accepts_version(text: &str) -> (r: bool)
    ensures
        r == is_version_text(text@),
{
    semver::Version::parse(text).is_ok()
}

/// Calls `semver::VersionReq::parse` and prints the requirement it returns
/// with its `Display`; the parser's error is handed on as it is.
#[verifier::external_body]
fn semver_canonical_requirement(text: &str) -> (r: Result<String, semver::Error>)
    ensures
        match r {
            Ok(canonical) => requirement_text(text@) == Some(canonical@),
            Err(_) => requirement_text(text@) is None,
        },
{
    match semver::VersionReq::parse(text) {
        Ok(req) => Ok(req.to_string()),
        Err(e) => Err(e),
    }
}

/// Parses both texts with `semver::Version::parse` and compares the versions
/// with `<`, which `semver::Version` derives as a total order over its
/// fields; the answer is `false` where either text is rejected.
///
/// Besides naming the answer, the contract relies on two properties that
/// every strict order has: of two versions at most one precedes the other,
/// and whatever the greater version precedes the lesser precedes too.
#[verifier::external_body]
fn semver_precedes(a: &str, b: &str) -> (r: bool)
    ensures
        r == version_precedes(a@, b@),
        r ==> !version_precedes(b@, a@),
        r ==> forall|c: Seq<char>| #[trigger] version_precedes(b@, c) ==> version_precedes(a@, c),
{
    match (semver::Version::parse(a), semver::Version::parse(b)) {
        (Ok(x), Ok(y)) => x < y,
        _ => false,
    }
}

/// Parses `requirement` with `semver::VersionReq::parse` and `version` with
/// `semver::Version::parse`, and asks `semver::VersionReq::matches`; the
/// answer is `false` where either text is rejected.
#[verifier::external_body]
fn semver_admits(requirement: &str, version: &str) -> (r: bool)
    ensures
        r == requirement_admits(requirement@, version@),
{
    match (semver::VersionReq::parse(requirement), semver::Version::parse(version)) {
        (Ok(req), Ok(ver)) => req.matches(&ver),
        _ => false,
    }
}

/// A concrete semantic version, held as the text that denotes it.
///
/// The version grammar admits one spelling per version, so two versions are
/// the same exactly when their texts are.
#[derive(Debug)]
pub struct Version {
    text: String,
}

impl View for Version {
    type V = Seq<char>;

    closed spec fn view(&self) -> Seq<char> {
        self.text@
    }
}

impl Clone for Version {
    fn clone(&self) -> (r: Self)
        ensures
            r@ == self@,
    {
        Version { text: self.text.clone() }
    }
}

impl Version {
    /// Reads a version: `Some` exactly when `text` is a semantic version,
    /// and then the version that `text` denotes.
    pub fn parse(text: &str) -> (r: Option<Version>)
        ensures
            r is Some <==> is_version_text(text@),
            r matches Some(v) ==> v@ == text@,
    {
        if semver_accepts_version(text) {
            Some(Version { text: String::from_str(text) })
        } else {
            None
        }
    }

    /// The text of the version, such as `1.2.3` or `1.0.0-rc.1`.
    pub fn as_str(&self) -> (r: &str)
        ensures
            r@ == self@,
    {
        self.text.as_str()
    }

    /// The text of the version, owned.
    pub fn to_string(&self) -> (r: String)
        ensures
            r@ == self@,
    {
        self.text.clone()
    }

    /// Whether this version comes before `other` in the order of versions.
    pub fn precedes(&self, other: &Version) -> (r: bool)
        ensures
            r == version_precedes(self@, other@),
            r ==> !version_precedes(other@, self@),
            r ==> forall|c: Seq<char>| #[trigger]
                version_precedes(other@, c) ==> version_precedes(self@, c),
    {
        semver_precedes(self.text.as_str(), other.text.as_str())
    }
}

/// A version requirement (a range such as `^1.2` or `>=1.0, <2.0`), held as
/// the text that the requirement prints as.
#[derive(Debug)]
pub struct VersionReq {
    text: String,
}

impl View for VersionReq {
    type V = Seq<char>;

    closed spec fn view(&self) -> Seq<char> {
        self.text@
    }
}

impl Clone for VersionReq {
    fn clone(&self) -> (r: Self)
        ensures
            r@ == self@,
    {
        VersionReq { text: self.text.clone() }
    }
}

impl VersionReq {
    /// Reads a requirement: `Some` exactly when `text` is one, and then the
    /// requirement in its printed form.
    pub fn parse(text: &str) -> (r: Option<VersionReq>)
        ensures
            match r {
                Some(req) => requirement_text(text@) == Some(req@),
                None => requirement_text(text@) is None,
            },
    {
        match semver_canonical_requirement(text) {
            Ok(canonical) => Some(VersionReq { text: canonical }),
            Err(_) => None,
        }
    }

    /// The printed form of the requirement, such as `^1.2.3`.
    pub fn as_str(&self) -> (r: &str)
        ensures
            r@ == self@,
    {
        self.text.as_str()
    }

    /// The printed form of the requirement, owned.
    pub fn to_string(&self) -> (r: String)
        ensures
            r@ == self@,
    {
        self.text.clone()
    }

    /// Whether `version` satisfies this requirement.
    pub fn matches(&self, version: &Version) -> (r: bool)
        ensures
            r == requirement_admits(self@, version@),
    {
        semver_admits(self.text.as_str(), version.as_str())
    }
}

} // verus!
