//! Versions, as the `semver` crate reads and orders them.
//!
//! What makes a text a semantic version, and which of two versions comes
//! first, is decided by `semver`. The two results are given names here, and
//! the two functions that ask `semver` are taken on trust. What the registry
//! does with the answers is proved.

use vstd::prelude::*;
use crate::records::text_of;

verus! {

/// Whether `semver::Version::parse` accepts `text`.
pub uninterp spec fn semver_valid(text: Seq<char>) -> bool;

/// Whether the version that `semver::Version::parse` reads from `a` is less
/// than the one it reads from `b`, in the order of `semver::Version`.
pub uninterp spec fn semver_precedes(a: Seq<char>, b: Seq<char>) -> bool;

/// `semver::Version::parse`: whether it accepts `text`.
#[verifier::external_body]
pub(crate) fn parses_as_version(text: &str) -> (r: bool)
    ensures
        r == semver_valid(text@),
{
    semver::Version::parse(text).is_ok()
}

/// `<` on `semver::Version`, for the versions parsed from two texts that
/// `semver::Version::parse` accepts. The order of `semver::Version` is
/// total, and two texts are read as the same version only where they are
/// the same text: the numbers carry no leading zeros, and what follows them
/// is kept as it is written. So no text precedes itself, and of two
/// different texts one precedes the other.
#[verifier::external_body]
pub(crate) fn parsed_version_lt(a: &str, b: &str) -> (r: bool)
    requires
        semver_valid(a@),
        semver_valid(b@),
    ensures
        r == semver_precedes(a@, b@),
        a@ == b@ ==> !r,
        a@ != b@ ==> r || semver_precedes(b@, a@),
{
    semver::Version::parse(a).unwrap() < semver::Version::parse(b).unwrap()
}

/// Whether `text` is a semantic version.
pub fn is_version(text: &str) -> (r: bool)
    ensures
        r == semver_valid(text@),
{
    parses_as_version(text)
}

/// The latest version of a module type once `candidate` is published, where
/// `current` was its latest version before: `candidate` if there was none or
/// the current one is older, else the current one.
pub open spec fn advance(current: Option<Seq<char>>, candidate: Seq<char>, current_is_older: bool) -> Seq<
    char,
> {
    match current {
        Some(version) => if current_is_older {
            candidate
        } else {
            version
        },
        None => candidate,
    }
}

/// The latest version of a module type once `candidate` is published.
pub fn next_latest(current: Option<String>, candidate: &str, current_is_older: bool) -> (r: String)
    ensures
        r@ == advance(text_of(current), candidate@, current_is_older),
{
    match current {
        Some(version) => if current_is_older {
            candidate.to_owned()
        } else {
            version
        },
        None => candidate.to_owned(),
    }
}

} // verus!
