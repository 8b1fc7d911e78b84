//! Listing identities with the newest version first.
//!
//! The keys are put in order by the sort of the standard library; which of
//! two keys comes first is decided by [`newest_first`], on the versions that
//! `semver` reads from them.

use vstd::prelude::*;
use core::cmp::Ordering;
use crate::ado_version::{version_of, ADOVersion};
use crate::key_order::{is_ascending, key_lt};
use crate::records::texts;
use crate::version_order::{parsed_version_lt, semver_precedes, semver_valid};

verus! {

/// Whether the version of the key `a` is newer than that of the key `b`.
pub open spec fn newer(a: Seq<char>, b: Seq<char>) -> bool {
    semver_precedes(version_of(b), version_of(a))
}

/// No key is followed by one with a newer version.
pub open spec fn is_newest_first(keys: Seq<Seq<char>>) -> bool {
    forall|i: int, j: int| 0 <= i < j < keys.len() ==> !newer(#[trigger] keys[j], #[trigger] keys[i])
}

/// Where two keys differ in their versions, the one with the newer
/// version stands first.
pub open spec fn descends_strictly(keys: Seq<Seq<char>>) -> bool {
    forall|i: int, j: int|
        0 <= i < j < keys.len() && version_of(#[trigger] keys[i]) != version_of(#[trigger] keys[j]) ==> newer(
            keys[i],
            keys[j],
        )
}

/// Keys of the same version stand in the order of the storage.
pub open spec fn same_versions_ascend(keys: Seq<Seq<char>>) -> bool {
    forall|i: int, j: int|
        0 <= i < j < keys.len() && version_of(#[trigger] keys[i]) == version_of(#[trigger] keys[j]) ==> key_lt(
            keys[i],
            keys[j],
        )
}

/// Whether the version of every key is a semantic version.
pub open spec fn versions_valid(keys: Seq<Seq<char>>) -> bool {
    forall|i: int| 0 <= i < keys.len() ==> semver_valid(version_of(#[trigger] keys[i]))
}

/// How two keys stand when the newest version comes first: `Less` where the
/// version of `a` is newer, `Equal` where the two versions are the same,
/// and `Greater` where that of `b` is newer.
pub(crate) fn newest_first(a: &String, b: &String) -> (r: Ordering)
    requires
        semver_valid(version_of(a@)),
        semver_valid(version_of(b@)),
    ensures
        r is Less <==> newer(a@, b@),
        r is Equal <==> version_of(a@) == version_of(b@),
        r is Greater <==> !newer(a@, b@) && newer(b@, a@),
{
    let left = ADOVersion::from_string(a.as_str()).get_version();
    let right = ADOVersion::from_string(b.as_str()).get_version();
    if parsed_version_lt(right.as_str(), left.as_str()) {
        Ordering::Less
    } else if parsed_version_lt(left.as_str(), right.as_str()) {
        Ordering::Greater
    } else {
        Ordering::Equal
    }
}

/// `slice::sort_by` with [`newest_first`], on keys that stand in the order
/// of the storage and whose versions `semver` accepts. The order of
/// `semver::Version` is total, so the sort does not panic. It keeps every
/// key and puts them in the order of the comparison: of two keys, the later
/// never compares `Less` to the earlier, nor the earlier `Greater` to the
/// later. Being stable, it leaves keys that compare `Equal` in the order
/// they came in. By what is proved of [`newest_first`], a key is `Less`
/// than one of an older version and `Equal` to one of the same version.
#[verifier::external_body]
pub(crate) fn sort_newest_first(keys: &mut Vec<String>)
    requires
        is_ascending(texts(old(keys)@)),
        versions_valid(texts(old(keys)@)),
    ensures
        texts(final(keys)@).to_multiset() == texts(old(keys)@).to_multiset(),
        is_newest_first(texts(final(keys)@)),
        descends_strictly(texts(final(keys)@)),
        same_versions_ascend(texts(final(keys)@)),
{
    keys.sort_by(|a, b| newest_first(a, b))
}

} // verus!
