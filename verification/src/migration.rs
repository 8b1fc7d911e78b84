//! Whether the registry may move to a new version of its code.
//!
//! The code of a registry is replaced only by newer code of the same
//! contract. Which version is newer is for `semver` to say.

use vstd::prelude::*;
use crate::ado_version::same_text;
use crate::version_order::{parsed_version_lt, parses_as_version, semver_precedes, semver_valid};

verus! {

/// Why a migration is refused.
#[derive(Debug, Clone, Copy, PartialEq, Eq, Structural)]
pub enum MigrationRefusal {
    /// The stored version or the new one is no semantic version.
    InvalidVersion,
    /// What is stored is another contract.
    OtherContract,
    /// The stored version is not older than the new one.
    NotNewer,
}

/// Why a migration is refused, if it is, given what `semver` says of the
/// two versions: whether it accepts both, and whether it orders the stored
/// one before the new one.
pub open spec fn refusal_given(
    versions_valid: bool,
    same_contract: bool,
    stored_is_older: bool,
) -> Option<MigrationRefusal> {
    if !versions_valid {
        Some(MigrationRefusal::InvalidVersion)
    } else if !same_contract {
        Some(MigrationRefusal::OtherContract)
    } else if !stored_is_older {
        Some(MigrationRefusal::NotNewer)
    } else {
        None
    }
}

/// Why the migration of the contract `stored_contract` at `stored_version`
/// to the contract `contract` at `version` is refused, if it is.
pub open spec fn migration_refusal(
    stored_contract: Seq<char>,
    stored_version: Seq<char>,
    contract: Seq<char>,
    version: Seq<char>,
) -> Option<MigrationRefusal> {
    refusal_given(
        semver_valid(version) && semver_valid(stored_version),
        stored_contract == contract,
        semver_precedes(stored_version, version),
    )
}

/// Why a migration is refused, if it is, given what `semver` says of the
/// two versions.
pub fn decide_migration(versions_valid: bool, same_contract: bool, stored_is_older: bool) -> (r: Option<
    MigrationRefusal,
>)
    ensures
        r == refusal_given(versions_valid, same_contract, stored_is_older),
{
    if !versions_valid {
        Some(MigrationRefusal::InvalidVersion)
    } else if !same_contract {
        Some(MigrationRefusal::OtherContract)
    } else if !stored_is_older {
        Some(MigrationRefusal::NotNewer)
    } else {
        None
    }
}

/// Why the migration of the contract `stored_contract` at `stored_version`
/// to the contract `contract` at `version` is refused, if it is.
pub fn check_migration(stored_contract: &str, stored_version: &str, contract: &str, version: &str) -> (r: Option<
    MigrationRefusal,
>)
    ensures
        r == migration_refusal(stored_contract@, stored_version@, contract@, version@),
{
    let versions_valid = parses_as_version(version) && parses_as_version(stored_version);
    let same_contract = same_text(stored_contract, contract);
    let stored_is_older = versions_valid && parsed_version_lt(stored_version, version);
    decide_migration(versions_valid, same_contract, stored_is_older)
}

} // verus!
