//! Reading the registry. No query changes it, and none asks who calls.

use vstd::prelude::*;
use vstd::string::*;
use cosmwasm_std::MemoryStorage;
use crate::ado_version::{is_strict, same_text, type_of, ADOVersion};
use crate::context::holds_registry;
use crate::error::ContractError;
use crate::records::{text_of, ADOMetadata, ActionFee};
use crate::registry::{reports, reports_text};
use crate::key_order::{
    is_ascending, key_lt, lemma_ascending_no_duplicates, lemma_key_lt_asymmetric, lists_range,
};
use crate::records::texts;
use crate::state::RegistryState;
use crate::store::{
    decodes, fee_view_of, list_code_id_keys, load_ado_type, load_code_id, load_fee, load_latest,
    load_metadata, load_publisher, state_of, MAX_PREFIX_BYTES,
};
use crate::version_sort::{
    descends_strictly, is_newest_first, same_versions_ascend, sort_newest_first, versions_valid,
};

verus! {

/// Listings hold this many entries where the caller names no limit.
pub const DEFAULT_LIMIT: u32 = 10;

/// Listings hold at most this many entries.
pub const MAX_LIMIT: u32 = 100;

/// `r` is what a lookup that found the identity `value` reports.
pub open spec fn reports_identity(r: Result<ADOVersion, ContractError>, value: Option<Seq<char>>) -> bool {
    match value {
        Some(v) => r is Ok && r->Ok_0@ == v,
        None => r == Err::<ADOVersion, ContractError>(ContractError::NotFound),
    }
}

/// The code id bound to the identity that `ado_version` asks for, the
/// latest version of its type where it names none.
pub fn code_id_from_ado_version(storage: &MemoryStorage, ado_version: &str) -> (r: Result<u64, ContractError>)
    requires
        decodes(*storage),
    ensures
        reports(r, state_of(*storage).code_id_for(ado_version@)),
{
    let identity = get_strict_ado(storage, ado_version)?;
    match load_code_id(storage, identity.as_str()) {
        Some(code_id) => Ok(code_id),
        None => Err(ContractError::NotFound),
    }
}

/// The latest version of the module type that `ado_type` names.
pub fn latest_version(storage: &MemoryStorage, ado_type: &str) -> (r: Result<String, ContractError>)
    requires
        decodes(*storage),
    ensures
        reports_text(r, state_of(*storage).latest.get(type_of(ado_type@))),
{
    let ado_type = ADOVersion::from_string(ado_type).get_type();
    match load_latest(storage, ado_type.as_str()) {
        Some(version) => Ok(version),
        None => Err(ContractError::NotFound),
    }
}

/// The publisher of the identity that `ado_version` asks for.
pub fn publisher(storage: &MemoryStorage, ado_version: &str) -> (r: Result<String, ContractError>)
    requires
        decodes(*storage),
    ensures
        reports_text(r, state_of(*storage).publisher_for(ado_version@)),
{
    let identity = get_strict_ado(storage, ado_version)?;
    match load_publisher(storage, identity.as_str()) {
        Some(who) => Ok(who),
        None => Err(ContractError::NotFound),
    }
}

/// The identity bound to `code_id`, if any.
pub fn ado_version_from_code_id(
    storage: &MemoryStorage,
    code_id: u64,
) -> (r: Result<Option<String>, ContractError>)
    requires
        decodes(*storage),
    ensures
        r is Ok,
        text_of(r->Ok_0) == state_of(*storage).ado_types.get(code_id),
{
    Ok(load_ado_type(storage, code_id))
}

/// The publication record stored under `ado_version`, taken as it is written.
pub fn ado_metadata(storage: &MemoryStorage, ado_version: &str) -> (r: Result<ADOMetadata, ContractError>)
    requires
        decodes(*storage),
    ensures
        state_of(*storage).metadata.contains_key(ado_version@) ==> r is Ok && r->Ok_0@ == state_of(
            *storage,
        ).metadata[ado_version@],
        !state_of(*storage).metadata.contains_key(ado_version@) ==> r == Err::<ADOMetadata, ContractError>(
            ContractError::NotFound,
        ),
{
    let identity = ADOVersion::from_string(ado_version);
    match load_metadata(storage, identity.as_str()) {
        Some(record) => Ok(record),
        None => Err(ContractError::NotFound),
    }
}

/// The fee for `action` stored under `ado_version`, taken as it is written,
/// if any.
pub fn action_fee(
    storage: &MemoryStorage,
    ado_version: &str,
    action: &str,
) -> (r: Result<Option<ActionFee>, ContractError>)
    requires
        holds_registry(*storage),
    ensures
        r is Ok,
        fee_view_of(r->Ok_0) == state_of(*storage).fees.get((ado_version@, action@)),
{
    if ado_version.len() > MAX_PREFIX_BYTES {
        // An identity this long has no fees.
        return Ok(None);
    }
    Ok(load_fee(storage, ado_version, action))
}

/// The fee for `action` of the identity bound to `code_id`, if any;
/// `NotFound` where `code_id` is not bound.
pub fn action_fee_by_code_id(
    storage: &MemoryStorage,
    code_id: u64,
    action: &str,
) -> (r: Result<Option<ActionFee>, ContractError>)
    requires
        holds_registry(*storage),
    ensures
        state_of(*storage).has_code_id(code_id) ==> r is Ok && Some(fee_view_of(r->Ok_0)) == state_of(
            *storage,
        ).fee_by_code_id(code_id, action@),
        !state_of(*storage).has_code_id(code_id) ==> r == Err::<Option<ActionFee>, ContractError>(
            ContractError::NotFound,
        ),
{
    match load_ado_type(storage, code_id) {
        Some(identity) => {
            proof {
                let s = state_of(*storage);
                assert(s.code_ids.contains_key(s.ado_types[code_id]));
            }
            if identity.as_str().len() > MAX_PREFIX_BYTES {
                // An identity this long has no fees.
                return Ok(None);
            }
            Ok(load_fee(storage, identity.as_str(), action))
        },
        None => Err(ContractError::NotFound),
    }
}

/// Whether `ado_version` is a strict identity that is bound.
pub fn ado_exists(storage: &MemoryStorage, ado_version: &ADOVersion) -> (r: Result<(), ContractError>)
    requires
        decodes(*storage),
    ensures
        r is Ok <==> is_strict(ado_version@) && state_of(*storage).has_identity(ado_version@),
        r is Err ==> r->Err_0 == ContractError::InvalidIdentity,
{
    if ado_version.validate_strict() && code_id_from_ado_version(storage, ado_version.as_str()).is_ok() {
        Ok(())
    } else {
        Err(ContractError::InvalidIdentity)
    }
}

/// The identity that `ado_version` asks for: itself, or the latest version
/// of its type where its version is `latest`.
pub fn get_strict_ado(storage: &MemoryStorage, ado_version: &str) -> (r: Result<ADOVersion, ContractError>)
    requires
        decodes(*storage),
    ensures
        reports_identity(r, state_of(*storage).resolve(ado_version@)),
{
    let identity = ADOVersion::from_string(ado_version);
    if same_text(identity.get_version().as_str(), "latest") {
        let latest = match latest_version(storage, identity.get_type().as_str()) {
            Ok(version) => version,
            Err(e) => {
                proof {
                    crate::ado_version::lemma_type_has_no_separator(ado_version@);
                }
                return Err(e);
            },
        };
        proof {
            crate::ado_version::lemma_type_has_no_separator(ado_version@);
        }
        Ok(identity.with_version(latest.as_str()))
    } else {
        Ok(identity)
    }
}


/// How many entries a listing holds at most, for the limit that the caller names.
pub open spec fn page_limit(limit: Option<u32>) -> nat {
    match limit {
        Some(n) => if n > MAX_LIMIT {
            MAX_LIMIT as nat
        } else {
            n as nat
        },
        None => DEFAULT_LIMIT as nat,
    }
}

/// How many entries a listing holds at most.
pub fn page_size(limit: Option<u32>) -> (r: usize)
    ensures
        r == page_limit(limit),
{
    let n = match limit {
        Some(n) => n,
        None => DEFAULT_LIMIT,
    };
    if n > MAX_LIMIT {
        MAX_LIMIT as usize
    } else {
        n as usize
    }
}

/// Whether `key` comes after the key that a listing starts after, if one is given.
pub open spec fn comes_after(key: Seq<char>, start_after: Option<Seq<char>>) -> bool {
    start_after matches Some(start) ==> key_lt(start, key)
}

/// `page` is the page of at most `limit` keys that follows `start_after`
/// when `all` is walked in the order of the storage.
pub open spec fn is_page(
    page: Seq<Seq<char>>,
    all: Set<Seq<char>>,
    start_after: Option<Seq<char>>,
    limit: nat,
) -> bool {
    &&& is_ascending(page)
    &&& page.len() <= limit
    &&& forall|i: int| 0 <= i < page.len() ==> all.contains(#[trigger] page[i]) && comes_after(page[i], start_after)
    &&& forall|key: Seq<char>|
        all.contains(key) && comes_after(key, start_after) && !#[trigger] page.contains(key) ==> page.len() == limit
            && forall|i: int| 0 <= i < page.len() ==> key_lt(#[trigger] page[i], key)
}

/// A copy of the strings of `items` from position `from` up to `to`.
pub fn copy_range(items: &Vec<String>, from: usize, to: usize) -> (r: Vec<String>)
    requires
        from <= to <= items.len(),
    ensures
        texts(r@) == texts(items@).subrange(from as int, to as int),
{
    let mut r: Vec<String> = Vec::new();
    let mut i = from;
    while i < to
        invariant
            from <= i <= to <= items.len(),
            texts(r@) == texts(items@).subrange(from as int, i as int),
        decreases to - i,
    {
        let ghost before = texts(r@);
        r.push(items[i].clone());
        proof {
            assert(texts(r@) =~= before.push(items@[i as int]@));
            assert(texts(items@).subrange(from as int, i + 1) =~= before.push(items@[i as int]@));
        }
        i += 1;
    }
    r
}

/// The keys of all bound identities, in the order of the storage: those
/// after `start_after`, and at most `limit` of them, 10 where no limit is
/// named and never more than 100.
pub fn all_ado_types(
    storage: &MemoryStorage,
    start_after: Option<String>,
    limit: Option<u32>,
) -> (r: Result<Vec<String>, ContractError>)
    requires
        decodes(*storage),
    ensures
        r is Ok,
        is_page(texts(r->Ok_0@), state_of(*storage).code_ids.dom(), text_of(start_after), page_limit(limit)),
{
    let limit = page_size(limit);
    let from = match &start_after {
        Some(start) => Some(start.as_str()),
        None => None,
    };
    let keys = list_code_id_keys(storage, from, None);
    let ghost listed = texts(keys@);
    let ghost all = state_of(*storage).code_ids.dom();
    // The listing starts at `start_after`; the page starts after it.
    let first: usize = match &start_after {
        Some(start) => if keys.len() > 0 && keys[0] == *start {
            1
        } else {
            0
        },
        None => 0,
    };
    let left = keys.len() - first;
    let count = if left < limit {
        left
    } else {
        limit
    };
    let page = copy_range(&keys, first, first + count);
    proof {
        let shown = texts(page@);
        lemma_ascending_no_duplicates(listed);
        assert forall|i: int| 0 <= i < shown.len() implies all.contains(#[trigger] shown[i]) && comes_after(
            shown[i],
            text_of(start_after),
        ) by {
            assert(shown[i] == listed[first + i]);
            assert(listed.contains(listed[first + i]));
            if start_after is Some {
                let start = start_after->0@;
                if listed[first + i] == start {
                    // Only the first key can be `start_after`.
                    if first == 1 {
                        assert(listed[0] == start);
                    } else {
                        assert(listed.contains(listed[0]));
                        if first + i > 0 {
                            assert(key_lt(listed[0], listed[first + i]));
                            lemma_key_lt_asymmetric(listed[0], start);
                        }
                    }
                }
            }
        }
        assert forall|key: Seq<char>|
            all.contains(key) && comes_after(key, text_of(start_after)) && !#[trigger] shown.contains(
                key,
            ) implies shown.len() == limit && forall|i: int|
            0 <= i < shown.len() ==> key_lt(#[trigger] shown[i], key) by {
            assert(listed.contains(key));
            let j = choose|j: int| 0 <= j < listed.len() && listed[j] == key;
            if start_after is Some {
                lemma_key_lt_asymmetric(start_after->0@, key);
            }
            assert(j >= first);
            if j < first + count {
                assert(shown[j - first] == key);
            }
            assert forall|i: int| 0 <= i < shown.len() implies key_lt(#[trigger] shown[i], key) by {
                assert(shown[i] == listed[first + i]);
            }
        }
        assert(is_ascending(shown)) by {
            assert forall|i: int, j: int| 0 <= i < j < shown.len() implies key_lt(
                #[trigger] shown[i],
                #[trigger] shown[j],
            ) by {
                assert(shown[i] == listed[first + i]);
                assert(shown[j] == listed[first + j]);
            }
        }
    }
    Ok(page)
}

/// The end of the range of keys that belong to the module type `ado_type`:
/// every key `ado_type@...` comes before it.
pub open spec fn range_end(ado_type: Seq<char>) -> Seq<char> {
    ado_type + seq!['A']
}

/// `listing` holds the keys of the bound identities from `ado_type` up to
/// the end of its range, each once, the newest version first; keys whose
/// versions are the same stand in the order of the storage.
pub open spec fn is_version_listing(
    listing: Seq<Seq<char>>,
    s: RegistryState,
    ado_type: Seq<char>,
) -> bool {
    &&& listing.no_duplicates()
    &&& lists_range(listing, s.code_ids.dom(), Some(ado_type), Some(range_end(ado_type)))
    &&& is_newest_first(listing)
    &&& descends_strictly(listing)
    &&& same_versions_ascend(listing)
}

/// Where `item` stands in `listing`.
pub open spec fn position_of(listing: Seq<Seq<char>>, item: Seq<char>) -> int {
    choose|i: int| 0 <= i < listing.len() && listing[i] == item
}

/// The page of at most `limit` keys of `listing` that follows `start_after`,
/// or that stands first where none is given. Nothing follows a key that the
/// listing does not hold.
pub open spec fn page_of(
    listing: Seq<Seq<char>>,
    start_after: Option<Seq<char>>,
    limit: nat,
) -> Seq<Seq<char>> {
    let first = match start_after {
        Some(start) => if listing.contains(start) {
            position_of(listing, start) + 1
        } else {
            listing.len() as int
        },
        None => 0,
    };
    let end = if first + limit < listing.len() {
        first + limit
    } else {
        listing.len() as int
    };
    listing.subrange(first, end)
}

/// The page of at most `limit` strings of `listing` that follows
/// `start_after`, or that stands first where none is given.
pub fn page_after(listing: &Vec<String>, start_after: Option<String>, limit: usize) -> (r: Vec<String>)
    requires
        texts(listing@).no_duplicates(),
    ensures
        texts(r@) == page_of(texts(listing@), text_of(start_after), limit as nat),
{
    let ghost all = texts(listing@);
    let first: usize = match &start_after {
        Some(start) => {
            let mut i: usize = 0;
            while i < listing.len() && listing[i] != *start
                invariant
                    i <= listing.len(),
                    all == texts(listing@),
                    forall|j: int| 0 <= j < i ==> all[j] != start@,
                decreases listing.len() - i,
            {
                i += 1;
            }
            proof {
                if i < listing.len() {
                    assert(all[i as int] == start@);
                    assert(all.contains(start@));
                    let p = position_of(all, start@);
                    assert(p == i);
                } else {
                    assert(!all.contains(start@));
                }
            }
            if i < listing.len() {
                i + 1
            } else {
                i
            }
        },
        None => 0,
    };
    let left = listing.len() - first;
    let count = if left < limit {
        left
    } else {
        limit
    };
    copy_range(listing, first, first + count)
}

/// The end of the range of keys that belong to the module type `ado_type`.
pub fn end_of_range(ado_type: &str) -> (r: String)
    ensures
        r@ == range_end(ado_type@),
{
    let mut end = ado_type.to_owned();
    end.append("A");
    proof {
        reveal_strlit("A");
        assert(end@ =~= range_end(ado_type@));
    }
    end
}

/// The keys of the bound identities from `ado_type` up to the end of its
/// range, the newest version first.
pub fn sorted_versions(storage: &MemoryStorage, ado_type: &str) -> (r: Vec<String>)
    requires
        holds_registry(*storage),
    ensures
        is_version_listing(texts(r@), state_of(*storage), ado_type@),
{
    let end = end_of_range(ado_type);
    let mut keys = list_code_id_keys(storage, Some(ado_type), Some(end.as_str()));
    let ghost listed = texts(keys@);
    proof {
        lemma_ascending_no_duplicates(listed);
        assert(versions_valid(listed)) by {
            assert forall|i: int| 0 <= i < listed.len() implies crate::version_order::semver_valid(
                crate::ado_version::version_of(#[trigger] listed[i]),
            ) by {
                assert(listed.contains(listed[i]));
                assert(state_of(*storage).code_ids.contains_key(listed[i]));
            }
        }
    }
    sort_newest_first(&mut keys);
    proof {
        let sorted = texts(keys@);
        listed.to_multiset_ensures();
        sorted.to_multiset_ensures();
        listed.lemma_multiset_has_no_duplicates();
        sorted.lemma_multiset_has_no_duplicates_conv();
        assert forall|key: Seq<char>| #[trigger] sorted.contains(key) <==> listed.contains(key) by {
            assert(sorted.contains(key) <==> sorted.to_multiset().count(key) > 0);
            assert(listed.contains(key) <==> listed.to_multiset().count(key) > 0);
        }
    }
    keys
}

/// The keys of the bound identities from `ado_type` up to the end of its
/// range, the newest version first: those that follow `start_after` in that
/// listing, and at most `limit` of them, 10 where no limit is named and
/// never more than 100.
pub fn ado_versions(
    storage: &MemoryStorage,
    ado_type: &str,
    start_after: Option<String>,
    limit: Option<u32>,
) -> (r: Result<Vec<String>, ContractError>)
    requires
        holds_registry(*storage),
    ensures
        r is Ok,
        exists|listing: Seq<Seq<char>>| #[trigger]
            is_version_listing(listing, state_of(*storage), ado_type@) && texts(r->Ok_0@) == page_of(
                listing,
                text_of(start_after),
                page_limit(limit),
            ),
{
    let limit = page_size(limit);
    let listing = sorted_versions(storage, ado_type);
    let page = page_after(&listing, start_after, limit);
    proof {
        assert(is_version_listing(texts(listing@), state_of(*storage), ado_type@));
    }
    Ok(page)
}

} // verus!
