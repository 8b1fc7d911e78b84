//! The registry's storage.
//!
//! The registry lives in a `cosmwasm_std::MemoryStorage`, an ordered map from
//! bytes to bytes. It is read and written through `cw_storage_plus`: an item
//! `owner` and seven maps, each under a namespace of its own, with values
//! encoded as JSON. Nothing in this module is proved. Each function below
//! makes one call into `cw_storage_plus`, and its contract states what that
//! call does to the eight parts of the registry.

use vstd::prelude::*;
use cosmwasm_std::MemoryStorage;
use crate::key_order::{is_ascending, lists_all, lists_range};
use crate::records::{ADOMetadata, ActionFee, FeeView, MetadataView, slice_text_of, text_of, texts};
use crate::state::RegistryState;

verus! {

/// `cosmwasm_std::MemoryStorage`, carried through as an opaque value.
#[verifier::external_type_specification]
#[verifier::external_body]
pub struct ExMemoryStorage(MemoryStorage);

/// Whether every entry that `s` holds under the registry's item and
/// namespaces decodes: its key is text (a code id under `ado_type`, two texts
/// under `action_fees`) and its value is the JSON of the type stored there.
pub uninterp spec fn decodes(s: MemoryStorage) -> bool;

/// The text stored in the item `owner`, if any.
pub uninterp spec fn stored_owner(s: MemoryStorage) -> Option<Seq<char>>;

/// The keys present under the namespace `operators`.
pub uninterp spec fn stored_operators(s: MemoryStorage) -> Set<Seq<char>>;

/// The entries under the namespace `code_id`.
pub uninterp spec fn stored_code_ids(s: MemoryStorage) -> Map<Seq<char>, u64>;

/// The entries under the namespace `ado_type`.
pub uninterp spec fn stored_ado_types(s: MemoryStorage) -> Map<u64, Seq<char>>;

/// The entries under the namespace `latest_version`.
pub uninterp spec fn stored_latest(s: MemoryStorage) -> Map<Seq<char>, Seq<char>>;

/// The entries under the namespace `publisher`.
pub uninterp spec fn stored_publishers(s: MemoryStorage) -> Map<Seq<char>, Seq<char>>;

/// The entries under the namespace `metadata`.
pub uninterp spec fn stored_metadata(s: MemoryStorage) -> Map<Seq<char>, MetadataView>;

/// The entries under the namespace `action_fees`.
pub uninterp spec fn stored_fees(s: MemoryStorage) -> Map<(Seq<char>, Seq<char>), FeeView>;

/// The registry that `s` holds.
pub open spec fn state_of(s: MemoryStorage) -> RegistryState {
    RegistryState {
        owner: stored_owner(s),
        operators: stored_operators(s),
        code_ids: stored_code_ids(s),
        ado_types: stored_ado_types(s),
        latest: stored_latest(s),
        publishers: stored_publishers(s),
        metadata: stored_metadata(s),
        fees: stored_fees(s),
    }
}

/// The longest text, in bytes, that can stand first in a key of two texts:
/// `cw_storage_plus` writes its length in two bytes in front of it.
pub const MAX_PREFIX_BYTES: usize = 0xFFFF;

/// `MemoryStorage::new` gives a storage without entries: it decodes and
/// holds an empty registry.
pub assume_specification[ MemoryStorage::new ]() -> (s: MemoryStorage)
    ensures
        decodes(s),
        state_of(s) == RegistryState::empty(),
;

/// `Item::<String>::may_load` on `owner`: the owner, if one is stored.
#[verifier::external_body]
pub(crate) fn load_owner(storage: &MemoryStorage) -> (r: Option<String>)
    requires
        decodes(*storage),
    ensures
        text_of(r) == stored_owner(*storage),
{
    cw_storage_plus::Item::<String>::new("owner").may_load(storage).unwrap()
}

/// `Item::<String>::save` on `owner`: the owner becomes `owner`, and nothing
/// else changes.
#[verifier::external_body]
pub(crate) fn save_owner(storage: &mut MemoryStorage, owner: &str)
    requires
        decodes(*old(storage)),
    ensures
        decodes(*final(storage)),
        state_of(*final(storage)) == (RegistryState { owner: Some(owner@), ..state_of(*old(storage)) }),
{
    cw_storage_plus::Item::<String>::new("owner").save(storage, &owner.to_string()).unwrap()
}

/// `Map::<&str, bool>::has` under `operators`: whether `who` is a key there.
#[verifier::external_body]
pub(crate) fn has_operator(storage: &MemoryStorage, who: &str) -> (r: bool)
    requires
        decodes(*storage),
    ensures
        r == stored_operators(*storage).contains(who@),
{
    cw_storage_plus::Map::<&str, bool>::new("operators").has(storage, who)
}

/// `Map::<&str, bool>::save` under `operators`: `who` becomes a key there,
/// and nothing else changes.
#[verifier::external_body]
pub(crate) fn save_operator(storage: &mut MemoryStorage, who: &str)
    requires
        decodes(*old(storage)),
    ensures
        decodes(*final(storage)),
        state_of(*final(storage)) == (RegistryState {
            operators: state_of(*old(storage)).operators.insert(who@),
            ..state_of(*old(storage))
        }),
{
    cw_storage_plus::Map::<&str, bool>::new("operators").save(storage, who, &true).unwrap()
}

/// `Map::<&str, bool>::keys` under `operators`, ascending and without
/// bounds: every key stored there, once each, in the order of the storage.
#[verifier::external_body]
pub(crate) fn list_operators(storage: &MemoryStorage) -> (r: Vec<String>)
    requires
        decodes(*storage),
    ensures
        is_ascending(texts(r@)),
        lists_all(texts(r@), stored_operators(*storage)),
{
    cw_storage_plus::Map::<&str, bool>::new("operators")
        .keys(storage, None, None, cosmwasm_std::Order::Ascending)
        .collect::<cosmwasm_std::StdResult<Vec<String>>>()
        .unwrap()
}

/// `Map::<&str, u64>::may_load` under `code_id`: the code id stored for `key`, if any.
#[verifier::external_body]
pub(crate) fn load_code_id(storage: &MemoryStorage, key: &str) -> (r: Option<u64>)
    requires
        decodes(*storage),
    ensures
        r == stored_code_ids(*storage).get(key@),
{
    cw_storage_plus::Map::<&str, u64>::new("code_id").may_load(storage, key).unwrap()
}

/// `Map::<&str, u64>::save` under `code_id`: `key` now maps to `code_id`,
/// and nothing else changes.
#[verifier::external_body]
pub(crate) fn save_code_id(storage: &mut MemoryStorage, key: &str, code_id: u64)
    requires
        decodes(*old(storage)),
    ensures
        decodes(*final(storage)),
        state_of(*final(storage)) == (RegistryState {
            code_ids: state_of(*old(storage)).code_ids.insert(key@, code_id),
            ..state_of(*old(storage))
        }),
{
    cw_storage_plus::Map::<&str, u64>::new("code_id").save(storage, key, &code_id).unwrap()
}

/// `Map::<&str, u64>::keys` under `code_id`, ascending, from `from` on and
/// up to but without `until`: every key stored there that lies in that
/// range, once each, in the order of the storage.
#[verifier::external_body]
pub(crate) fn list_code_id_keys(
    storage: &MemoryStorage,
    from: Option<&str>,
    until: Option<&str>,
) -> (r: Vec<String>)
    requires
        decodes(*storage),
    ensures
        is_ascending(texts(r@)),
        lists_range(texts(r@), stored_code_ids(*storage).dom(), slice_text_of(from), slice_text_of(until)),
{
    cw_storage_plus::Map::<&str, u64>::new("code_id")
        .keys(
            storage,
            from.map(cw_storage_plus::Bound::inclusive),
            until.map(cw_storage_plus::Bound::exclusive),
            cosmwasm_std::Order::Ascending,
        )
        .collect::<cosmwasm_std::StdResult<Vec<String>>>()
        .unwrap()
}

/// `Map::<u64, String>::may_load` under `ado_type`: the identity stored for
/// `code_id`, if any.
#[verifier::external_body]
pub(crate) fn load_ado_type(storage: &MemoryStorage, code_id: u64) -> (r: Option<String>)
    requires
        decodes(*storage),
    ensures
        text_of(r) == stored_ado_types(*storage).get(code_id),
{
    cw_storage_plus::Map::<u64, String>::new("ado_type").may_load(storage, code_id).unwrap()
}

/// `Map::<u64, String>::save` under `ado_type`: `code_id` now maps to `key`,
/// and nothing else changes.
#[verifier::external_body]
pub(crate) fn save_ado_type(storage: &mut MemoryStorage, code_id: u64, key: &str)
    requires
        decodes(*old(storage)),
    ensures
        decodes(*final(storage)),
        state_of(*final(storage)) == (RegistryState {
            ado_types: state_of(*old(storage)).ado_types.insert(code_id, key@),
            ..state_of(*old(storage))
        }),
{
    cw_storage_plus::Map::<u64, String>::new("ado_type").save(storage, code_id, &key.to_string()).unwrap()
}

/// `Map::<u64, String>::remove` under `ado_type`: `code_id` maps to nothing
/// any more, and nothing else changes.
#[verifier::external_body]
pub(crate) fn remove_ado_type(storage: &mut MemoryStorage, code_id: u64)
    requires
        decodes(*old(storage)),
    ensures
        decodes(*final(storage)),
        state_of(*final(storage)) == (RegistryState {
            ado_types: state_of(*old(storage)).ado_types.remove(code_id),
            ..state_of(*old(storage))
        }),
{
    cw_storage_plus::Map::<u64, String>::new("ado_type").remove(storage, code_id)
}

/// `Map::<&str, String>::may_load` under `latest_version`: the version
/// stored for `ado_type`, if any.
#[verifier::external_body]
pub(crate) fn load_latest(storage: &MemoryStorage, ado_type: &str) -> (r: Option<String>)
    requires
        decodes(*storage),
    ensures
        text_of(r) == stored_latest(*storage).get(ado_type@),
{
    cw_storage_plus::Map::<&str, String>::new("latest_version").may_load(storage, ado_type).unwrap()
}

/// `Map::<&str, String>::save` under `latest_version`: `ado_type` now maps
/// to `version`, and nothing else changes.
#[verifier::external_body]
pub(crate) fn save_latest(storage: &mut MemoryStorage, ado_type: &str, version: &str)
    requires
        decodes(*old(storage)),
    ensures
        decodes(*final(storage)),
        state_of(*final(storage)) == (RegistryState {
            latest: state_of(*old(storage)).latest.insert(ado_type@, version@),
            ..state_of(*old(storage))
        }),
{
    cw_storage_plus::Map::<&str, String>::new("latest_version")
        .save(storage, ado_type, &version.to_string())
        .unwrap()
}

/// `Map::<&str, String>::may_load` under `publisher`: the publisher stored
/// for `key`, if any.
#[verifier::external_body]
pub(crate) fn load_publisher(storage: &MemoryStorage, key: &str) -> (r: Option<String>)
    requires
        decodes(*storage),
    ensures
        text_of(r) == stored_publishers(*storage).get(key@),
{
    cw_storage_plus::Map::<&str, String>::new("publisher").may_load(storage, key).unwrap()
}

/// `Map::<&str, String>::save` under `publisher`: `key` now maps to
/// `publisher`, and nothing else changes.
#[verifier::external_body]
pub(crate) fn save_publisher(storage: &mut MemoryStorage, key: &str, publisher: &str)
    requires
        decodes(*old(storage)),
    ensures
        decodes(*final(storage)),
        state_of(*final(storage)) == (RegistryState {
            publishers: state_of(*old(storage)).publishers.insert(key@, publisher@),
            ..state_of(*old(storage))
        }),
{
    cw_storage_plus::Map::<&str, String>::new("publisher")
        .save(storage, key, &publisher.to_string())
        .unwrap()
}

/// The view of an optional record.
pub open spec fn metadata_view_of(item: Option<ADOMetadata>) -> Option<MetadataView> {
    match item {
        Some(m) => Some(m@),
        None => None,
    }
}

/// The view of an optional fee.
pub open spec fn fee_view_of(item: Option<ActionFee>) -> Option<FeeView> {
    match item {
        Some(f) => Some(f@),
        None => None,
    }
}

/// `Map::<&str, (u64, u64, String)>::may_load` under `metadata`: the record
/// stored for `key`, if any.
#[verifier::external_body]
pub(crate) fn load_metadata(storage: &MemoryStorage, key: &str) -> (r: Option<ADOMetadata>)
    requires
        decodes(*storage),
    ensures
        metadata_view_of(r) == stored_metadata(*storage).get(key@),
{
    match cw_storage_plus::Map::<&str, (u64, u64, String)>::new("metadata").may_load(storage, key).unwrap() {
        Some((published_on, updated_on, last_updated_by)) => Some(
            ADOMetadata { published_on, updated_on, last_updated_by },
        ),
        None => None,
    }
}

/// `Map::<&str, (u64, u64, String)>::save` under `metadata`: `key` now maps
/// to `record`, and nothing else changes.
#[verifier::external_body]
pub(crate) fn save_metadata(storage: &mut MemoryStorage, key: &str, record: &ADOMetadata)
    requires
        decodes(*old(storage)),
    ensures
        decodes(*final(storage)),
        state_of(*final(storage)) == (RegistryState {
            metadata: state_of(*old(storage)).metadata.insert(key@, record@),
            ..state_of(*old(storage))
        }),
{
    let value = (record.published_on, record.updated_on, record.last_updated_by.clone());
    cw_storage_plus::Map::<&str, (u64, u64, String)>::new("metadata").save(storage, key, &value).unwrap()
}

/// `Map::<(&str, &str), _>::may_load` under `action_fees`: the fee stored
/// for `action` of `key`, if any. The map panics on a `key` of more than
/// `MAX_PREFIX_BYTES` bytes.
#[verifier::external_body]
pub(crate) fn load_fee(storage: &MemoryStorage, key: &str, action: &str) -> (r: Option<ActionFee>)
    requires
        decodes(*storage),
        key.len() <= MAX_PREFIX_BYTES,
    ensures
        fee_view_of(r) == stored_fees(*storage).get((key@, action@)),
{
    match cw_storage_plus::Map::<(&str, &str), (String, String, cosmwasm_std::Uint128, Option<String>)>::new(
        "action_fees",
    )
        .may_load(storage, (key, action))
        .unwrap() {
        Some((action, asset, amount, receiver)) => Some(
            ActionFee { action, asset, amount: amount.u128(), receiver },
        ),
        None => None,
    }
}

/// `Map::<(&str, &str), _>::save` under `action_fees`: `action` of `key` now
/// maps to `fee`, and nothing else changes. The map panics on a `key` of
/// more than `MAX_PREFIX_BYTES` bytes.
#[verifier::external_body]
pub(crate) fn save_fee(storage: &mut MemoryStorage, key: &str, action: &str, fee: &ActionFee)
    requires
        decodes(*old(storage)),
        key.len() <= MAX_PREFIX_BYTES,
    ensures
        decodes(*final(storage)),
        state_of(*final(storage)) == (RegistryState {
            fees: state_of(*old(storage)).fees.insert((key@, action@), fee@),
            ..state_of(*old(storage))
        }),
{
    let amount = cosmwasm_std::Uint128::new(fee.amount);
    let value = (fee.action.clone(), fee.asset.clone(), amount, fee.receiver.clone());
    cw_storage_plus::Map::<(&str, &str), (String, String, cosmwasm_std::Uint128, Option<String>)>::new(
        "action_fees",
    )
        .save(storage, (key, action), &value)
        .unwrap()
}

/// `Map::<(&str, &str), _>::remove` under `action_fees`: `action` of `key`
/// maps to nothing any more, and nothing else changes. The map panics on a
/// `key` of more than `MAX_PREFIX_BYTES` bytes.
#[verifier::external_body]
pub(crate) fn remove_fee(storage: &mut MemoryStorage, key: &str, action: &str)
    requires
        decodes(*old(storage)),
        key.len() <= MAX_PREFIX_BYTES,
    ensures
        decodes(*final(storage)),
        state_of(*final(storage)) == (RegistryState {
            fees: state_of(*old(storage)).fees.remove((key@, action@)),
            ..state_of(*old(storage))
        }),
{
    cw_storage_plus::Map::<(&str, &str), (String, String, cosmwasm_std::Uint128, Option<String>)>::new(
        "action_fees",
    )
        .remove(storage, (key, action))
}

} // verus!
