//! The three entries of the registry: setting it up, changing it, and
//! asking it.

use vstd::prelude::*;
use cosmwasm_std::MemoryStorage;
use crate::ado_contract::{instantiate_log, instantiated, ADOContract};
use crate::attributes::Attributes;
use crate::context::{holds_registry, is_outcome, ExecuteContext};
use crate::error::ContractError;
use crate::execute::{
    fee_views_of, fees_log, publish, publish_log, publisher_or, remove_action_fees, removal_log,
    update_action_fees, update_code_id, update_code_id_log, update_publisher,
};
use crate::msg::{ExecuteMsg, InstantiateMsg, QueryMsg, QueryResponse};
use crate::query::{
    action_fee, action_fee_by_code_id, ado_metadata, ado_version_from_code_id, ado_versions,
    all_ado_types, code_id_from_ado_version, is_page, is_version_listing, page_limit, page_of,
    publisher,
};
use crate::records::{fee_views, text_of, texts};
use crate::registry::{
    code_id_updated, fees_error, identity_error, publish_error, published, published_key,
    publisher_error, update_code_id_error,
};
use crate::response::Response;
use crate::state::RegistryState;
use crate::store::{fee_view_of, state_of};

verus! {

/// The type that the registry is known by.
pub open spec fn registry_type() -> Seq<char> {
    "adodb"@
}

/// Sets up the registry: `sender`, or the owner that `msg` names, owns it.
pub fn instantiate(
    storage: &mut MemoryStorage,
    sender: &str,
    msg: InstantiateMsg,
) -> (r: Result<Response, ContractError>)
    requires
        holds_registry(*old(storage)),
    ensures
        holds_registry(*final(storage)),
        state_of(*final(storage)) == instantiated(state_of(*old(storage)), sender@, text_of(msg.owner), None),
        r is Ok,
        r->Ok_0@ == instantiate_log(registry_type()),
{
    ADOContract::default().instantiate(
        storage,
        sender,
        crate::ado_contract::InstantiateMsg {
            ado_type: "adodb".to_owned(),
            operators: None,
            owner: msg.owner,
        },
    )
}

/// Why the change `msg`, asked for by `sender`, is refused, if it is, where
/// `address_accepted` is the answer of the host on the address that the
/// change would make a publisher.
pub open spec fn execute_error(
    s: RegistryState,
    sender: Seq<char>,
    msg: ExecuteMsg,
    address_accepted: bool,
) -> Option<ContractError> {
    match msg {
        ExecuteMsg::Publish { code_id, ado_type, action_fees, version, publisher } => publish_error(
            s,
            sender,
            code_id,
            ado_type@,
            version@,
            fee_views_of(action_fees),
            address_accepted,
        ),
        ExecuteMsg::UpdateCodeId { code_id_key, code_id } => update_code_id_error(s, sender, code_id_key@, code_id),
        ExecuteMsg::UpdateActionFees { ado_type, action_fees } => fees_error(
            s,
            sender,
            ado_type@,
            fee_views(action_fees@),
        ),
        ExecuteMsg::RemoveActionFees { ado_type, actions } => identity_error(s, sender, ado_type@),
        ExecuteMsg::UpdatePublisher { ado_version, publisher } => publisher_error(
            s,
            sender,
            ado_version@,
            address_accepted,
        ),
    }
}

/// The registry after the change `msg`, asked for by `sender` at time
/// `now`, where it is not refused.
pub open spec fn executed(s: RegistryState, sender: Seq<char>, now: u64, msg: ExecuteMsg) -> RegistryState {
    match msg {
        ExecuteMsg::Publish { code_id, ado_type, action_fees, version, publisher } => published(
            s,
            sender,
            now,
            code_id,
            ado_type@,
            version@,
            fee_views_of(action_fees),
            text_of(publisher),
        ),
        ExecuteMsg::UpdateCodeId { code_id_key, code_id } => code_id_updated(s, sender, now, code_id_key@, code_id),
        ExecuteMsg::UpdateActionFees { ado_type, action_fees } => s.with_fees(ado_type@, fee_views(action_fees@)),
        ExecuteMsg::RemoveActionFees { ado_type, actions } => s.without_fees(ado_type@, texts(actions@)),
        ExecuteMsg::UpdatePublisher { ado_version, publisher } => s.with_publisher(ado_version@, publisher@),
    }
}

/// What the change `msg`, asked for by `sender`, logs where it is not refused.
pub open spec fn execute_log(sender: Seq<char>, msg: ExecuteMsg) -> Seq<(Seq<char>, Seq<char>)> {
    match msg {
        ExecuteMsg::Publish { code_id, ado_type, action_fees, version, publisher } => publish_log(
            published_key(ado_type@, version@),
            code_id,
            publisher_or(text_of(publisher), sender),
            fee_views_of(action_fees),
        ),
        ExecuteMsg::UpdateCodeId { code_id_key, code_id } => update_code_id_log(code_id_key@, code_id),
        ExecuteMsg::UpdateActionFees { ado_type, action_fees } => fees_log(ado_type@, fee_views(action_fees@)),
        ExecuteMsg::RemoveActionFees { ado_type, actions } => removal_log(ado_type@, texts(actions@)),
        ExecuteMsg::UpdatePublisher { ado_version, publisher } => Attributes::update_publisher_view(publisher@),
    }
}

/// Makes the change that `msg` asks for, or refuses it and changes nothing.
/// Where the change would make an address a publisher, the one that the
/// message names or else the caller, `address_accepted` is the answer of
/// the host on that address; for other changes it is of no account.
pub fn execute(execute_env: &mut ExecuteContext, msg: ExecuteMsg, address_accepted: bool) -> (r: Result<
    Response,
    ContractError,
>)
    requires
        old(execute_env).wf(),
    ensures
        is_outcome(
            *old(execute_env),
            *final(execute_env),
            r,
            execute_error(old(execute_env).state(), old(execute_env).sender@, msg, address_accepted),
            executed(old(execute_env).state(), old(execute_env).sender@, old(execute_env).block_time, msg),
            execute_log(old(execute_env).sender@, msg),
        ),
{
    match msg {
        ExecuteMsg::UpdateCodeId { code_id_key, code_id } => update_code_id(
            execute_env,
            code_id_key.as_str(),
            code_id,
        ),
        ExecuteMsg::Publish { code_id, ado_type, action_fees, version, publisher } => publish(
            execute_env,
            code_id,
            ado_type,
            version,
            action_fees,
            publisher,
            address_accepted,
        ),
        ExecuteMsg::UpdateActionFees { action_fees, ado_type } => update_action_fees(
            execute_env,
            ado_type.as_str(),
            action_fees,
        ),
        ExecuteMsg::RemoveActionFees { ado_type, actions } => remove_action_fees(
            execute_env,
            ado_type.as_str(),
            actions,
        ),
        ExecuteMsg::UpdatePublisher { ado_version, publisher } => update_publisher(
            execute_env,
            ado_version.as_str(),
            Some(publisher),
            address_accepted,
        ),
    }
}

/// `r` is the answer of the registry `s` to the question `msg`.
pub open spec fn answers(r: Result<QueryResponse, ContractError>, s: RegistryState, msg: QueryMsg) -> bool {
    match msg {
        QueryMsg::CodeId { key } => match s.code_id_for(key@) {
            Some(code_id) => r == Ok::<QueryResponse, ContractError>(QueryResponse::CodeId(code_id)),
            None => r == Err::<QueryResponse, ContractError>(ContractError::NotFound),
        },
        QueryMsg::ADOType { code_id } => r matches Ok(QueryResponse::ADOType(identity)) && text_of(identity)
            == s.ado_types.get(code_id),
        QueryMsg::AllADOTypes { start_after, limit } => r matches Ok(QueryResponse::Keys(keys)) && is_page(
            texts(keys@),
            s.code_ids.dom(),
            text_of(start_after),
            page_limit(limit),
        ),
        QueryMsg::ADOVersions { ado_type, start_after, limit } => r matches Ok(QueryResponse::Keys(keys))
            && exists|listing: Seq<Seq<char>>| #[trigger]
            is_version_listing(listing, s, ado_type@) && texts(keys@) == page_of(
                listing,
                text_of(start_after),
                page_limit(limit),
            ),
        QueryMsg::ADOPublisher { ado_version } => match s.publisher_for(ado_version@) {
            Some(who) => r matches Ok(QueryResponse::Publisher(found)) && found@ == who,
            None => r == Err::<QueryResponse, ContractError>(ContractError::NotFound),
        },
        QueryMsg::ADOMetadata { ado_version } => match s.metadata.get(ado_version@) {
            Some(record) => r matches Ok(QueryResponse::Metadata(found)) && found@ == record,
            None => r == Err::<QueryResponse, ContractError>(ContractError::NotFound),
        },
        QueryMsg::ActionFee { ado_type, action } => r matches Ok(QueryResponse::ActionFee(fee)) && fee_view_of(fee)
            == s.fees.get((ado_type@, action@)),
        QueryMsg::ActionFeeByCodeId { code_id, action } => match s.fee_by_code_id(code_id, action@) {
            Some(stored) => r matches Ok(QueryResponse::ActionFee(fee)) && fee_view_of(fee) == stored,
            None => r == Err::<QueryResponse, ContractError>(ContractError::NotFound),
        },
    }
}

/// Answers the question `msg`.
pub fn query(storage: &MemoryStorage, msg: QueryMsg) -> (r: Result<QueryResponse, ContractError>)
    requires
        holds_registry(*storage),
    ensures
        answers(r, state_of(*storage), msg),
{
    match msg {
        QueryMsg::CodeId { key } => match code_id_from_ado_version(storage, key.as_str()) {
            Ok(code_id) => Ok(QueryResponse::CodeId(code_id)),
            Err(e) => Err(e),
        },
        QueryMsg::ADOType { code_id } => match ado_version_from_code_id(storage, code_id) {
            Ok(identity) => Ok(QueryResponse::ADOType(identity)),
            Err(e) => Err(e),
        },
        QueryMsg::AllADOTypes { start_after, limit } => match all_ado_types(storage, start_after, limit) {
            Ok(keys) => Ok(QueryResponse::Keys(keys)),
            Err(e) => Err(e),
        },
        QueryMsg::ADOVersions { ado_type, start_after, limit } => match ado_versions(
            storage,
            ado_type.as_str(),
            start_after,
            limit,
        ) {
            Ok(keys) => Ok(QueryResponse::Keys(keys)),
            Err(e) => Err(e),
        },
        QueryMsg::ADOPublisher { ado_version } => match publisher(storage, ado_version.as_str()) {
            Ok(who) => Ok(QueryResponse::Publisher(who)),
            Err(e) => Err(e),
        },
        QueryMsg::ADOMetadata { ado_version } => match ado_metadata(storage, ado_version.as_str()) {
            Ok(record) => Ok(QueryResponse::Metadata(record)),
            Err(e) => Err(e),
        },
        QueryMsg::ActionFee { ado_type, action } => match action_fee(storage, ado_type.as_str(), action.as_str()) {
            Ok(fee) => Ok(QueryResponse::ActionFee(fee)),
            Err(e) => Err(e),
        },
        QueryMsg::ActionFeeByCodeId { code_id, action } => match action_fee_by_code_id(
            storage,
            code_id,
            action.as_str(),
        ) {
            Ok(fee) => Ok(QueryResponse::ActionFee(fee)),
            Err(e) => Err(e),
        },
    }
}

} // verus!
