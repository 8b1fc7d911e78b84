use adodb::ado_contract::{ADOContract, InstantiateMsg};
use adodb::context::ExecuteContext;
use adodb::contract::{execute, query};
use adodb::error::ContractError;
use adodb::execute::{
    publish, remove_action_fees, update_action_fees, update_code_id, update_publisher,
};
use adodb::msg::{ExecuteMsg, QueryMsg, QueryResponse};
use adodb::query::{
    action_fee, action_fee_by_code_id, ado_exists, ado_metadata, ado_version_from_code_id,
    ado_versions, all_ado_types, code_id_from_ado_version, get_strict_ado, latest_version,
    publisher,
};
use adodb::ado_version::ADOVersion;
use adodb::records::{ADOMetadata, ActionFee};
use adodb::response::attr;
use adodb::context::empty_registry;
use cosmwasm_std::MemoryStorage;

const OWNER: &str = "owner";
const T0: u64 = 1_000;
const T1: u64 = 2_500;

fn registry() -> ExecuteContext {
    let mut storage = empty_registry();
    let msg = InstantiateMsg {
        ado_type: "adodb".to_string(),
        operators: Some(vec!["operator".to_string(), "deputy".to_string()]),
        owner: Some(OWNER.to_string()),
    };
    let response = ADOContract::default()
        .instantiate(&mut storage, "deployer", msg)
        .unwrap();
    assert_eq!(
        response.attributes,
        vec![attr("method", "instantiate"), attr("type", "adodb")]
    );
    ExecuteContext::new(storage, OWNER, T0)
}

fn fee(action: &str, amount: u128, asset: &str, receiver: Option<&str>) -> ActionFee {
    ActionFee::new(
        action.to_string(),
        asset.to_string(),
        amount,
        receiver.map(|r| r.to_string()),
    )
}

fn put(ctx: &mut ExecuteContext, code_id: u64, ado_type: &str, version: &str) -> Result<(), ContractError> {
    publish(ctx, code_id, ado_type.to_string(), version.to_string(), None, None, true).map(|_| ())
}

#[test]
fn guard_knows_owner_and_operators() {
    let ctx = registry();
    let guard = ADOContract::default();
    assert!(guard.is_contract_owner(&ctx.storage, OWNER));
    assert!(!guard.is_contract_owner(&ctx.storage, "deployer"));
    assert!(!guard.is_contract_owner(&ctx.storage, "operator"));
    assert!(guard.is_operator(&ctx.storage, "operator"));
    assert!(guard.is_operator(&ctx.storage, "deputy"));
    assert!(!guard.is_operator(&ctx.storage, OWNER));
    assert!(guard.is_owner_or_operator(&ctx.storage, OWNER));
    assert!(guard.is_owner_or_operator(&ctx.storage, "deputy"));
    assert!(!guard.is_owner_or_operator(&ctx.storage, "stranger"));
    assert_eq!(guard.query_contract_owner(&ctx.storage).unwrap().owner, OWNER);
    assert!(guard.query_is_operator(&ctx.storage, "operator").unwrap().is_operator);
    assert!(!guard.query_is_operator(&ctx.storage, "stranger").unwrap().is_operator);
    assert_eq!(
        guard.query_operators(&ctx.storage).unwrap().operators,
        vec!["deputy".to_string(), "operator".to_string()]
    );
    assert_eq!(
        guard.query_operators(&empty_registry()).unwrap().operators,
        Vec::<String>::new()
    );
}

#[test]
fn guard_of_an_empty_storage_admits_nobody() {
    let storage = MemoryStorage::new();
    let guard = ADOContract::default();
    assert!(!guard.is_owner_or_operator(&storage, OWNER));
    assert_eq!(
        guard.query_contract_owner(&storage).unwrap_err(),
        ContractError::NotFound
    );
    let mut ctx = ExecuteContext::new(storage, OWNER, T0);
    assert_eq!(put(&mut ctx, 1, "t", "0.1.0"), Err(ContractError::Unauthorized));
}

#[test]
fn an_empty_registry_holds_nothing() {
    let storage = empty_registry();
    assert_eq!(all_ado_types(&storage, None, None), Ok(vec![]));
    assert_eq!(ado_versions(&storage, "t", None, None), Ok(vec![]));
    assert_eq!(code_id_from_ado_version(&storage, "t"), Err(ContractError::NotFound));
    assert_eq!(ado_version_from_code_id(&storage, 0), Ok(None));
    assert_eq!(action_fee(&storage, "t@0.1.0", "a"), Ok(None));
}

#[test]
fn owner_defaults_to_the_caller() {
    let mut storage = MemoryStorage::new();
    let msg = InstantiateMsg { ado_type: "adodb".to_string(), operators: None, owner: None };
    ADOContract::default().instantiate(&mut storage, "deployer", msg).unwrap();
    assert_eq!(
        ADOContract::default().query_contract_owner(&storage).unwrap().owner,
        "deployer"
    );
}

#[test]
fn operators_may_publish() {
    let mut ctx = registry();
    ctx.sender = "operator".to_string();
    assert_eq!(put(&mut ctx, 1, "t", "0.1.0"), Ok(()));
    assert_eq!(publisher(&ctx.storage, "t@0.1.0").unwrap(), "operator");
}

#[test]
fn second_publish_of_an_identity_is_refused() {
    let mut ctx = registry();
    assert_eq!(put(&mut ctx, 1, "t", "0.1.0"), Ok(()));
    assert_eq!(put(&mut ctx, 2, "t", "0.1.0"), Err(ContractError::InvalidIdentity));
    assert_eq!(put(&mut ctx, 1, "t", "0.1.0"), Err(ContractError::InvalidIdentity));
    assert_eq!(put(&mut ctx, 1, "u", "0.1.0"), Err(ContractError::InvalidIdentity));
    assert_eq!(code_id_from_ado_version(&ctx.storage, "t@0.1.0"), Ok(1));
    assert_eq!(
        ado_version_from_code_id(&ctx.storage, 2),
        Ok(None)
    );
}

#[test]
fn identities_that_cannot_be_stored_are_refused() {
    let mut ctx = registry();
    assert_eq!(put(&mut ctx, 1, "t", "0.1.0.0"), Err(ContractError::InvalidIdentity));
    assert_eq!(put(&mut ctx, 1, "t", "latest"), Err(ContractError::InvalidIdentity));
    assert_eq!(put(&mut ctx, 1, "t", ""), Err(ContractError::InvalidIdentity));
    assert_eq!(put(&mut ctx, 1, "", "0.1.0"), Err(ContractError::InvalidIdentity));
    assert_eq!(put(&mut ctx, 1, "t", "1.0.0@x"), Err(ContractError::InvalidIdentity));
    assert_eq!(ado_version_from_code_id(&ctx.storage, 1), Ok(None));
    assert_eq!(put(&mut ctx, 1, "t", "0.1.0"), Ok(()));
}

#[test]
fn an_identity_of_any_length_is_published() {
    let mut ctx = registry();
    let long = "t".repeat(70_000);
    let key = format!("{long}@0.1.0");
    assert_eq!(put(&mut ctx, 1, &long, "0.1.0"), Ok(()));
    assert_eq!(code_id_from_ado_version(&ctx.storage, &key), Ok(1));
    assert_eq!(code_id_from_ado_version(&ctx.storage, &long), Ok(1));
    assert_eq!(ado_version_from_code_id(&ctx.storage, 1), Ok(Some(key.clone())));
    assert_eq!(latest_version(&ctx.storage, &long).unwrap(), "0.1.0");
    assert_eq!(publisher(&ctx.storage, &key).unwrap(), OWNER);
    assert_eq!(
        ado_metadata(&ctx.storage, &key).unwrap(),
        ADOMetadata { published_on: T0, updated_on: T0, last_updated_by: OWNER.to_string() }
    );
    assert_eq!(all_ado_types(&ctx.storage, None, None), Ok(vec![key.clone()]));
    assert_eq!(ado_versions(&ctx.storage, &long, None, None), Ok(vec![key.clone()]));
    update_code_id(&mut ctx, &key, 2).unwrap();
    assert_eq!(code_id_from_ado_version(&ctx.storage, &key), Ok(2));
    update_publisher(&mut ctx, &key, Some("studio".to_string()), true).unwrap();
    assert_eq!(publisher(&ctx.storage, &key).unwrap(), "studio");
    // With no fee to keep, the length does not matter.
    publish(&mut ctx, 3, long.clone(), "0.2.0".to_string(), Some(vec![]), None, true).unwrap();
    assert_eq!(latest_version(&ctx.storage, &long).unwrap(), "0.2.0");
}

#[test]
fn the_fee_table_takes_identities_of_65535_bytes_at_most() {
    let mut ctx = registry();
    let a = fee("a", 5, "uandr", None);
    // Seven bytes go to `@` and the version.
    let longest = "t".repeat(65_535 - 6);
    let long = "t".repeat(65_535 - 5);
    let at_limit = format!("{longest}@0.1.0");
    let over_limit = format!("{long}@0.1.0");
    assert_eq!(at_limit.len(), 65_535);
    assert_eq!(over_limit.len(), 65_536);

    // An identity too long for the fee table is not published with fees,
    // and nothing is written.
    let before = format!("{:?}", ctx.storage);
    assert_eq!(
        publish(&mut ctx, 1, long.clone(), "0.1.0".to_string(), Some(vec![a.clone()]), None, true),
        Err(ContractError::InvalidIdentity)
    );
    assert_eq!(format!("{:?}", ctx.storage), before);

    // It is published without, and then takes no fees.
    assert_eq!(put(&mut ctx, 1, &long, "0.1.0"), Ok(()));
    let before = format!("{:?}", ctx.storage);
    assert_eq!(
        update_action_fees(&mut ctx, &over_limit, vec![a.clone()]).unwrap_err(),
        ContractError::InvalidIdentity
    );
    assert_eq!(format!("{:?}", ctx.storage), before);
    update_action_fees(&mut ctx, &over_limit, vec![]).unwrap();
    assert_eq!(format!("{:?}", ctx.storage), before);
    assert_eq!(action_fee(&ctx.storage, &over_limit, "a"), Ok(None));
    assert_eq!(action_fee_by_code_id(&ctx.storage, 1, "a"), Ok(None));
    // It has no fees to remove, and removing them is no error.
    let response = remove_action_fees(&mut ctx, &over_limit, vec!["a".to_string()]).unwrap();
    assert_eq!(
        response.attributes,
        vec![
            attr("action", "remove_action_fees"),
            attr("ado_type", over_limit.as_str()),
            attr("remove_action", "a"),
        ]
    );
    assert_eq!(format!("{:?}", ctx.storage), before);

    // One byte less, and the fee is kept.
    publish(&mut ctx, 2, longest.clone(), "0.1.0".to_string(), Some(vec![a.clone()]), None, true).unwrap();
    assert_eq!(action_fee(&ctx.storage, &at_limit, "a"), Ok(Some(a.clone())));
    assert_eq!(action_fee_by_code_id(&ctx.storage, 2, "a"), Ok(Some(a)));
    remove_action_fees(&mut ctx, &at_limit, vec!["a".to_string()]).unwrap();
    assert_eq!(action_fee(&ctx.storage, &at_limit, "a"), Ok(None));
}

#[test]
fn publish_drops_a_version_written_into_the_type() {
    let mut ctx = registry();
    assert_eq!(put(&mut ctx, 1, "t@9.9.9", "0.1.0"), Ok(()));
    assert_eq!(code_id_from_ado_version(&ctx.storage, "t@0.1.0"), Ok(1));
    assert_eq!(
        code_id_from_ado_version(&ctx.storage, "t@9.9.9"),
        Err(ContractError::NotFound)
    );
}

#[test]
fn bindings_go_both_ways() {
    let mut ctx = registry();
    put(&mut ctx, 11, "a", "1.0.0").unwrap();
    put(&mut ctx, 12, "a", "1.1.0").unwrap();
    put(&mut ctx, 13, "b", "0.0.1").unwrap();
    update_code_id(&mut ctx, "a@1.0.0", 14).unwrap();
    for (key, code_id) in [("a@1.0.0", 14u64), ("a@1.1.0", 12), ("b@0.0.1", 13)] {
        assert_eq!(code_id_from_ado_version(&ctx.storage, key), Ok(code_id));
        assert_eq!(
            ado_version_from_code_id(&ctx.storage, code_id),
            Ok(Some(key.to_string()))
        );
    }
    assert_eq!(ado_version_from_code_id(&ctx.storage, 11), Ok(None));
}

#[test]
fn latest_follows_versions_not_texts() {
    let mut ctx = registry();
    put(&mut ctx, 1, "t", "0.9.0").unwrap();
    put(&mut ctx, 2, "t", "0.10.0").unwrap();
    put(&mut ctx, 3, "t", "0.2.0").unwrap();
    assert_eq!(latest_version(&ctx.storage, "t").unwrap(), "0.10.0");
    assert_eq!(latest_version(&ctx.storage, "t@0.2.0").unwrap(), "0.10.0");
    assert_eq!(code_id_from_ado_version(&ctx.storage, "t@latest"), Ok(2));
    assert_eq!(code_id_from_ado_version(&ctx.storage, "t"), Ok(2));
    assert_eq!(
        get_strict_ado(&ctx.storage, "t").unwrap(),
        ADOVersion::from_string("t@0.10.0")
    );
    assert_eq!(
        get_strict_ado(&ctx.storage, "t@0.2.0").unwrap(),
        ADOVersion::from_string("t@0.2.0")
    );
}

#[test]
fn latest_under_the_given_publish_order() {
    let mut ctx = registry();
    put(&mut ctx, 1, "t", "0.1.1").unwrap();
    put(&mut ctx, 2, "t", "0.1.2").unwrap();
    put(&mut ctx, 3, "t", "0.1.0").unwrap();
    assert_eq!(code_id_from_ado_version(&ctx.storage, "t@latest"), Ok(2));
    assert_eq!(code_id_from_ado_version(&ctx.storage, "t"), Ok(2));
}

#[test]
fn a_release_is_newer_than_its_candidates() {
    let mut ctx = registry();
    put(&mut ctx, 1, "t", "1.0.0").unwrap();
    put(&mut ctx, 2, "t", "1.0.0-rc.1").unwrap();
    assert_eq!(latest_version(&ctx.storage, "t").unwrap(), "1.0.0");
    put(&mut ctx, 3, "t", "1.0.1-alpha").unwrap();
    assert_eq!(latest_version(&ctx.storage, "t").unwrap(), "1.0.1-alpha");
}

#[test]
fn unknown_things_are_not_found() {
    let mut ctx = registry();
    put(&mut ctx, 1, "t", "0.1.0").unwrap();
    assert_eq!(
        code_id_from_ado_version(&ctx.storage, "t@0.2.0"),
        Err(ContractError::NotFound)
    );
    assert_eq!(
        code_id_from_ado_version(&ctx.storage, "u@latest"),
        Err(ContractError::NotFound)
    );
    assert_eq!(code_id_from_ado_version(&ctx.storage, "u"), Err(ContractError::NotFound));
    assert_eq!(latest_version(&ctx.storage, "u"), Err(ContractError::NotFound));
    assert_eq!(publisher(&ctx.storage, "u@0.1.0"), Err(ContractError::NotFound));
    assert_eq!(ado_metadata(&ctx.storage, "u@0.1.0"), Err(ContractError::NotFound));
    assert_eq!(ado_metadata(&ctx.storage, "t"), Err(ContractError::NotFound));
    assert_eq!(
        action_fee_by_code_id(&ctx.storage, 9, "mint"),
        Err(ContractError::NotFound)
    );
    assert_eq!(action_fee(&ctx.storage, "u@0.1.0", "mint"), Ok(None));
    assert_eq!(action_fee(&ctx.storage, &"u".repeat(70_000), "mint"), Ok(None));
    assert_eq!(ado_version_from_code_id(&ctx.storage, 9), Ok(None));
    assert_eq!(
        get_strict_ado(&ctx.storage, "u").unwrap_err(),
        ContractError::NotFound
    );
}

#[test]
fn existence_asks_for_a_strict_bound_identity() {
    let mut ctx = registry();
    put(&mut ctx, 1, "t", "0.1.0").unwrap();
    assert_eq!(ado_exists(&ctx.storage, &ADOVersion::from_string("t@0.1.0")), Ok(()));
    for key in ["t", "t@latest", "t@0.2.0", "u@0.1.0", ""] {
        assert_eq!(
            ado_exists(&ctx.storage, &ADOVersion::from_string(key)),
            Err(ContractError::InvalidIdentity)
        );
    }
}

#[test]
fn update_keeps_the_time_of_publication() {
    let mut ctx = registry();
    put(&mut ctx, 1, "t", "0.1.0").unwrap();
    assert_eq!(
        ado_metadata(&ctx.storage, "t@0.1.0").unwrap(),
        ADOMetadata { published_on: T0, updated_on: T0, last_updated_by: OWNER.to_string() }
    );
    ctx.block_time = T1;
    ctx.sender = "operator".to_string();
    let response = update_code_id(&mut ctx, "t@0.1.0", 2).unwrap();
    assert_eq!(
        response.attributes,
        vec![
            attr("action", "update_code_id"),
            attr("code_id_key", "t@0.1.0"),
            attr("code_id", "2"),
            attr("action", "store_code_id"),
            attr("ado_type", "t"),
            attr("version", "0.1.0"),
            attr("key", "t@0.1.0"),
            attr("code_id", "2"),
            attr("action", "update_metadata"),
            attr("update_metadata", "t@0.1.0"),
            attr("action", "update_latest_version"),
            attr("version", "t@0.1.0"),
        ]
    );
    assert_eq!(
        ado_metadata(&ctx.storage, "t@0.1.0").unwrap(),
        ADOMetadata { published_on: T0, updated_on: T1, last_updated_by: "operator".to_string() }
    );
    assert_eq!(publisher(&ctx.storage, "t@0.1.0").unwrap(), OWNER);
}

#[test]
fn update_is_refused_without_a_bound_identity_and_a_free_code_id() {
    let mut ctx = registry();
    put(&mut ctx, 1, "t", "0.1.0").unwrap();
    put(&mut ctx, 2, "t", "0.2.0").unwrap();
    assert_eq!(
        update_code_id(&mut ctx, "u@0.1.0", 3).unwrap_err(),
        ContractError::InvalidIdentity
    );
    assert_eq!(
        update_code_id(&mut ctx, "t@latest", 3).unwrap_err(),
        ContractError::InvalidIdentity
    );
    assert_eq!(
        update_code_id(&mut ctx, "t@0.1.0", 2).unwrap_err(),
        ContractError::InvalidIdentity
    );
    assert_eq!(
        update_code_id(&mut ctx, "t@0.1.0", 1).unwrap_err(),
        ContractError::InvalidIdentity
    );
    assert_eq!(code_id_from_ado_version(&ctx.storage, "t@0.1.0"), Ok(1));
    assert_eq!(latest_version(&ctx.storage, "t").unwrap(), "0.2.0");
    update_code_id(&mut ctx, "t@0.1.0", 3).unwrap();
    assert_eq!(latest_version(&ctx.storage, "t").unwrap(), "0.2.0");
    assert_eq!(code_id_from_ado_version(&ctx.storage, "t@latest"), Ok(2));
}

#[test]
fn fee_removal_is_partial_and_precise() {
    let mut ctx = registry();
    let a = fee("a", 5, "uandr", Some("treasury"));
    let b = fee("b", 7, "cw20:token", None);
    let response = publish(
        &mut ctx,
        1,
        "t".to_string(),
        "0.1.0".to_string(),
        Some(vec![a.clone(), b.clone()]),
        Some("studio".to_string()),
        true,
    )
    .unwrap();
    assert_eq!(
        &response.attributes[10..],
        &[
            attr("action", "update_publisher"),
            attr("update_publisher", "studio"),
            attr("action", "update_action_fees"),
            attr("ado_type", "t@0.1.0"),
            attr("update_action", "a"),
            attr("update_action", "b"),
        ]
    );
    assert_eq!(action_fee(&ctx.storage, "t@0.1.0", "a"), Ok(Some(a.clone())));
    assert_eq!(action_fee(&ctx.storage, "t@0.1.0", "b"), Ok(Some(b.clone())));
    assert_eq!(action_fee_by_code_id(&ctx.storage, 1, "a"), Ok(Some(a)));
    let response =
        remove_action_fees(&mut ctx, "t@0.1.0", vec!["a".to_string(), "never".to_string()]).unwrap();
    assert_eq!(
        response.attributes,
        vec![
            attr("action", "remove_action_fees"),
            attr("ado_type", "t@0.1.0"),
            attr("remove_action", "a"),
            attr("remove_action", "never"),
        ]
    );
    assert_eq!(action_fee(&ctx.storage, "t@0.1.0", "a"), Ok(None));
    assert_eq!(action_fee(&ctx.storage, "t@0.1.0", "b"), Ok(Some(b.clone())));
    assert_eq!(action_fee_by_code_id(&ctx.storage, 1, "a"), Ok(None));
    assert_eq!(action_fee_by_code_id(&ctx.storage, 1, "b"), Ok(Some(b)));
}

#[test]
fn of_two_fees_for_one_action_the_later_stays() {
    let mut ctx = registry();
    put(&mut ctx, 1, "t", "0.1.0").unwrap();
    let first = fee("a", 5, "uandr", None);
    let second = fee("a", 9, "uusd", Some("treasury"));
    update_action_fees(&mut ctx, "t@0.1.0", vec![first.clone(), second.clone()]).unwrap();
    assert_eq!(action_fee(&ctx.storage, "t@0.1.0", "a"), Ok(Some(second)));
    update_action_fees(&mut ctx, "t@0.1.0", vec![first.clone()]).unwrap();
    assert_eq!(action_fee(&ctx.storage, "t@0.1.0", "a"), Ok(Some(first)));
    assert_eq!(action_fee(&ctx.storage, "t@0.1.0", "b"), Ok(None));
}

#[test]
fn fees_need_a_strict_bound_identity() {
    let mut ctx = registry();
    put(&mut ctx, 1, "t", "0.1.0").unwrap();
    let a = fee("a", 5, "uandr", None);
    for key in ["t", "t@latest", "t@0.2.0", "u@0.1.0"] {
        assert_eq!(
            update_action_fees(&mut ctx, key, vec![a.clone()]).unwrap_err(),
            ContractError::InvalidIdentity
        );
        assert_eq!(
            remove_action_fees(&mut ctx, key, vec!["a".to_string()]).unwrap_err(),
            ContractError::InvalidIdentity
        );
    }
    assert_eq!(action_fee(&ctx.storage, "t@0.1.0", "a"), Ok(None));
}

#[test]
fn publisher_can_be_named_again() {
    let mut ctx = registry();
    put(&mut ctx, 1, "t", "0.1.0").unwrap();
    assert_eq!(publisher(&ctx.storage, "t@0.1.0").unwrap(), OWNER);
    assert_eq!(publisher(&ctx.storage, "t").unwrap(), OWNER);
    let response = update_publisher(&mut ctx, "t@0.1.0", Some("studio".to_string()), true).unwrap();
    assert_eq!(
        response.attributes,
        vec![attr("action", "update_publisher"), attr("update_publisher", "studio")]
    );
    assert_eq!(publisher(&ctx.storage, "t@latest").unwrap(), "studio");
    ctx.sender = "deputy".to_string();
    update_publisher(&mut ctx, "t@0.1.0", None, true).unwrap();
    assert_eq!(publisher(&ctx.storage, "t@0.1.0").unwrap(), "deputy");
    assert_eq!(
        update_publisher(&mut ctx, "u@0.1.0", None, true).unwrap_err(),
        ContractError::InvalidIdentity
    );
}

#[test]
fn strangers_change_nothing() {
    let mut ctx = registry();
    let a = fee("a", 5, "uandr", None);
    publish(&mut ctx, 1, "t".to_string(), "0.1.0".to_string(), Some(vec![a.clone()]), None, true).unwrap();
    ctx.sender = "stranger".to_string();
    ctx.block_time = T1;
    let before = format!("{:?}", ctx.storage);
    let changes = vec![
        ExecuteMsg::Publish {
            code_id: 2,
            ado_type: "t".to_string(),
            action_fees: None,
            version: "0.2.0".to_string(),
            publisher: None,
        },
        ExecuteMsg::UpdateCodeId { code_id_key: "t@0.1.0".to_string(), code_id: 2 },
        ExecuteMsg::UpdateActionFees {
            ado_type: "t@0.1.0".to_string(),
            action_fees: vec![fee("b", 1, "uusd", None)],
        },
        ExecuteMsg::RemoveActionFees { ado_type: "t@0.1.0".to_string(), actions: vec!["a".to_string()] },
        ExecuteMsg::UpdatePublisher { ado_version: "t@0.1.0".to_string(), publisher: "stranger".to_string() },
    ];
    for change in changes {
        assert_eq!(execute(&mut ctx, change, true).unwrap_err(), ContractError::Unauthorized);
        assert_eq!(format!("{:?}", ctx.storage), before);
    }
    assert_eq!(code_id_from_ado_version(&ctx.storage, "t@latest"), Ok(1));
    assert_eq!(ado_version_from_code_id(&ctx.storage, 2), Ok(None));
    assert_eq!(latest_version(&ctx.storage, "t").unwrap(), "0.1.0");
    assert_eq!(publisher(&ctx.storage, "t@0.1.0").unwrap(), OWNER);
    assert_eq!(
        ado_metadata(&ctx.storage, "t@0.1.0").unwrap(),
        ADOMetadata { published_on: T0, updated_on: T0, last_updated_by: OWNER.to_string() }
    );
    assert_eq!(action_fee(&ctx.storage, "t@0.1.0", "a"), Ok(Some(a)));
    assert_eq!(action_fee(&ctx.storage, "t@0.1.0", "b"), Ok(None));
    assert_eq!(
        query(&ctx.storage, QueryMsg::AllADOTypes { start_after: None, limit: None }),
        Ok(QueryResponse::Keys(vec!["t@0.1.0".to_string()]))
    );
}

#[test]
fn a_refused_change_leaves_the_storage_as_it_was() {
    let mut ctx = registry();
    let a = fee("a", 5, "uandr", None);
    publish(&mut ctx, 1, "t".to_string(), "0.1.0".to_string(), Some(vec![a.clone()]), None, true).unwrap();
    let before = format!("{:?}", ctx.storage);
    assert_ne!(before, format!("{:?}", MemoryStorage::new()));
    ctx.block_time = T1;
    let refused = vec![
        (
            ExecuteMsg::Publish {
                code_id: 1,
                ado_type: "u".to_string(),
                action_fees: Some(vec![a.clone()]),
                version: "0.1.0".to_string(),
                publisher: None,
            },
            ContractError::InvalidIdentity,
        ),
        (
            ExecuteMsg::Publish {
                code_id: 2,
                ado_type: "t".to_string(),
                action_fees: None,
                version: "0.1.0".to_string(),
                publisher: Some("studio".to_string()),
            },
            ContractError::InvalidIdentity,
        ),
        (
            ExecuteMsg::Publish {
                code_id: 2,
                ado_type: "t".to_string(),
                action_fees: Some(vec![a.clone()]),
                version: "one".to_string(),
                publisher: None,
            },
            ContractError::InvalidIdentity,
        ),
        (
            ExecuteMsg::UpdateCodeId { code_id_key: "t@0.2.0".to_string(), code_id: 3 },
            ContractError::InvalidIdentity,
        ),
        (
            ExecuteMsg::UpdateCodeId { code_id_key: "t@0.1.0".to_string(), code_id: 1 },
            ContractError::InvalidIdentity,
        ),
        (
            ExecuteMsg::UpdateActionFees { ado_type: "t".to_string(), action_fees: vec![a.clone()] },
            ContractError::InvalidIdentity,
        ),
        (
            ExecuteMsg::RemoveActionFees { ado_type: "u@0.1.0".to_string(), actions: vec!["a".to_string()] },
            ContractError::InvalidIdentity,
        ),
        (
            ExecuteMsg::UpdatePublisher { ado_version: "u@0.1.0".to_string(), publisher: "studio".to_string() },
            ContractError::InvalidIdentity,
        ),
    ];
    for (change, error) in refused {
        assert_eq!(execute(&mut ctx, change, true), Err(error));
        assert_eq!(format!("{:?}", ctx.storage), before);
    }
    // A change that is made does show.
    update_publisher(&mut ctx, "t@0.1.0", Some("studio".to_string()), true).unwrap();
    assert_ne!(format!("{:?}", ctx.storage), before);
}

#[test]
fn queries_answer_by_message() {
    let mut ctx = registry();
    let a = fee("a", 5, "uandr", None);
    publish(&mut ctx, 1, "t".to_string(), "0.1.0".to_string(), Some(vec![a.clone()]), None, true).unwrap();
    assert_eq!(
        query(&ctx.storage, QueryMsg::ActionFee { ado_type: "t@0.1.0".to_string(), action: "a".to_string() }),
        Ok(QueryResponse::ActionFee(Some(a.clone())))
    );
    assert_eq!(
        query(&ctx.storage, QueryMsg::ActionFeeByCodeId { code_id: 1, action: "a".to_string() }),
        Ok(QueryResponse::ActionFee(Some(a)))
    );
    assert_eq!(
        query(&ctx.storage, QueryMsg::ActionFeeByCodeId { code_id: 2, action: "a".to_string() }),
        Err(ContractError::NotFound)
    );
    assert_eq!(
        query(&ctx.storage, QueryMsg::ADOType { code_id: 2 }),
        Ok(QueryResponse::ADOType(None))
    );
    assert_eq!(
        query(&ctx.storage, QueryMsg::CodeId { key: "u".to_string() }),
        Err(ContractError::NotFound)
    );
    assert_eq!(
        query(
            &ctx.storage,
            QueryMsg::ADOVersions { ado_type: "t".to_string(), start_after: None, limit: None }
        ),
        Ok(QueryResponse::Keys(vec!["t@0.1.0".to_string()]))
    );
    assert_eq!(
        query(&ctx.storage, QueryMsg::ADOPublisher { ado_version: "t".to_string() }),
        Ok(QueryResponse::Publisher(OWNER.to_string()))
    );
}

#[test]
fn the_storage_holds_the_maps_under_their_names() {
    let mut ctx = registry();
    let a = fee("a", 5, "uandr", Some("treasury"));
    publish(&mut ctx, 7, "t".to_string(), "0.1.0".to_string(), Some(vec![a]), Some("studio".to_string()), true)
        .unwrap();
    let storage = &ctx.storage;
    assert_eq!(
        cw_storage_plus::Item::<cosmwasm_std::Addr>::new("owner").load(storage).unwrap(),
        cosmwasm_std::Addr::unchecked(OWNER)
    );
    assert!(cw_storage_plus::Map::<&str, bool>::new("operators").has(storage, "operator"));
    assert_eq!(
        cw_storage_plus::Map::<&str, u64>::new("code_id").load(storage, "t@0.1.0").unwrap(),
        7
    );
    assert_eq!(
        cw_storage_plus::Map::<u64, String>::new("ado_type").load(storage, 7).unwrap(),
        "t@0.1.0"
    );
    assert_eq!(
        cw_storage_plus::Map::<&str, String>::new("latest_version").load(storage, "t").unwrap(),
        "0.1.0"
    );
    assert_eq!(
        cw_storage_plus::Map::<&str, cosmwasm_std::Addr>::new("publisher")
            .load(storage, "t@0.1.0")
            .unwrap(),
        cosmwasm_std::Addr::unchecked("studio")
    );
    assert!(cw_storage_plus::Map::<&str, (u64, u64, String)>::new("metadata").has(storage, "t@0.1.0"));
    assert!(cw_storage_plus::Map::<(&str, &str), cosmwasm_std::Empty>::new("action_fees")
        .has(storage, ("t@0.1.0", "a")));
    assert!(!cw_storage_plus::Map::<(&str, &str), cosmwasm_std::Empty>::new("action_fees")
        .has(storage, ("t@0.1.0", "b")));
}

#[test]
fn an_address_that_the_host_rejects_names_no_publisher() {
    let mut ctx = registry();
    let a = fee("a", 5, "uandr", None);
    let before = format!("{:?}", ctx.storage);
    assert_eq!(
        publish(&mut ctx, 1, "t".to_string(), "0.1.0".to_string(), None, Some("x".to_string()), false),
        Err(ContractError::InvalidAddress)
    );
    assert_eq!(
        publish(&mut ctx, 1, "t".to_string(), "0.1.0".to_string(), Some(vec![a.clone()]), None, false),
        Err(ContractError::InvalidAddress)
    );
    assert_eq!(format!("{:?}", ctx.storage), before);
    assert_eq!(code_id_from_ado_version(&ctx.storage, "t@0.1.0"), Err(ContractError::NotFound));
    assert_eq!(ado_version_from_code_id(&ctx.storage, 1), Ok(None));
    assert_eq!(latest_version(&ctx.storage, "t"), Err(ContractError::NotFound));

    publish(&mut ctx, 1, "t".to_string(), "0.1.0".to_string(), None, Some("studio".to_string()), true)
        .unwrap();
    let before = format!("{:?}", ctx.storage);
    assert_eq!(
        update_publisher(&mut ctx, "t@0.1.0", Some("x".to_string()), false).unwrap_err(),
        ContractError::InvalidAddress
    );
    assert_eq!(
        execute(
            &mut ctx,
            ExecuteMsg::UpdatePublisher { ado_version: "t@0.1.0".to_string(), publisher: "x".to_string() },
            false
        ),
        Err(ContractError::InvalidAddress)
    );
    assert_eq!(format!("{:?}", ctx.storage), before);
    assert_eq!(publisher(&ctx.storage, "t@0.1.0").unwrap(), "studio");
}

#[test]
fn the_address_is_asked_for_after_the_caller_and_the_identity() {
    let mut ctx = registry();
    let a = fee("a", 5, "uandr", None);
    publish(&mut ctx, 1, "t".to_string(), "0.1.0".to_string(), None, None, true).unwrap();
    let before = format!("{:?}", ctx.storage);
    // A bound identity, a bound code id, an identity that cannot be stored.
    for (code_id, version) in [(2u64, "0.1.0"), (1, "0.2.0"), (2, "two")] {
        assert_eq!(
            publish(&mut ctx, code_id, "t".to_string(), version.to_string(), None, None, false),
            Err(ContractError::InvalidIdentity)
        );
    }
    assert_eq!(
        update_publisher(&mut ctx, "u@0.1.0", Some("x".to_string()), false).unwrap_err(),
        ContractError::InvalidIdentity
    );
    // The address comes before the fee table.
    let long = "t".repeat(70_000);
    assert_eq!(
        publish(&mut ctx, 2, long.clone(), "0.1.0".to_string(), Some(vec![a.clone()]), None, false),
        Err(ContractError::InvalidAddress)
    );
    assert_eq!(
        publish(&mut ctx, 2, long, "0.1.0".to_string(), Some(vec![a.clone()]), None, true),
        Err(ContractError::InvalidIdentity)
    );
    // A stranger is told that he is one.
    ctx.sender = "stranger".to_string();
    assert_eq!(
        publish(&mut ctx, 2, "t".to_string(), "0.2.0".to_string(), None, None, false),
        Err(ContractError::Unauthorized)
    );
    assert_eq!(
        update_publisher(&mut ctx, "t@0.1.0", Some("x".to_string()), false).unwrap_err(),
        ContractError::Unauthorized
    );
    assert_eq!(format!("{:?}", ctx.storage), before);
}

#[test]
fn changes_that_name_no_publisher_do_not_ask_for_an_address() {
    let mut ctx = registry();
    let a = fee("a", 5, "uandr", None);
    publish(&mut ctx, 1, "t".to_string(), "0.1.0".to_string(), None, None, true).unwrap();
    execute(
        &mut ctx,
        ExecuteMsg::UpdateCodeId { code_id_key: "t@0.1.0".to_string(), code_id: 2 },
        false,
    )
    .unwrap();
    execute(
        &mut ctx,
        ExecuteMsg::UpdateActionFees { ado_type: "t@0.1.0".to_string(), action_fees: vec![a.clone()] },
        false,
    )
    .unwrap();
    assert_eq!(action_fee_by_code_id(&ctx.storage, 2, "a"), Ok(Some(a)));
    execute(
        &mut ctx,
        ExecuteMsg::RemoveActionFees { ado_type: "t@0.1.0".to_string(), actions: vec!["a".to_string()] },
        false,
    )
    .unwrap();
    assert_eq!(action_fee_by_code_id(&ctx.storage, 2, "a"), Ok(None));
}
