use adodb::ado_version::{find_separator, same_text, ADOVersion};
use adodb::attributes::{decimal_string, Attributes};
use adodb::error::ContractError;
use adodb::execute::{can_be_stored, fee_table_holds};
use adodb::migration::{check_migration, decide_migration, MigrationRefusal};
use adodb::primitive::{get_key_or_default, DEFAULT_KEY};
use adodb::records::ActionFee;
use adodb::response::{attr, Attribute, Response};
use adodb::version_order::{is_version, next_latest};

#[test]
fn key_splits_at_first_separator() {
    let key = ADOVersion::from_string("address_list@0.1.0");
    assert_eq!(key.get_type(), "address_list");
    assert_eq!(key.get_version(), "0.1.0");
    assert_eq!(key.as_str(), "address_list@0.1.0");
    assert_eq!(key.into_string(), "address_list@0.1.0");
}

#[test]
fn key_without_separator_names_latest() {
    let key = ADOVersion::from_string("address_list");
    assert_eq!(key.get_type(), "address_list");
    assert_eq!(key.get_version(), "latest");
    assert!(!key.validate_strict());
}

#[test]
fn key_with_two_separators_keeps_the_rest_as_version() {
    let key = ADOVersion::from_string("a@b@c");
    assert_eq!(key.get_type(), "a");
    assert_eq!(key.get_version(), "b@c");
}

#[test]
fn key_with_wide_characters_splits_by_character() {
    let key = ADOVersion::from_string("modül@1.0.0");
    assert_eq!(find_separator("modül@1.0.0"), 5);
    assert_eq!(key.get_type(), "modül");
    assert_eq!(key.get_version(), "1.0.0");
}

#[test]
fn with_version_replaces_the_version() {
    let key = ADOVersion::from_string("address_list@0.1.0").with_version("0.2.0");
    assert_eq!(key.as_str(), "address_list@0.2.0");
    let key = ADOVersion::from_type("address_list").with_version("0.1.0");
    assert_eq!(key.as_str(), "address_list@0.1.0");
    assert_eq!(key, ADOVersion::from_string("address_list@0.1.0"));
}

#[test]
fn strict_keys_name_type_and_concrete_version() {
    assert!(ADOVersion::from_string("address_list@0.1.0").validate_strict());
    assert!(ADOVersion::from_string("a@b").validate_strict());
    assert!(!ADOVersion::from_string("").validate_strict());
    assert!(!ADOVersion::from_string("address_list").validate_strict());
    assert!(!ADOVersion::from_string("address_list@").validate_strict());
    assert!(!ADOVersion::from_string("address_list@latest").validate_strict());
    assert!(!ADOVersion::from_string("@0.1.0").validate_strict());
}

#[test]
fn key_as_a_pair() {
    assert_eq!(
        ADOVersion::from_string("address_list@0.1.0").get_tuple(),
        ("address_list".to_string(), "0.1.0".to_string())
    );
    assert_eq!(
        ADOVersion::from_string("address_list").get_tuple(),
        ("address_list".to_string(), "latest".to_string())
    );
}

#[test]
fn separator_position() {
    assert_eq!(find_separator(""), 0);
    assert_eq!(find_separator("abc"), 3);
    assert_eq!(find_separator("@"), 0);
    assert_eq!(find_separator("ab@cd@ef"), 2);
}

#[test]
fn texts_compare_by_content() {
    assert!(same_text("latest", "latest"));
    assert!(!same_text("latest", "Latest"));
    assert!(!same_text("latest", "latest "));
}

#[test]
fn decimal_strings() {
    assert_eq!(decimal_string(0), "0");
    assert_eq!(decimal_string(7), "7");
    assert_eq!(decimal_string(10), "10");
    assert_eq!(decimal_string(101), "101");
    assert_eq!(decimal_string(1234567890), "1234567890");
    assert_eq!(decimal_string(u64::MAX), "18446744073709551615");
}

#[test]
fn attribute_lists() {
    assert_eq!(
        Attributes::update_code_id("address_list@0.1.0", 42),
        vec![
            attr("action", "update_code_id"),
            attr("code_id_key", "address_list@0.1.0"),
            attr("code_id", "42"),
        ]
    );
    assert_eq!(Attributes::publish(), vec![attr("action", "publish_ado")]);
    assert_eq!(
        Attributes::update_action_fees("a@1.0.0"),
        vec![attr("action", "update_action_fees"), attr("ado_type", "a@1.0.0")]
    );
    assert_eq!(Attributes::update_action_fee("mint"), attr("update_action", "mint"));
    assert_eq!(
        Attributes::remove_action_fees("a@1.0.0"),
        vec![attr("action", "remove_action_fees"), attr("ado_type", "a@1.0.0")]
    );
    assert_eq!(Attributes::remove_action_fee("mint"), attr("remove_action", "mint"));
    let key = ADOVersion::from_string("address_list@0.1.0");
    assert_eq!(
        Attributes::store_code_id(&key, 1),
        vec![
            attr("action", "store_code_id"),
            attr("ado_type", "address_list"),
            attr("version", "0.1.0"),
            attr("key", "address_list@0.1.0"),
            attr("code_id", "1"),
        ]
    );
    assert_eq!(
        Attributes::update_latest_version(&key),
        vec![
            attr("action", "update_latest_version"),
            attr("version", "address_list@0.1.0"),
        ]
    );
    assert_eq!(
        Attributes::update_metadata(&key),
        vec![
            attr("action", "update_metadata"),
            attr("update_metadata", "address_list@0.1.0"),
        ]
    );
    assert_eq!(
        Attributes::update_publisher("creator"),
        vec![
            attr("action", "update_publisher"),
            attr("update_publisher", "creator"),
        ]
    );
}

#[test]
fn responses_collect_attributes_in_order() {
    let response = Response::new()
        .add_attribute(attr("a", "1"))
        .add_attributes(vec![attr("b", "2"), attr("c", "3")]);
    assert_eq!(
        response.attributes,
        vec![
            Attribute { key: "a".to_string(), value: "1".to_string() },
            Attribute { key: "b".to_string(), value: "2".to_string() },
            Attribute { key: "c".to_string(), value: "3".to_string() },
        ]
    );
    assert!(Response::new().attributes.is_empty());
}

#[test]
fn key_or_default() {
    assert_eq!(get_key_or_default(&None), "default");
    assert_eq!(get_key_or_default(&None), DEFAULT_KEY);
    assert_eq!(get_key_or_default(&Some("rate".to_string())), "rate");
    assert_eq!(get_key_or_default(&Some(String::new())), "");
}

#[test]
fn storable_identities() {
    for (key, storable) in [
        ("t@0.1.0", true),
        ("t@1.0.0-rc.1+build.7", true),
        ("t", false),
        ("t@latest", false),
        ("t@", false),
        ("@0.1.0", false),
        ("t@0.1", false),
        ("t@0.1.0@x", false),
    ] {
        assert_eq!(can_be_stored(&ADOVersion::from_string(key)), storable, "{}", key);
    }
    assert!(can_be_stored(&ADOVersion::from_string(&format!("{}@0.1.0", "t".repeat(70_000)))));
}

#[test]
fn semantic_versions() {
    assert!(is_version("0.1.0"));
    assert!(is_version("1.0.0-alpha.1+build.5"));
    assert!(!is_version("0.1.0.0"));
    assert!(!is_version("0.1"));
    assert!(!is_version("01.1.0"));
    assert!(!is_version("latest"));
    assert!(!is_version(""));
}

#[test]
fn latest_moves_only_to_a_newer_version() {
    assert_eq!(next_latest(None, "0.1.0", false), "0.1.0");
    assert_eq!(next_latest(Some("0.1.0".to_string()), "0.2.0", true), "0.2.0");
    assert_eq!(next_latest(Some("0.2.0".to_string()), "0.1.0", false), "0.2.0");
    assert_eq!(next_latest(Some("0.2.0".to_string()), "0.2.0", false), "0.2.0");
}

#[test]
fn error_messages() {
    assert_eq!(ContractError::Unauthorized.message(), "unauthorized");
    assert_eq!(ContractError::InvalidIdentity.message(), "invalid ADO version");
    assert_eq!(ContractError::NotFound.message(), "not found");
    assert_eq!(ContractError::InvalidAddress.message(), "invalid address");
}

#[test]
fn migration_is_decided_from_what_is_known_of_the_versions() {
    assert_eq!(decide_migration(true, true, true), None);
    assert_eq!(decide_migration(true, true, false), Some(MigrationRefusal::NotNewer));
    assert_eq!(decide_migration(true, false, true), Some(MigrationRefusal::OtherContract));
    assert_eq!(decide_migration(true, false, false), Some(MigrationRefusal::OtherContract));
    assert_eq!(decide_migration(false, true, true), Some(MigrationRefusal::InvalidVersion));
    assert_eq!(decide_migration(false, false, false), Some(MigrationRefusal::InvalidVersion));
}

#[test]
fn migration_goes_to_newer_code_of_the_same_contract() {
    let name = "crates.io:andromeda-adodb";
    assert_eq!(check_migration(name, "0.1.0", name, "0.2.0"), None);
    assert_eq!(check_migration(name, "0.9.0", name, "0.10.0"), None);
    assert_eq!(check_migration(name, "1.0.0-rc.1", name, "1.0.0"), None);
    assert_eq!(check_migration(name, "0.2.0", name, "0.2.0"), Some(MigrationRefusal::NotNewer));
    assert_eq!(check_migration(name, "0.10.0", name, "0.9.0"), Some(MigrationRefusal::NotNewer));
    assert_eq!(
        check_migration("crates.io:andromeda-rates", "0.1.0", name, "0.2.0"),
        Some(MigrationRefusal::OtherContract)
    );
    assert_eq!(
        check_migration("crates.io:andromeda-rates", "0.3.0", name, "0.2.0"),
        Some(MigrationRefusal::OtherContract)
    );
    assert_eq!(check_migration(name, "0.1", name, "0.2.0"), Some(MigrationRefusal::InvalidVersion));
    assert_eq!(check_migration(name, "0.1.0", name, "two"), Some(MigrationRefusal::InvalidVersion));
    assert_eq!(
        check_migration("other", "", name, "0.2.0"),
        Some(MigrationRefusal::InvalidVersion)
    );
}

#[test]
fn the_fee_table_holds_no_fee_for_a_key_too_long() {
    let fee = ActionFee::new("a".to_string(), "uandr".to_string(), 1, None);
    let at_limit = "k".repeat(65_535);
    let over_limit = "k".repeat(65_536);
    assert!(fee_table_holds(&at_limit, &vec![fee.clone()]));
    assert!(!fee_table_holds(&over_limit, &vec![fee.clone()]));
    assert!(fee_table_holds(&over_limit, &vec![]));
    assert!(fee_table_holds("", &vec![fee]));
    // The limit is on bytes, not on characters.
    let wide = "ü".repeat(32_768);
    assert_eq!(wide.chars().count(), 32_768);
    assert!(!fee_table_holds(&wide, &vec![ActionFee::new("a".to_string(), "x".to_string(), 1, None)]));
}
