//! The messages that the registry takes, and what its queries answer.

use vstd::prelude::*;
use crate::records::{ADOMetadata, ActionFee};

verus! {

/// What is needed to set up the registry: who owns it, the caller where
/// no owner is named, and the address of the kernel that it belongs to,
/// which the registry itself has no use for.
#[derive(Debug, Clone, PartialEq, Eq)]
pub struct InstantiateMsg {
    pub kernel_address: String,
    pub owner: Option<String>,
}

/// A change to the registry.
#[allow(inconsistent_fields)]
#[derive(Debug, Clone, PartialEq, Eq)]
pub enum ExecuteMsg {
    Publish {
        code_id: u64,
        ado_type: String,
        action_fees: Option<Vec<ActionFee>>,
        version: String,
        publisher: Option<String>,
    },
    UpdateCodeId { code_id_key: String, code_id: u64 },
    UpdateActionFees { ado_type: String, action_fees: Vec<ActionFee> },
    RemoveActionFees { ado_type: String, actions: Vec<String> },
    UpdatePublisher { ado_version: String, publisher: String },
}

/// A question to the registry.
#[derive(Debug, Clone, PartialEq, Eq)]
pub enum QueryMsg {
    CodeId { key: String },
    ADOType { code_id: u64 },
    AllADOTypes { start_after: Option<String>, limit: Option<u32> },
    ADOVersions { ado_type: String, start_after: Option<String>, limit: Option<u32> },
    ADOPublisher { ado_version: String },
    ADOMetadata { ado_version: String },
    ActionFee { ado_type: String, action: String },
    ActionFeeByCodeId { code_id: u64, action: String },
}

/// What is needed to move the registry to a new version of its code: nothing.
#[derive(Debug, Clone, PartialEq, Eq)]
pub struct MigrateMsg {}

/// The answer to a question.
#[derive(Debug, Clone, PartialEq, Eq)]
pub enum QueryResponse {
    /// The code id of an identity.
    CodeId(u64),
    /// The identity of a code id, if it has one.
    ADOType(Option<String>),
    /// A page of identity keys.
    Keys(Vec<String>),
    /// The publisher of an identity.
    Publisher(String),
    /// The publication record of an identity.
    Metadata(ADOMetadata),
    /// The fee of an action, if it has one.
    ActionFee(Option<ActionFee>),
}

} // verus!
