//! A registry of published module code.
//!
//! Every published module is known by an identity, `type@version`, and bound
//! one-to-one to a numeric code id. The registry keeps, for each module type,
//! a pointer to its latest version, and for each identity its publisher, its
//! publication record and a table of per-action fees. Only the owner of the
//! registry and its operators may change it.
//!
//! State is held in a `cosmwasm_std::MemoryStorage`, read and written through
//! `cw_storage_plus` maps, and versions are judged by the `semver` crate. The
//! contracts that are taken on trust for those crates stand in three places:
//! the module [`store`], the two functions of [`version_order`] that ask
//! `semver`, and the sort in [`version_sort`]. Everything else is proved.

pub mod ado_version;
pub mod error;
pub mod key_order;
pub mod records;
pub mod state;
pub mod store;
pub mod version_order;
pub mod version_sort;
pub mod response;
pub mod attributes;
pub mod registry;
pub mod context;
pub mod ado_contract;
pub mod query;
pub mod execute;
pub mod migration;
pub mod msg;
pub mod contract;
pub mod primitive;
pub mod laws;
