//! The registry as a mathematical value.

use vstd::prelude::*;
use crate::records::{FeeView, MetadataView};

verus! {

/// Everything the registry holds. Identities are keyed by their text,
/// `type@version`; the latest pointer is keyed by module type.
pub struct RegistryState {
    /// Who owns the registry, once it is set up.
    pub owner: Option<Seq<char>>,
    /// Who else may change it.
    pub operators: Set<Seq<char>>,
    /// Identity to code id.
    pub code_ids: Map<Seq<char>, u64>,
    /// Code id to identity.
    pub ado_types: Map<u64, Seq<char>>,
    /// Module type to its latest version.
    pub latest: Map<Seq<char>, Seq<char>>,
    /// Identity to publisher.
    pub publishers: Map<Seq<char>, Seq<char>>,
    /// Identity to publication record.
    pub metadata: Map<Seq<char>, MetadataView>,
    /// Identity and action to fee.
    pub fees: Map<(Seq<char>, Seq<char>), FeeView>,
}

impl RegistryState {
    /// The registry before anything was stored in it.
    pub open spec fn empty() -> RegistryState {
        RegistryState {
            owner: None,
            operators: Set::empty(),
            code_ids: Map::empty(),
            ado_types: Map::empty(),
            latest: Map::empty(),
            publishers: Map::empty(),
            metadata: Map::empty(),
            fees: Map::empty(),
        }
    }

    /// Whether `who` may change the registry.
    pub open spec fn authorizes(self, who: Seq<char>) -> bool {
        self.owner == Some(who) || self.operators.contains(who)
    }

    /// Whether `key` is bound to a code id.
    pub open spec fn has_identity(self, key: Seq<char>) -> bool {
        self.code_ids.contains_key(key)
    }

    /// Whether `code_id` is bound to an identity.
    pub open spec fn has_code_id(self, code_id: u64) -> bool {
        self.ado_types.contains_key(code_id)
    }

    /// Identities and code ids are bound one to one.
    pub open spec fn is_bijection(self) -> bool {
        &&& forall|key: Seq<char>| #[trigger]
            self.code_ids.contains_key(key) ==> self.ado_types.contains_key(self.code_ids[key])
                && self.ado_types[self.code_ids[key]] == key
        &&& forall|code_id: u64| #[trigger]
            self.ado_types.contains_key(code_id) ==> self.code_ids.contains_key(
                self.ado_types[code_id],
            ) && self.code_ids[self.ado_types[code_id]] == code_id
    }
}

} // verus!
