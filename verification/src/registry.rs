//! What each operation does to the registry, as functions on
//! [`RegistryState`], and the invariant that they keep.

use vstd::prelude::*;
use vstd::utf8::encode_utf8;
use crate::ado_version::{
    compose, has_separator, is_strict, latest_text, lemma_compose_split, lemma_split_compose,
    lemma_type_has_no_separator, type_of, version_of,
};
use crate::error::ContractError;
use crate::records::{FeeView, MetadataView};
use crate::state::RegistryState;
use crate::store::MAX_PREFIX_BYTES;
use crate::version_order::{advance, semver_precedes, semver_valid};

verus! {

/// Whether the storage can hold fees for `key`: it is at most
/// `MAX_PREFIX_BYTES` bytes long.
pub open spec fn key_fits(key: Seq<char>) -> bool {
    encode_utf8(key).len() as usize <= MAX_PREFIX_BYTES
}

/// Whether the storage cannot keep `fees` for `key`: there is a fee to
/// keep, and the key is longer than the fee table takes.
pub open spec fn exceeds_fee_table(key: Seq<char>, fees: Seq<FeeView>) -> bool {
    fees.len() > 0 && !key_fits(key)
}

/// Whether `key` can be bound to a code id: it is strict, and its version
/// is a semantic version.
pub open spec fn storable(key: Seq<char>) -> bool {
    &&& is_strict(key)
    &&& semver_valid(version_of(key))
}

/// The publication record of an identity once `who` has set its code id at
/// time `now`, where `before` was its record until then.
pub open spec fn touched(before: Option<MetadataView>, who: Seq<char>, now: u64) -> MetadataView {
    match before {
        Some(m) => MetadataView { published_on: m.published_on, updated_on: now, last_updated_by: who },
        None => MetadataView { published_on: now, updated_on: now, last_updated_by: who },
    }
}

impl RegistryState {
    /// Every bound identity can be stored.
    pub open spec fn keys_storable(self) -> bool {
        forall|key: Seq<char>| #[trigger] self.code_ids.contains_key(key) ==> storable(key)
    }

    /// Every bound identity has a publication record and a publisher, and
    /// its type has a latest version.
    #[verifier::opaque]
    pub open spec fn identities_recorded(self) -> bool {
        forall|key: Seq<char>| #[trigger]
            self.code_ids.contains_key(key) ==> self.latest.contains_key(type_of(key))
                && self.metadata.contains_key(key) && self.publishers.contains_key(key)
    }

    /// The latest version of every type is a semantic version, and is bound.
    #[verifier::opaque]
    pub open spec fn latest_published(self) -> bool {
        forall|ado_type: Seq<char>| #[trigger]
            self.latest.contains_key(ado_type) ==> semver_valid(self.latest[ado_type])
                && self.code_ids.contains_key(compose(ado_type, self.latest[ado_type]))
    }

    /// Fees are set on bound identities only, and only on those that the
    /// fee table can hold.
    pub open spec fn fees_belong(self) -> bool {
        forall|key: Seq<char>, action: Seq<char>| #[trigger]
            self.fees.contains_key((key, action)) ==> self.code_ids.contains_key(key) && key_fits(key)
    }

    /// Records and publishers are kept of bound identities only.
    pub open spec fn records_belong(self) -> bool {
        &&& forall|key: Seq<char>| #[trigger]
            self.metadata.contains_key(key) ==> self.code_ids.contains_key(key)
        &&& forall|key: Seq<char>| #[trigger]
            self.publishers.contains_key(key) ==> self.code_ids.contains_key(key)
    }

    /// What always holds of the registry.
    pub open spec fn wf(self) -> bool {
        &&& self.is_bijection()
        &&& self.keys_storable()
        &&& self.identities_recorded()
        &&& self.latest_published()
        &&& self.fees_belong()
        &&& self.records_belong()
    }

    /// The latest version of the type of `key` once `key` is bound: the
    /// version of `key` if the type had none or an older one, else the one
    /// it had.
    pub open spec fn latest_with(self, key: Seq<char>) -> Seq<char> {
        let current = self.latest.get(type_of(key));
        advance(
            current,
            version_of(key),
            current is Some && semver_precedes(current->0, version_of(key)),
        )
    }

    /// The registry once `key` is bound to `code_id` by `who` at time `now`:
    /// both directions are set, the record of `key` is touched, and the
    /// latest version of its type moves up to it.
    pub open spec fn bind(self, key: Seq<char>, code_id: u64, who: Seq<char>, now: u64) -> RegistryState {
        RegistryState {
            ado_types: self.ado_types.insert(code_id, key),
            code_ids: self.code_ids.insert(key, code_id),
            metadata: self.metadata.insert(key, touched(self.metadata.get(key), who, now)),
            latest: self.latest.insert(type_of(key), self.latest_with(key)),
            ..self
        }
    }

    /// The registry once `code_id` maps to no identity any more.
    pub open spec fn unbind_code_id(self, code_id: u64) -> RegistryState {
        RegistryState { ado_types: self.ado_types.remove(code_id), ..self }
    }

    /// The registry once `who` is the publisher of `key`.
    pub open spec fn with_publisher(self, key: Seq<char>, who: Seq<char>) -> RegistryState {
        RegistryState { publishers: self.publishers.insert(key, who), ..self }
    }

    /// The registry once `fee` is the fee of its action on `key`.
    pub open spec fn with_fee(self, key: Seq<char>, fee: FeeView) -> RegistryState {
        RegistryState { fees: self.fees.insert((key, fee.action), fee), ..self }
    }

    /// The registry once each of `fees` is set on `key`, in turn: of two
    /// fees for one action the later stays.
    pub open spec fn with_fees(self, key: Seq<char>, fees: Seq<FeeView>) -> RegistryState
        decreases fees.len(),
    {
        if fees.len() == 0 {
            self
        } else {
            self.with_fees(key, fees.drop_last()).with_fee(key, fees.last())
        }
    }

    /// The registry once the fees of `key` for each of `actions` are gone.
    pub open spec fn without_fees(self, key: Seq<char>, actions: Seq<Seq<char>>) -> RegistryState {
        RegistryState {
            fees: Map::new(
                |at: (Seq<char>, Seq<char>)|
                    self.fees.contains_key(at) && !(at.0 == key && actions.contains(at.1)),
                |at: (Seq<char>, Seq<char>)| self.fees[at],
            ),
            ..self
        }
    }

    /// The identity that `key` asks for: `key` itself, or, where its version
    /// is `latest`, the latest version of its type. `None` where the type
    /// has no latest version.
    pub open spec fn resolve(self, key: Seq<char>) -> Option<Seq<char>> {
        if version_of(key) == latest_text() {
            match self.latest.get(type_of(key)) {
                Some(version) => Some(compose(type_of(key), version)),
                None => None,
            }
        } else {
            Some(key)
        }
    }
}

impl RegistryState {
    /// The code id of the identity that `key` asks for, if it is bound.
    pub open spec fn code_id_for(self, key: Seq<char>) -> Option<u64> {
        match self.resolve(key) {
            Some(identity) => self.code_ids.get(identity),
            None => None,
        }
    }

    /// The publisher of the identity that `key` asks for, if it has one.
    pub open spec fn publisher_for(self, key: Seq<char>) -> Option<Seq<char>> {
        match self.resolve(key) {
            Some(identity) => self.publishers.get(identity),
            None => None,
        }
    }

    /// The fee for `action` of the identity bound to `code_id`, if the code
    /// id is bound. `None` where it is not; `Some(None)` where it is and no
    /// fee is set.
    pub open spec fn fee_by_code_id(self, code_id: u64, action: Seq<char>) -> Option<Option<FeeView>> {
        match self.ado_types.get(code_id) {
            Some(identity) => Some(self.fees.get((identity, action))),
            None => None,
        }
    }
}

/// `r` is what a lookup that found `value` reports: the value, or
/// `NotFound` where there is none.
pub open spec fn reports<T>(r: Result<T, ContractError>, value: Option<T>) -> bool {
    match value {
        Some(v) => r == Ok::<T, ContractError>(v),
        None => r == Err::<T, ContractError>(ContractError::NotFound),
    }
}

/// `r` is what a lookup that found the text `value` reports.
pub open spec fn reports_text(r: Result<String, ContractError>, value: Option<Seq<char>>) -> bool {
    match value {
        Some(v) => r is Ok && r->Ok_0@ == v,
        None => r == Err::<String, ContractError>(ContractError::NotFound),
    }
}

/// Why `store_code_id` is refused, if it is.
pub open spec fn store_error(s: RegistryState, key: Seq<char>, code_id: u64) -> Option<ContractError> {
    if !storable(key) || s.has_code_id(code_id) || s.has_identity(key) {
        Some(ContractError::InvalidIdentity)
    } else {
        None
    }
}

/// The identity that `publish` binds for `ado_type` and `version`.
pub open spec fn published_key(ado_type: Seq<char>, version: Seq<char>) -> Seq<char> {
    compose(type_of(ado_type), version)
}

/// Why `publish` is refused, if it is. In this order: the caller may not
/// change the registry; the code id or the identity is bound, or the
/// identity cannot be stored; the host does not accept the address of the
/// publisher; there are fees to keep that the fee table cannot hold for the
/// identity.
pub open spec fn publish_error(
    s: RegistryState,
    sender: Seq<char>,
    code_id: u64,
    ado_type: Seq<char>,
    version: Seq<char>,
    fees: Option<Seq<FeeView>>,
    address_accepted: bool,
) -> Option<ContractError> {
    let key = published_key(ado_type, version);
    if !s.authorizes(sender) {
        Some(ContractError::Unauthorized)
    } else if store_error(s, key, code_id) is Some {
        store_error(s, key, code_id)
    } else if !address_accepted {
        Some(ContractError::InvalidAddress)
    } else if fees matches Some(list) && exceeds_fee_table(key, list) {
        Some(ContractError::InvalidIdentity)
    } else {
        None
    }
}

/// The registry after a `publish` that is not refused.
pub open spec fn published(
    s: RegistryState,
    sender: Seq<char>,
    now: u64,
    code_id: u64,
    ado_type: Seq<char>,
    version: Seq<char>,
    fees: Option<Seq<FeeView>>,
    publisher: Option<Seq<char>>,
) -> RegistryState {
    let key = published_key(ado_type, version);
    let bound = s.bind(key, code_id, sender, now).with_publisher(
        key,
        match publisher {
            Some(who) => who,
            None => sender,
        },
    );
    match fees {
        Some(list) => bound.with_fees(key, list),
        None => bound,
    }
}

/// Why `update_code_id` is refused, if it is.
pub open spec fn update_code_id_error(
    s: RegistryState,
    sender: Seq<char>,
    key: Seq<char>,
    code_id: u64,
) -> Option<
    ContractError,
> {
    if !s.authorizes(sender) {
        Some(ContractError::Unauthorized)
    } else if !s.has_identity(key) || s.has_code_id(code_id) {
        Some(ContractError::InvalidIdentity)
    } else {
        None
    }
}

/// The registry after an `update_code_id` that is not refused: the code id
/// that `key` had maps to nothing, and `key` is bound to `code_id`.
pub open spec fn code_id_updated(
    s: RegistryState,
    sender: Seq<char>,
    now: u64,
    key: Seq<char>,
    code_id: u64,
) -> RegistryState {
    s.unbind_code_id(s.code_ids[key]).bind(key, code_id, sender, now)
}

/// Why setting `fees` on `key` is refused, if it is: for the reasons of
/// [`identity_error`], or because there are fees to keep that the fee table
/// cannot hold for `key`.
pub open spec fn fees_error(
    s: RegistryState,
    sender: Seq<char>,
    key: Seq<char>,
    fees: Seq<FeeView>,
) -> Option<ContractError> {
    if identity_error(s, sender, key) is Some {
        identity_error(s, sender, key)
    } else if exceeds_fee_table(key, fees) {
        Some(ContractError::InvalidIdentity)
    } else {
        None
    }
}

/// Why naming the publisher of `key` is refused, if it is: for the reasons
/// of [`identity_error`], or because the host does not accept the address
/// of the publisher.
pub open spec fn publisher_error(
    s: RegistryState,
    sender: Seq<char>,
    key: Seq<char>,
    address_accepted: bool,
) -> Option<ContractError> {
    if identity_error(s, sender, key) is Some {
        identity_error(s, sender, key)
    } else if !address_accepted {
        Some(ContractError::InvalidAddress)
    } else {
        None
    }
}

/// Why an operation on the publisher or the fees of `key` is refused for
/// the caller or the key: the caller may not change the registry, or `key`
/// is no strict identity that is bound.
pub open spec fn identity_error(
    s: RegistryState,
    sender: Seq<char>,
    key: Seq<char>,
) -> Option<ContractError> {
    if !s.authorizes(sender) {
        Some(ContractError::Unauthorized)
    } else if !(is_strict(key) && s.has_identity(key)) {
        Some(ContractError::InvalidIdentity)
    } else {
        None
    }
}

/// An empty registry is well formed.
pub proof fn lemma_empty_wf()
    ensures
        RegistryState::empty().wf(),
{
    reveal(RegistryState::identities_recorded);
    reveal(RegistryState::latest_published);
}

/// Setting the owner or adding an operator keeps the registry well formed.
pub proof fn lemma_guard_change_keeps_wf(
    s: RegistryState,
    owner: Option<Seq<char>>,
    operators: Set<Seq<char>>,
)
    requires
        s.wf(),
    ensures
        (RegistryState { owner, operators, ..s }).wf(),
{
    let t = RegistryState { owner, operators, ..s };
    assert(t.identities_recorded()) by {
        reveal(RegistryState::identities_recorded);
    }
    assert(t.latest_published()) by {
        reveal(RegistryState::latest_published);
    }
}

/// Binding a fresh identity to a fresh code id, and naming its publisher,
/// keeps the registry well formed.
pub proof fn lemma_bind_keeps_wf(
    s: RegistryState,
    key: Seq<char>,
    code_id: u64,
    who: Seq<char>,
    now: u64,
    publisher: Seq<char>,
)
    requires
        s.wf(),
        storable(key),
        !s.has_code_id(code_id),
        !s.has_identity(key),
    ensures
        s.bind(key, code_id, who, now).with_publisher(key, publisher).wf(),
{
    let t = s.bind(key, code_id, who, now).with_publisher(key, publisher);
    lemma_compose_split(key);
    assert(t.identities_recorded()) by {
        reveal(RegistryState::identities_recorded);
    }
    assert(t.latest_published()) by {
        reveal(RegistryState::latest_published);
    }
}

/// Moving a bound identity to a fresh code id keeps the registry well formed.
pub proof fn lemma_rebind_keeps_wf(s: RegistryState, key: Seq<char>, code_id: u64, who: Seq<char>, now: u64)
    requires
        s.wf(),
        s.has_identity(key),
        !s.has_code_id(code_id),
    ensures
        code_id_updated(s, who, now, key, code_id).wf(),
{
    let t = code_id_updated(s, who, now, key, code_id);
    lemma_compose_split(key);
    assert(t.identities_recorded()) by {
        reveal(RegistryState::identities_recorded);
    }
    assert(s.latest.contains_key(type_of(key))) by {
        reveal(RegistryState::identities_recorded);
    }
    assert(t.latest_published()) by {
        reveal(RegistryState::latest_published);
    }
}

/// Naming the publisher of a bound identity keeps the registry well formed.
pub proof fn lemma_publisher_keeps_wf(s: RegistryState, key: Seq<char>, who: Seq<char>)
    requires
        s.wf(),
        s.has_identity(key),
    ensures
        s.with_publisher(key, who).wf(),
{
    let t = s.with_publisher(key, who);
    assert(t.identities_recorded()) by {
        reveal(RegistryState::identities_recorded);
    }
    assert(t.latest_published()) by {
        reveal(RegistryState::latest_published);
    }
}

/// Setting fees changes nothing but the fees.
pub proof fn lemma_fees_change_fees_only(s: RegistryState, key: Seq<char>, fees: Seq<FeeView>)
    ensures
        s.with_fees(key, fees) == (RegistryState { fees: s.with_fees(key, fees).fees, ..s }),
    decreases fees.len(),
{
    if fees.len() > 0 {
        lemma_fees_change_fees_only(s, key, fees.drop_last());
    }
}

/// Setting fees on a bound identity that the fee table can hold keeps the
/// registry well formed.
pub proof fn lemma_fees_keep_wf(s: RegistryState, key: Seq<char>, fees: Seq<FeeView>)
    requires
        s.wf(),
        s.has_identity(key),
        !exceeds_fee_table(key, fees),
    ensures
        s.with_fees(key, fees).wf(),
    decreases fees.len(),
{
    if fees.len() > 0 {
        lemma_fees_keep_wf(s, key, fees.drop_last());
        lemma_fees_change_fees_only(s, key, fees.drop_last());
        let t = s.with_fees(key, fees);
        assert(t.identities_recorded()) by {
            reveal(RegistryState::identities_recorded);
        }
        assert(t.latest_published()) by {
            reveal(RegistryState::latest_published);
        }
    }
}

/// Removing fees keeps the registry well formed.
pub proof fn lemma_fee_removal_keeps_wf(s: RegistryState, key: Seq<char>, actions: Seq<Seq<char>>)
    requires
        s.wf(),
    ensures
        s.without_fees(key, actions).wf(),
{
    let t = s.without_fees(key, actions);
    assert(t.identities_recorded()) by {
        reveal(RegistryState::identities_recorded);
    }
    assert(t.latest_published()) by {
        reveal(RegistryState::latest_published);
    }
}

/// The identity that `publish` binds splits into the given type and version.
pub proof fn lemma_published_key_parts(ado_type: Seq<char>, version: Seq<char>)
    ensures
        type_of(published_key(ado_type, version)) == type_of(ado_type),
        version_of(published_key(ado_type, version)) == version,
        has_separator(published_key(ado_type, version)),
{
    lemma_type_has_no_separator(ado_type);
    lemma_split_compose(type_of(ado_type), version);
}

} // verus!
