//! What holds of the registry whatever is asked of it.

use vstd::prelude::*;
use crate::ado_contract::instantiated;
use crate::ado_version::{
    compose, has_separator, lemma_compose_split, lemma_split_compose, type_of, version_of,
};
use crate::contract::{execute_error, executed};
use crate::error::ContractError;
use crate::key_order::{
    in_range, key_lt, lemma_ascending_no_duplicates, lemma_key_lt_asymmetric,
    lemma_key_lt_irreflexive, lemma_key_lt_transitive, lemma_key_order_total, parts_at,
};
use crate::msg::ExecuteMsg;
use crate::query::{comes_after, is_page, is_version_listing, range_end};
use crate::records::{fee_views, texts, FeeView, MetadataView};
use crate::registry::{
    code_id_updated, exceeds_fee_table, lemma_bind_keeps_wf, lemma_empty_wf,
    lemma_fee_removal_keeps_wf, lemma_fees_change_fees_only, lemma_fees_keep_wf,
    lemma_guard_change_keeps_wf, lemma_published_key_parts, lemma_publisher_keeps_wf,
    lemma_rebind_keeps_wf, publish_error, published, published_key, storable,
    update_code_id_error,
};
use crate::state::RegistryState;
use crate::version_order::semver_precedes;
use crate::version_sort::newer;

verus! {

/// A change asked of the registry: by whom, when, and which, and what the
/// host says of the address that the change would make a publisher.
pub struct Call {
    pub sender: Seq<char>,
    pub now: u64,
    pub msg: ExecuteMsg,
    pub address_accepted: bool,
}

/// The registry after `call`: changed as the call asks, or left as it was
/// where the call is refused.
pub open spec fn after_call(s: RegistryState, call: Call) -> RegistryState {
    if execute_error(s, call.sender, call.msg, call.address_accepted) is None {
        executed(s, call.sender, call.now, call.msg)
    } else {
        s
    }
}

/// The registry after each of `calls`, in turn.
pub open spec fn after_calls(s: RegistryState, calls: Seq<Call>) -> RegistryState
    decreases calls.len(),
{
    if calls.len() == 0 {
        s
    } else {
        after_call(after_calls(s, calls.drop_last()), calls.last())
    }
}

/// No call takes a well-formed registry to one that is not.
pub proof fn law_call_keeps_wf(s: RegistryState, call: Call)
    requires
        s.wf(),
    ensures
        after_call(s, call).wf(),
{
    if execute_error(s, call.sender, call.msg, call.address_accepted) is None {
        match call.msg {
            ExecuteMsg::Publish { code_id, ado_type, action_fees, version, publisher } => {
                let key = published_key(ado_type@, version@);
                let who = match publisher {
                    Some(named) => named@,
                    None => call.sender,
                };
                lemma_bind_keeps_wf(s, key, code_id, call.sender, call.now, who);
                let bound = s.bind(key, code_id, call.sender, call.now).with_publisher(key, who);
                match action_fees {
                    Some(list) => {
                        lemma_fees_keep_wf(bound, key, fee_views(list@));
                    },
                    None => {},
                }
            },
            ExecuteMsg::UpdateCodeId { code_id_key, code_id } => {
                lemma_rebind_keeps_wf(s, code_id_key@, code_id, call.sender, call.now);
            },
            ExecuteMsg::UpdateActionFees { ado_type, action_fees } => {
                lemma_fees_keep_wf(s, ado_type@, fee_views(action_fees@));
            },
            ExecuteMsg::RemoveActionFees { ado_type, actions } => {
                lemma_fee_removal_keeps_wf(s, ado_type@, texts(actions@));
            },
            ExecuteMsg::UpdatePublisher { ado_version, publisher } => {
                lemma_publisher_keeps_wf(s, ado_version@, publisher@);
            },
        }
    }
}

/// No sequence of calls takes a well-formed registry to one that is not.
pub proof fn law_calls_keep_wf(s: RegistryState, calls: Seq<Call>)
    requires
        s.wf(),
    ensures
        after_calls(s, calls).wf(),
    decreases calls.len(),
{
    if calls.len() > 0 {
        law_calls_keep_wf(s, calls.drop_last());
        law_call_keeps_wf(after_calls(s, calls.drop_last()), calls.last());
    }
}

/// A registry that was set up empty and then changed by any sequence of
/// calls is well formed.
pub proof fn law_registry_stays_wf(
    sender: Seq<char>,
    owner: Option<Seq<char>>,
    operators: Option<Seq<Seq<char>>>,
    calls: Seq<Call>,
)
    ensures
        after_calls(instantiated(RegistryState::empty(), sender, owner, operators), calls).wf(),
{
    lemma_empty_wf();
    let start = instantiated(RegistryState::empty(), sender, owner, operators);
    lemma_guard_change_keeps_wf(RegistryState::empty(), start.owner, start.operators);
    law_calls_keep_wf(start, calls);
}

/// Identities and code ids stay bound one to one: after any sequence of
/// calls, the identity of a bound code id is bound to that code id, and the
/// code id of a bound identity is bound to that identity.
pub proof fn law_bindings_are_one_to_one(s: RegistryState, calls: Seq<Call>, code_id: u64, key: Seq<char>)
    requires
        s.wf(),
    ensures
        ({
            let t = after_calls(s, calls);
            &&& t.has_code_id(code_id) ==> t.code_ids.get(t.ado_types[code_id]) == Some(code_id)
            &&& t.has_identity(key) ==> t.ado_types.get(t.code_ids[key]) == Some(key)
        }),
{
    law_calls_keep_wf(s, calls);
    let t = after_calls(s, calls);
    if t.has_code_id(code_id) {
        assert(t.ado_types.contains_key(code_id));
    }
    if t.has_identity(key) {
        assert(t.code_ids.contains_key(key));
    }
}

/// A publication is owed: where the caller may change the registry, the
/// identity can be stored, neither it nor the code id is bound, the host
/// accepts the address of the publisher, and the fee table can keep the
/// fees, `publish` is not refused. It then binds the
/// identity and the code id both ways, names the publisher, and writes a
/// first record. How long the identity is does not matter where there are
/// no fees to keep.
pub proof fn law_publication_is_owed(
    s: RegistryState,
    sender: Seq<char>,
    now: u64,
    code_id: u64,
    ado_type: Seq<char>,
    version: Seq<char>,
    fees: Option<Seq<FeeView>>,
    publisher: Option<Seq<char>>,
)
    requires
        s.wf(),
        s.authorizes(sender),
        storable(published_key(ado_type, version)),
        !s.has_code_id(code_id),
        !s.has_identity(published_key(ado_type, version)),
        fees matches Some(list) ==> !exceeds_fee_table(published_key(ado_type, version), list),
    ensures
        publish_error(s, sender, code_id, ado_type, version, fees, true) is None,
        ({
            let key = published_key(ado_type, version);
            let t = published(s, sender, now, code_id, ado_type, version, fees, publisher);
            &&& t.code_ids.get(key) == Some(code_id)
            &&& t.ado_types.get(code_id) == Some(key)
            &&& t.publishers.get(key) == Some(
                match publisher {
                    Some(named) => named,
                    None => sender,
                },
            )
            &&& t.metadata.get(key) == Some(
                MetadataView { published_on: now, updated_on: now, last_updated_by: sender },
            )
            &&& t.wf()
        }),
{
    let key = published_key(ado_type, version);
    let who = match publisher {
        Some(named) => named,
        None => sender,
    };
    let bound = s.bind(key, code_id, sender, now).with_publisher(key, who);
    lemma_bind_keeps_wf(s, key, code_id, sender, now, who);
    match fees {
        Some(list) => {
            lemma_fees_change_fees_only(bound, key, list);
            lemma_fees_keep_wf(bound, key, list);
        },
        None => {},
    }
}

/// An identity is published once: after `publish` has bound a type and
/// version to a code id, publishing the same type and version again, under
/// another code id or the same, is refused, with `InvalidIdentity` where
/// the caller may change the registry at all.
pub proof fn law_identity_is_published_once(
    s: RegistryState,
    sender: Seq<char>,
    now: u64,
    code_id: u64,
    ado_type: Seq<char>,
    version: Seq<char>,
    fees: Option<Seq<FeeView>>,
    publisher: Option<Seq<char>>,
    next_sender: Seq<char>,
    next_code_id: u64,
    next_fees: Option<Seq<FeeView>>,
    next_address_accepted: bool,
)
    requires
        publish_error(s, sender, code_id, ado_type, version, fees, true) is None,
    ensures
        ({
            let t = published(s, sender, now, code_id, ado_type, version, fees, publisher);
            let refusal = publish_error(
                t,
                next_sender,
                next_code_id,
                ado_type,
                version,
                next_fees,
                next_address_accepted,
            );
            &&& refusal is Some
            &&& t.authorizes(next_sender) ==> refusal == Some(ContractError::InvalidIdentity)
            &&& t.authorizes(sender)
        }),
{
    let key = published_key(ado_type, version);
    let who = match publisher {
        Some(named) => named,
        None => sender,
    };
    let bound = s.bind(key, code_id, sender, now).with_publisher(key, who);
    match fees {
        Some(list) => {
            lemma_fees_change_fees_only(bound, key, list);
        },
        None => {},
    }
    let t = published(s, sender, now, code_id, ado_type, version, fees, publisher);
    assert(t.code_ids.contains_key(key));
}

/// The latest version of a type moves only up: after a publication it is
/// the published version, where the type had no latest version or `semver`
/// orders the one it had before the published one, and else it is the one
/// it had.
pub proof fn law_latest_moves_up(
    s: RegistryState,
    sender: Seq<char>,
    now: u64,
    code_id: u64,
    ado_type: Seq<char>,
    version: Seq<char>,
    fees: Option<Seq<FeeView>>,
    publisher: Option<Seq<char>>,
)
    ensures
        ({
            let kind = type_of(ado_type);
            let t = published(s, sender, now, code_id, ado_type, version, fees, publisher);
            &&& t.latest.contains_key(kind)
            &&& !s.latest.contains_key(kind) ==> t.latest[kind] == version
            &&& s.latest.contains_key(kind) && semver_precedes(s.latest[kind], version) ==> t.latest[kind]
                == version
            &&& s.latest.contains_key(kind) && !semver_precedes(s.latest[kind], version) ==> t.latest[kind]
                == s.latest[kind]
            &&& forall|other: Seq<char>| other != kind ==> t.latest.get(other) == s.latest.get(other)
        }),
{
    let key = published_key(ado_type, version);
    lemma_published_key_parts(ado_type, version);
    let who = match publisher {
        Some(named) => named,
        None => sender,
    };
    let bound = s.bind(key, code_id, sender, now).with_publisher(key, who);
    match fees {
        Some(list) => {
            lemma_fees_change_fees_only(bound, key, list);
        },
        None => {},
    }
}

/// The time of publication is kept: where an identity is published at one
/// time and its code id is updated at another, its record still holds the
/// first as the time of publication, and the second as the time of the
/// last update.
pub proof fn law_published_on_is_kept(
    s: RegistryState,
    sender: Seq<char>,
    published_at: u64,
    code_id: u64,
    ado_type: Seq<char>,
    version: Seq<char>,
    fees: Option<Seq<FeeView>>,
    publisher: Option<Seq<char>>,
    updater: Seq<char>,
    updated_at: u64,
    next_code_id: u64,
)
    requires
        s.wf(),
        publish_error(s, sender, code_id, ado_type, version, fees, true) is None,
        update_code_id_error(
            published(s, sender, published_at, code_id, ado_type, version, fees, publisher),
            updater,
            published_key(ado_type, version),
            next_code_id,
        ) is None,
    ensures
        ({
            let key = published_key(ado_type, version);
            let t = published(s, sender, published_at, code_id, ado_type, version, fees, publisher);
            let u = code_id_updated(t, updater, updated_at, key, next_code_id);
            &&& t.metadata[key].published_on == published_at
            &&& u.metadata.contains_key(key)
            &&& u.metadata[key].published_on == published_at
            &&& u.metadata[key].updated_on == updated_at
            &&& u.metadata[key].last_updated_by == updater
        }),
{
    let key = published_key(ado_type, version);
    let who = match publisher {
        Some(named) => named,
        None => sender,
    };
    let bound = s.bind(key, code_id, sender, published_at).with_publisher(key, who);
    match fees {
        Some(list) => {
            lemma_fees_change_fees_only(bound, key, list);
        },
        None => {},
    }
}

/// An update of the code id of any bound identity keeps the time at which
/// it was published.
pub proof fn law_update_keeps_published_on(
    s: RegistryState,
    sender: Seq<char>,
    now: u64,
    key: Seq<char>,
    code_id: u64,
)
    requires
        s.metadata.contains_key(key),
    ensures
        code_id_updated(s, sender, now, key, code_id).metadata[key].published_on
            == s.metadata[key].published_on,
        code_id_updated(s, sender, now, key, code_id).metadata[key].updated_on == now,
{
}

/// Removing fees is exact: the fees of the identity for the named actions
/// are gone, and every other fee in the registry is as it was.
pub proof fn law_fee_removal_is_exact(
    s: RegistryState,
    key: Seq<char>,
    actions: Seq<Seq<char>>,
    other_key: Seq<char>,
    action: Seq<char>,
)
    ensures
        actions.contains(action) ==> s.without_fees(key, actions).fees.get((key, action)) is None,
        !actions.contains(action) ==> s.without_fees(key, actions).fees.get((key, action)) == s.fees.get(
            (key, action),
        ),
        other_key != key ==> s.without_fees(key, actions).fees.get((other_key, action)) == s.fees.get(
            (other_key, action),
        ),
        s.without_fees(key, actions) == (RegistryState { fees: s.without_fees(key, actions).fees, ..s }),
{
}

/// Of two fees published with an identity, for different actions, the
/// removal of the first leaves the second as it was published.
pub proof fn law_removal_spares_other_fee(
    s: RegistryState,
    sender: Seq<char>,
    now: u64,
    code_id: u64,
    ado_type: Seq<char>,
    version: Seq<char>,
    publisher: Option<Seq<char>>,
    first: FeeView,
    second: FeeView,
)
    requires
        first.action != second.action,
    ensures
        ({
            let key = published_key(ado_type, version);
            let t = published(s, sender, now, code_id, ado_type, version, Some(seq![first, second]), publisher);
            let u = t.without_fees(key, seq![first.action]);
            &&& t.fees.get((key, first.action)) == Some(first)
            &&& t.fees.get((key, second.action)) == Some(second)
            &&& u.fees.get((key, first.action)) is None
            &&& u.fees.get((key, second.action)) == Some(second)
        }),
{
    let key = published_key(ado_type, version);
    let who = match publisher {
        Some(named) => named,
        None => sender,
    };
    let bound = s.bind(key, code_id, sender, now).with_publisher(key, who);
    let both = seq![first, second];
    assert(both.drop_last() =~= seq![first]);
    assert(seq![first].drop_last() =~= Seq::<FeeView>::empty());
    assert(bound.with_fees(key, Seq::<FeeView>::empty()) == bound);
    assert(bound.with_fees(key, seq![first]) == bound.with_fee(key, first));
    assert(bound.with_fees(key, both) == bound.with_fee(key, first).with_fee(key, second));
    assert(seq![first.action].contains(first.action)) by {
        assert(seq![first.action][0] == first.action);
    }
}

/// Only the owner and the operators change the registry: every change
/// asked by anyone else is refused as unauthorized, and so leaves the
/// registry as it was.
pub proof fn law_unauthorized_is_refused(
    s: RegistryState,
    sender: Seq<char>,
    now: u64,
    msg: ExecuteMsg,
    address_accepted: bool,
)
    requires
        !s.authorizes(sender),
    ensures
        execute_error(s, sender, msg, address_accepted) == Some(ContractError::Unauthorized),
        after_call(s, (Call { sender, now, msg, address_accepted })) == s,
{
}

/// An identity has one key, and a key one identity: the key of a type and
/// a version splits into that type and that version, so two identities
/// with the same key are the same.
pub proof fn law_keys_name_one_identity(
    ado_type: Seq<char>,
    version: Seq<char>,
    other_type: Seq<char>,
    other_version: Seq<char>,
)
    requires
        !has_separator(ado_type),
        !has_separator(other_type),
    ensures
        type_of(compose(ado_type, version)) == ado_type,
        version_of(compose(ado_type, version)) == version,
        compose(ado_type, version) == compose(other_type, other_version) ==> ado_type == other_type && version
            == other_version,
{
    lemma_split_compose(ado_type, version);
    lemma_split_compose(other_type, other_version);
}

/// The order of the storage is a strict total order on texts.
pub proof fn law_key_order_is_total(a: Seq<char>, b: Seq<char>, c: Seq<char>)
    ensures
        !key_lt(a, a),
        key_lt(a, b) ==> !key_lt(b, a),
        key_lt(a, b) && key_lt(b, c) ==> key_lt(a, c),
        a == b || key_lt(a, b) || key_lt(b, a),
{
    lemma_key_lt_irreflexive(a);
    if key_lt(a, b) {
        lemma_key_lt_asymmetric(a, b);
        if key_lt(b, c) {
            lemma_key_lt_transitive(a, b, c);
        }
    }
    lemma_key_order_total(a, b);
}

/// A page is determined by what it is a page of: two pages of the same
/// keys, after the same key and with the same limit, are the same.
pub proof fn law_page_is_unique(
    one: Seq<Seq<char>>,
    other: Seq<Seq<char>>,
    all: Set<Seq<char>>,
    start_after: Option<Seq<char>>,
    limit: nat,
)
    requires
        is_page(one, all, start_after, limit),
        is_page(other, all, start_after, limit),
    ensures
        one == other,
{
    lemma_pages_agree(one, other, all, start_after, limit);
    lemma_pages_agree(other, one, all, start_after, limit);
    assert(one =~= other);
}

/// Of two pages of the same keys, the first is no longer than the second
/// and agrees with it as far as it goes.
proof fn lemma_pages_agree(
    one: Seq<Seq<char>>,
    other: Seq<Seq<char>>,
    all: Set<Seq<char>>,
    start_after: Option<Seq<char>>,
    limit: nat,
)
    requires
        is_page(one, all, start_after, limit),
        is_page(other, all, start_after, limit),
    ensures
        one.len() <= other.len(),
        forall|i: int| 0 <= i < one.len() ==> one[i] == other[i],
{
    lemma_page_prefix_agrees(one, other, all, start_after, limit, one.len() as int);
}

/// Two pages of the same keys agree on their first `n` entries, as far as
/// the first has that many.
proof fn lemma_page_prefix_agrees(
    one: Seq<Seq<char>>,
    other: Seq<Seq<char>>,
    all: Set<Seq<char>>,
    start_after: Option<Seq<char>>,
    limit: nat,
    n: int,
)
    requires
        is_page(one, all, start_after, limit),
        is_page(other, all, start_after, limit),
        0 <= n <= one.len(),
    ensures
        n <= other.len(),
        forall|i: int| 0 <= i < n ==> one[i] == other[i],
    decreases n,
{
    if n > 0 {
        lemma_page_prefix_agrees(one, other, all, start_after, limit, n - 1);
        let k = n - 1;
        let key = one[k];
        assert(all.contains(key) && comes_after(key, start_after));
        lemma_ascending_no_duplicates(one);
        lemma_ascending_no_duplicates(other);
        // `key` stands in `other`, and at the same place.
        if !other.contains(key) {
            // Then `other` is full, of keys that all come before `key`.
            assert(other.len() == limit);
            assert(k < other.len());
            assert(key_lt(other[k], key));
            lemma_entry_stands_here(other, one, all, start_after, limit, k);
            lemma_key_lt_asymmetric(other[k], key);
        }
        let j = choose|j: int| 0 <= j < other.len() && other[j] == key;
        if j < k {
            assert(one[j] == other[j]);
        } else if j > k {
            assert(k < other.len());
            assert(key_lt(other[k], other[j]));
            lemma_entry_stands_here(other, one, all, start_after, limit, k);
            lemma_key_lt_asymmetric(other[k], key);
        }
    }
}

/// Where two pages of the same keys agree on their first `k` entries and
/// both hold one more, the next entry of the first is that of the second
/// or comes after it.
proof fn lemma_entry_stands_here(
    one: Seq<Seq<char>>,
    other: Seq<Seq<char>>,
    all: Set<Seq<char>>,
    start_after: Option<Seq<char>>,
    limit: nat,
    k: int,
)
    requires
        is_page(one, all, start_after, limit),
        is_page(other, all, start_after, limit),
        0 <= k < one.len(),
        k < other.len(),
        forall|i: int| 0 <= i < k ==> other[i] == one[i],
    ensures
        one[k] == other[k] || key_lt(other[k], one[k]),
{
    let key = one[k];
    assert(all.contains(key) && comes_after(key, start_after));
    lemma_ascending_no_duplicates(one);
    if other.contains(key) {
        let j = choose|j: int| 0 <= j < other.len() && other[j] == key;
        if j < k {
            assert(one[j] == other[j]);
        } else if j > k {
            assert(key_lt(other[k], other[j]));
        }
    } else {
        assert(key_lt(other[k], key));
    }
}

/// No publisher is named against the host: a publication, or a change of
/// publisher, for which the host does not accept the address is refused,
/// and so leaves the registry as it was. Where nothing else stands in the
/// way, it is refused for the address.
pub proof fn law_rejected_address_is_refused(
    s: RegistryState,
    sender: Seq<char>,
    now: u64,
    msg: ExecuteMsg,
)
    requires
        msg is Publish || msg is UpdatePublisher,
    ensures
        execute_error(s, sender, msg, false) is Some,
        after_call(s, (Call { sender, now, msg, address_accepted: false })) == s,
        execute_error(s, sender, msg, true) is None ==> execute_error(s, sender, msg, false) == Some(
            ContractError::InvalidAddress,
        ),
{
}

/// The key of an identity lies in the range of its type: at or after the
/// type, and before the end of its range.
pub proof fn law_identity_within_range(ado_type: Seq<char>, version: Seq<char>)
    ensures
        in_range(compose(ado_type, version), Some(ado_type), Some(range_end(ado_type))),
{
    let key = compose(ado_type, version);
    let n = ado_type.len() as int;
    assert(key[n] == '@');
    assert(range_end(ado_type)[n] == 'A');
    assert forall|j: int| 0 <= j < n implies ado_type[j] == key[j] && key[j] == range_end(ado_type)[j] by {}
    assert(parts_at(ado_type, key, n));
    assert(parts_at(key, range_end(ado_type), n)) by {
        assert('@' < 'A');
    }
}

/// A listing of the versions of a type holds every bound identity of that type.
pub proof fn law_version_listing_is_complete(
    listing: Seq<Seq<char>>,
    s: RegistryState,
    ado_type: Seq<char>,
    version: Seq<char>,
)
    requires
        is_version_listing(listing, s, ado_type),
        s.has_identity(compose(ado_type, version)),
    ensures
        listing.contains(compose(ado_type, version)),
{
    law_identity_within_range(ado_type, version);
}

/// Two lists that hold the same items, each once, and never stand two
/// items in opposite orders, are the same list.
proof fn lemma_same_order_same_list(one: Seq<Seq<char>>, other: Seq<Seq<char>>)
    requires
        one.no_duplicates(),
        other.no_duplicates(),
        forall|item: Seq<char>| one.contains(item) <==> other.contains(item),
        forall|i: int, j: int, p: int, q: int|
            0 <= i < j < one.len() && 0 <= p < q < other.len() ==> !(one[i] == other[q] && one[j] == other[p]),
    ensures
        one == other,
    decreases one.len(),
{
    if one.len() == 0 {
        if other.len() > 0 {
            assert(other.contains(other[0]));
        }
        assert(one =~= other);
    } else {
        assert(one.contains(one[0]));
        let p = choose|p: int| 0 <= p < other.len() && other[p] == one[0];
        if p > 0 {
            // What stands first in `other` stands later in `one`.
            assert(other.contains(other[0]));
            let j = choose|j: int| 0 <= j < one.len() && one[j] == other[0];
            assert(j > 0);
            assert(one[0] == other[p] && one[j] == other[0]);
        }
        assert(other[0] == one[0]);
        let rest = one.drop_first();
        let other_rest = other.drop_first();
        assert forall|item: Seq<char>| rest.contains(item) <==> other_rest.contains(item) by {
            if rest.contains(item) {
                let k = choose|k: int| 0 <= k < rest.len() && rest[k] == item;
                assert(one[k + 1] == item);
                assert(one.contains(item));
                let m = choose|m: int| 0 <= m < other.len() && other[m] == item;
                assert(m > 0);
                assert(other_rest[m - 1] == item);
            }
            if other_rest.contains(item) {
                let k = choose|k: int| 0 <= k < other_rest.len() && other_rest[k] == item;
                assert(other[k + 1] == item);
                assert(other.contains(item));
                let m = choose|m: int| 0 <= m < one.len() && one[m] == item;
                assert(m > 0);
                assert(rest[m - 1] == item);
            }
        }
        assert forall|i: int, j: int, p: int, q: int|
            0 <= i < j < rest.len() && 0 <= p < q < other_rest.len() implies !(rest[i] == other_rest[q] && rest[j]
            == other_rest[p]) by {
            assert(rest[i] == one[i + 1] && rest[j] == one[j + 1]);
            assert(other_rest[p] == other[p + 1] && other_rest[q] == other[q + 1]);
        }
        lemma_same_order_same_list(rest, other_rest);
        assert(one =~= seq![one[0]] + rest);
        assert(other =~= seq![other[0]] + other_rest);
    }
}

/// The listing of the versions of a type is determined by the registry:
/// two listings of the same registry for the same type are the same. So
/// the listing does not depend on the order in which the versions were
/// published.
pub proof fn law_version_listing_is_unique(
    one: Seq<Seq<char>>,
    other: Seq<Seq<char>>,
    s: RegistryState,
    ado_type: Seq<char>,
)
    requires
        is_version_listing(one, s, ado_type),
        is_version_listing(other, s, ado_type),
    ensures
        one == other,
{
    assert forall|i: int, j: int, p: int, q: int|
        0 <= i < j < one.len() && 0 <= p < q < other.len() implies !(one[i] == other[q] && one[j] == other[p]) by {
        if one[i] == other[q] && one[j] == other[p] {
            if version_of(one[i]) == version_of(one[j]) {
                // Both listings stand the two in the order of the storage.
                assert(key_lt(one[i], one[j]));
                assert(key_lt(other[p], other[q]));
                lemma_key_lt_asymmetric(one[i], one[j]);
            } else {
                // The first listing has no newer version later, the second
                // has the newer version first.
                assert(!newer(one[j], one[i]));
                assert(newer(other[p], other[q]));
            }
        }
    }
    assert forall|item: Seq<char>| one.contains(item) <==> other.contains(item) by {}
    lemma_same_order_same_list(one, other);
}

/// The versions of one type are listed in strictly descending order: of
/// two listed keys of the same type, the one that stands first has the
/// newer version.
pub proof fn law_versions_of_a_type_descend(listing: Seq<Seq<char>>, s: RegistryState, ado_type: Seq<char>, i: int, j: int)
    requires
        s.wf(),
        is_version_listing(listing, s, ado_type),
        0 <= i < j < listing.len(),
        type_of(listing[i]) == type_of(listing[j]),
    ensures
        newer(listing[i], listing[j]),
        !newer(listing[j], listing[i]),
{
    assert(listing.contains(listing[i]));
    assert(listing.contains(listing[j]));
    assert(s.code_ids.contains_key(listing[i]));
    assert(s.code_ids.contains_key(listing[j]));
    lemma_compose_split(listing[i]);
    lemma_compose_split(listing[j]);
}

/// Where no key of another type lies in the range of a type, the listing
/// of its versions holds exactly the versions bound under it, each once,
/// in strictly descending order.
pub proof fn law_versions_are_listed_newest_first(listing: Seq<Seq<char>>, s: RegistryState, ado_type: Seq<char>)
    requires
        s.wf(),
        is_version_listing(listing, s, ado_type),
        forall|key: Seq<char>|
            s.has_identity(key) && in_range(key, Some(ado_type), Some(range_end(ado_type))) ==> type_of(key)
                == ado_type,
    ensures
        listing.no_duplicates(),
        forall|version: Seq<char>|
            s.has_identity(compose(ado_type, version)) ==> listing.contains(compose(ado_type, version)),
        forall|i: int|
            0 <= i < listing.len() ==> s.has_identity(#[trigger] listing[i]) && listing[i] == compose(
                ado_type,
                version_of(listing[i]),
            ),
        forall|i: int, j: int|
            0 <= i < j < listing.len() ==> newer(#[trigger] listing[i], #[trigger] listing[j]) && !newer(
                listing[j],
                listing[i],
            ),
{
    assert forall|version: Seq<char>| s.has_identity(compose(ado_type, version)) implies listing.contains(
        compose(ado_type, version),
    ) by {
        law_identity_within_range(ado_type, version);
    }
    assert forall|i: int| 0 <= i < listing.len() implies s.has_identity(#[trigger] listing[i]) && listing[i]
        == compose(ado_type, version_of(listing[i])) by {
        assert(listing.contains(listing[i]));
        assert(s.code_ids.contains_key(listing[i]));
        lemma_compose_split(listing[i]);
    }
    assert forall|i: int, j: int| 0 <= i < j < listing.len() implies newer(
        #[trigger] listing[i],
        #[trigger] listing[j],
    ) && !newer(listing[j], listing[i]) by {
        assert(listing.contains(listing[i]));
        assert(listing.contains(listing[j]));
        law_versions_of_a_type_descend(listing, s, ado_type, i, j);
    }
}

} // verus!
