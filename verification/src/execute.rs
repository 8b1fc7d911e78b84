//! Changing the registry. Every operation first asks whether the caller may
//! change it, then checks all it needs, and writes only when nothing stands
//! in the way: an operation that is refused leaves the storage as it was.

use vstd::prelude::*;
use vstd::string::*;
use crate::ado_contract::ADOContract;
use crate::ado_version::{type_of, version_of, ADOVersion};
use crate::attributes::Attributes;
use crate::context::{is_outcome, is_step, ExecuteContext};
use crate::error::ContractError;
use crate::query::ado_exists;
use crate::records::{fee_views, text_of, texts, ADOMetadata, ActionFee, FeeView};
use crate::registry::{
    code_id_updated, exceeds_fee_table, fees_error, identity_error, key_fits, lemma_bind_keeps_wf,
    lemma_fee_removal_keeps_wf, lemma_fees_keep_wf, lemma_publisher_keeps_wf,
    lemma_rebind_keeps_wf, publish_error, published, published_key, publisher_error, storable,
    store_error, touched, update_code_id_error,
};
use crate::response::{attribute_views, Attribute, Response};
use crate::state::RegistryState;
use crate::store::{
    decodes, load_ado_type, load_code_id, load_latest, load_metadata, remove_ado_type, remove_fee,
    save_ado_type, save_code_id, save_fee, save_latest, save_metadata, save_publisher,
    MAX_PREFIX_BYTES,
};
use crate::version_order::{next_latest, parsed_version_lt, parses_as_version, semver_valid};

verus! {

/// What binding `key` to `code_id` logs.
pub open spec fn store_log(key: Seq<char>, code_id: u64) -> Seq<(Seq<char>, Seq<char>)> {
    Attributes::store_code_id_view(key, code_id) + Attributes::update_metadata_view(key)
        + Attributes::update_latest_version_view(key)
}

/// What setting `fees` on `key` logs.
pub open spec fn fees_log(key: Seq<char>, fees: Seq<FeeView>) -> Seq<(Seq<char>, Seq<char>)> {
    Attributes::update_action_fees_view(key) + fees.map_values(
        |fee: FeeView| Attributes::update_action_fee_view(fee.action),
    )
}

/// What removing the fees of `key` for `actions` logs.
pub open spec fn removal_log(key: Seq<char>, actions: Seq<Seq<char>>) -> Seq<(Seq<char>, Seq<char>)> {
    Attributes::remove_action_fees_view(key) + actions.map_values(
        |action: Seq<char>| Attributes::remove_action_fee_view(action),
    )
}

/// Who becomes the publisher: the one named, or the caller.
pub open spec fn publisher_or(publisher: Option<Seq<char>>, sender: Seq<char>) -> Seq<char> {
    match publisher {
        Some(who) => who,
        None => sender,
    }
}

/// What `publish` logs.
pub open spec fn publish_log(
    key: Seq<char>,
    code_id: u64,
    publisher: Seq<char>,
    fees: Option<Seq<FeeView>>,
) -> Seq<(Seq<char>, Seq<char>)> {
    let head = Attributes::publish_view() + store_log(key, code_id) + Attributes::update_publisher_view(
        publisher,
    );
    match fees {
        Some(list) => head + fees_log(key, list),
        None => head,
    }
}

/// What `update_code_id` logs.
pub open spec fn update_code_id_log(key: Seq<char>, code_id: u64) -> Seq<(Seq<char>, Seq<char>)> {
    Attributes::update_code_id_view(key, code_id) + store_log(key, code_id)
}

/// The views of an optional list of fees.
pub open spec fn fee_views_of(fees: Option<Vec<ActionFee>>) -> Option<Seq<FeeView>> {
    match fees {
        Some(list) => Some(fee_views(list@)),
        None => None,
    }
}

/// Writes the publication record of `key` for this call: a first record
/// where it has none, else the time and author of the last update only.
fn touch(execute_env: &mut ExecuteContext, key: &str)
    requires
        decodes(old(execute_env).storage),
    ensures
        decodes(final(execute_env).storage),
        final(execute_env).same_call(old(execute_env)),
        final(execute_env).state() == (RegistryState {
            metadata: old(execute_env).state().metadata.insert(
                key@,
                touched(
                    old(execute_env).state().metadata.get(key@),
                    old(execute_env).sender@,
                    old(execute_env).block_time,
                ),
            ),
            ..old(execute_env).state()
        }),
{
    let now = execute_env.block_time;
    let record = match load_metadata(&execute_env.storage, key) {
        Some(earlier) => ADOMetadata {
            published_on: earlier.published_on,
            updated_on: now,
            last_updated_by: execute_env.sender.clone(),
        },
        None => ADOMetadata {
            published_on: now,
            updated_on: now,
            last_updated_by: execute_env.sender.clone(),
        },
    };
    save_metadata(&mut execute_env.storage, key, &record);
}

/// Moves the latest version of the type of `ado_version` up to its version,
/// where the type has none or an older one.
fn raise_latest(execute_env: &mut ExecuteContext, ado_version: &ADOVersion)
    requires
        decodes(old(execute_env).storage),
        old(execute_env).state().latest_published(),
        semver_valid(version_of(ado_version@)),
    ensures
        decodes(final(execute_env).storage),
        final(execute_env).same_call(old(execute_env)),
        final(execute_env).state() == (RegistryState {
            latest: old(execute_env).state().latest.insert(
                type_of(ado_version@),
                old(execute_env).state().latest_with(ado_version@),
            ),
            ..old(execute_env).state()
        }),
{
    let ado_type = ado_version.get_type();
    let version = ado_version.get_version();
    let current = load_latest(&execute_env.storage, ado_type.as_str());
    let current_is_older = match &current {
        Some(latest) => {
            proof {
                reveal(RegistryState::latest_published);
                assert(execute_env.state().latest.contains_key(ado_type@));
            }
            parsed_version_lt(latest.as_str(), version.as_str())
        },
        None => false,
    };
    let latest = next_latest(current, version.as_str(), current_is_older);
    save_latest(&mut execute_env.storage, ado_type.as_str(), latest.as_str());
}

/// Writes the binding of `ado_version` to `code_id`: both directions, the
/// publication record, and the latest version of the type.
fn bind_code_id(
    execute_env: &mut ExecuteContext,
    ado_version: &ADOVersion,
    code_id: u64,
) -> (log: Vec<Attribute>)
    requires
        decodes(old(execute_env).storage),
        old(execute_env).state().latest_published(),
        storable(ado_version@),
    ensures
        decodes(final(execute_env).storage),
        final(execute_env).same_call(old(execute_env)),
        final(execute_env).state() == old(execute_env).state().bind(
            ado_version@,
            code_id,
            old(execute_env).sender@,
            old(execute_env).block_time,
        ),
        attribute_views(log@) == store_log(ado_version@, code_id),
{
    let key = ado_version.as_str();
    save_ado_type(&mut execute_env.storage, code_id, key);
    save_code_id(&mut execute_env.storage, key, code_id);
    touch(execute_env, key);
    proof {
        assert(execute_env.state().latest_published()) by {
            reveal(RegistryState::latest_published);
        }
    }
    raise_latest(execute_env, ado_version);

    let mut log = Attributes::store_code_id(ado_version, code_id);
    let mut more = Attributes::update_metadata(ado_version);
    log.append(&mut more);
    let mut more = Attributes::update_latest_version(ado_version);
    log.append(&mut more);
    assert(attribute_views(log@) =~= store_log(ado_version@, code_id));
    log
}

/// Whether `ado_version` can be bound to a code id: it is strict, and its
/// version is a semantic version.
pub fn can_be_stored(ado_version: &ADOVersion) -> (r: bool)
    ensures
        r == storable(ado_version@),
{
    ado_version.validate_strict() && parses_as_version(ado_version.get_version().as_str())
}

/// Binds `ado_version` to `code_id`, where the identity can be stored and
/// neither of the two is bound yet.
pub(crate) fn store_code_id(
    execute_env: &mut ExecuteContext,
    ado_version: &ADOVersion,
    code_id: u64,
) -> (r: Result<Response, ContractError>)
    requires
        decodes(old(execute_env).storage),
        old(execute_env).state().latest_published(),
    ensures
        is_step(
            *old(execute_env),
            *final(execute_env),
            r,
            store_error(old(execute_env).state(), ado_version@, code_id),
            old(execute_env).state().bind(
                ado_version@,
                code_id,
                old(execute_env).sender@,
                old(execute_env).block_time,
            ),
            store_log(ado_version@, code_id),
        ),
{
    if !can_be_stored(ado_version) {
        return Err(ContractError::InvalidIdentity);
    }
    if load_ado_type(&execute_env.storage, code_id).is_some() {
        return Err(ContractError::InvalidIdentity);
    }
    if load_code_id(&execute_env.storage, ado_version.as_str()).is_some() {
        return Err(ContractError::InvalidIdentity);
    }
    let log = bind_code_id(execute_env, ado_version, code_id);
    Ok(Response::new().add_attributes(log))
}

/// Writes `who` as the publisher of `key`.
fn set_publisher(execute_env: &mut ExecuteContext, key: &str, who: &str) -> (log: Vec<Attribute>)
    requires
        decodes(old(execute_env).storage),
    ensures
        decodes(final(execute_env).storage),
        final(execute_env).same_call(old(execute_env)),
        final(execute_env).state() == old(execute_env).state().with_publisher(key@, who@),
        attribute_views(log@) == Attributes::update_publisher_view(who@),
{
    save_publisher(&mut execute_env.storage, key, who);
    Attributes::update_publisher(who)
}

/// Whether the fee table can keep `fees` for `key`: there is none to keep,
/// or the key is no longer than the table takes.
pub fn fee_table_holds(key: &str, fees: &Vec<ActionFee>) -> (r: bool)
    ensures
        r == !exceeds_fee_table(key@, fee_views(fees@)),
{
    assert(fee_views(fees@).len() == fees@.len());
    fees.len() == 0 || key.len() <= MAX_PREFIX_BYTES
}

/// Writes each of `fees` as a fee of `key`, in turn.
fn set_fees(execute_env: &mut ExecuteContext, key: &str, fees: &Vec<ActionFee>) -> (log: Vec<Attribute>)
    requires
        decodes(old(execute_env).storage),
        !exceeds_fee_table(key@, fee_views(fees@)),
    ensures
        decodes(final(execute_env).storage),
        final(execute_env).same_call(old(execute_env)),
        final(execute_env).state() == old(execute_env).state().with_fees(key@, fee_views(fees@)),
        attribute_views(log@) == fees_log(key@, fee_views(fees@)),
{
    let ghost before = execute_env.state();
    let ghost all = fee_views(fees@);
    let mut log = Attributes::update_action_fees(key);
    let mut i: usize = 0;
    proof {
        assert(all.take(0) =~= Seq::<FeeView>::empty());
        assert(attribute_views(log@) =~= fees_log(key@, all.take(0)));
    }
    while i < fees.len()
        invariant
            i <= fees.len(),
            all == fee_views(fees@),
            !exceeds_fee_table(key@, all),
            decodes(execute_env.storage),
            execute_env.same_call(old(execute_env)),
            execute_env.state() == before.with_fees(key@, all.take(i as int)),
            attribute_views(log@) == fees_log(key@, all.take(i as int)),
        decreases fees.len() - i,
    {
        let fee = &fees[i];
        let ghost logged = attribute_views(log@);
        assert(all.len() == fees@.len());
        save_fee(&mut execute_env.storage, key, fee.action.as_str(), fee);
        log.push(Attributes::update_action_fee(fee.action.as_str()));
        proof {
            let next = all.take(i + 1);
            assert(next.drop_last() =~= all.take(i as int));
            assert(next.last() == fee@);
            assert(attribute_views(log@) =~= logged.push(Attributes::update_action_fee_view(fee@.action)));
            assert(attribute_views(log@) =~= fees_log(key@, next));
        }
        i += 1;
    }
    proof {
        assert(all.take(fees.len() as int) =~= all);
    }
    log
}

/// Removes the fee of `key` for each of `actions`, in turn. A key that the
/// fee table cannot hold has no fees, and the table is not asked for them.
fn clear_fees(execute_env: &mut ExecuteContext, key: &str, actions: &Vec<String>) -> (log: Vec<Attribute>)
    requires
        decodes(old(execute_env).storage),
        old(execute_env).state().fees_belong(),
    ensures
        decodes(final(execute_env).storage),
        final(execute_env).same_call(old(execute_env)),
        final(execute_env).state() == old(execute_env).state().without_fees(key@, texts(actions@)),
        attribute_views(log@) == removal_log(key@, texts(actions@)),
{
    let ghost before = execute_env.state();
    let ghost all = texts(actions@);
    let mut log = Attributes::remove_action_fees(key);
    let held = key.len() <= MAX_PREFIX_BYTES;
    let mut i: usize = 0;
    proof {
        assert(all.take(0) =~= Seq::<Seq<char>>::empty());
        assert(attribute_views(log@) =~= removal_log(key@, all.take(0)));
        assert(before.without_fees(key@, all.take(0)).fees =~= before.fees);
    }
    while i < actions.len()
        invariant
            i <= actions.len(),
            all == texts(actions@),
            held == key_fits(key@),
            before.fees_belong(),
            decodes(execute_env.storage),
            execute_env.same_call(old(execute_env)),
            execute_env.state() == before.without_fees(key@, all.take(i as int)),
            attribute_views(log@) == removal_log(key@, all.take(i as int)),
        decreases actions.len() - i,
    {
        let action = actions[i].as_str();
        let ghost logged = attribute_views(log@);
        if held {
            remove_fee(&mut execute_env.storage, key, action);
        }
        log.push(Attributes::remove_action_fee(action));
        proof {
            let done = all.take(i as int);
            let next = all.take(i + 1);
            if !held {
                assert(before.without_fees(key@, done).fees =~= before.fees);
                assert(before.without_fees(key@, next).fees =~= before.fees);
            }
            assert(next =~= done.push(action@));
            assert forall|a: Seq<char>| next.contains(a) <==> done.contains(a) || a == action@ by {
                if done.contains(a) {
                    let j = choose|j: int| 0 <= j < done.len() && done[j] == a;
                    assert(next[j] == a);
                }
                if a == action@ {
                    assert(next[i as int] == a);
                }
            }
            if held {
                assert(before.without_fees(key@, done).fees.remove((key@, action@)) =~= before.without_fees(
                    key@,
                    next,
                ).fees);
            }
            assert(attribute_views(log@) =~= logged.push(Attributes::remove_action_fee_view(action@)));
            assert(attribute_views(log@) =~= removal_log(key@, next));
        }
        i += 1;
    }
    proof {
        assert(all.take(actions.len() as int) =~= all);
    }
    log
}

/// Publishes version `version` of module type `ado_type` under `code_id`,
/// with `publisher`, or the caller where none is named, as its publisher,
/// and with `action_fees` as its fees if any are given. Whether the host
/// accepts the address of that publisher is for the host to say:
/// `address_accepted` is its answer.
pub fn publish(
    execute_env: &mut ExecuteContext,
    code_id: u64,
    ado_type: String,
    version: String,
    action_fees: Option<Vec<ActionFee>>,
    publisher: Option<String>,
    address_accepted: bool,
) -> (r: Result<Response, ContractError>)
    requires
        old(execute_env).wf(),
    ensures
        is_outcome(
            *old(execute_env),
            *final(execute_env),
            r,
            publish_error(
                old(execute_env).state(),
                old(execute_env).sender@,
                code_id,
                ado_type@,
                version@,
                fee_views_of(action_fees),
                address_accepted,
            ),
            published(
                old(execute_env).state(),
                old(execute_env).sender@,
                old(execute_env).block_time,
                code_id,
                ado_type@,
                version@,
                fee_views_of(action_fees),
                text_of(publisher),
            ),
            publish_log(
                published_key(ado_type@, version@),
                code_id,
                publisher_or(text_of(publisher), old(execute_env).sender@),
                fee_views_of(action_fees),
            ),
        ),
{
    let ghost before = execute_env.state();
    let ghost sender = execute_env.sender@;
    let ghost now = execute_env.block_time;
    if !ADOContract::default().is_owner_or_operator(&execute_env.storage, execute_env.sender.as_str()) {
        return Err(ContractError::Unauthorized);
    }
    let ado_version = ADOVersion::from_type(ado_type.as_str()).with_version(version.as_str());
    let ghost key = ado_version@;
    if load_ado_type(&execute_env.storage, code_id).is_some() {
        return Err(ContractError::InvalidIdentity);
    }
    if load_code_id(&execute_env.storage, ado_version.as_str()).is_some() {
        return Err(ContractError::InvalidIdentity);
    }
    // Whether the identity, the publisher and the fees can be written is
    // asked before anything is written.
    if !can_be_stored(&ado_version) {
        return Err(ContractError::InvalidIdentity);
    }
    if !address_accepted {
        return Err(ContractError::InvalidAddress);
    }
    match &action_fees {
        Some(fees) => {
            if !fee_table_holds(ado_version.as_str(), fees) {
                return Err(ContractError::InvalidIdentity);
            }
        },
        None => {},
    }
    let mut log = Attributes::publish();
    let mut more = store_code_id(execute_env, &ado_version, code_id)?.attributes;
    log.append(&mut more);

    let who = match &publisher {
        Some(named) => named.clone(),
        None => execute_env.sender.clone(),
    };
    let mut more = set_publisher(execute_env, ado_version.as_str(), who.as_str());
    log.append(&mut more);
    let ghost bound = execute_env.state();
    proof {
        lemma_bind_keeps_wf(before, key, code_id, sender, now, who@);
    }

    match &action_fees {
        Some(fees) => {
            let mut more = set_fees(execute_env, ado_version.as_str(), fees);
            log.append(&mut more);
            proof {
                lemma_fees_keep_wf(bound, key, fee_views(fees@));
            }
        },
        None => {},
    }
    let response = Response::new().add_attributes(log);
    assert(response@ =~= publish_log(key, code_id, who@, fee_views_of(action_fees)));
    Ok(response)
}

/// Moves the identity `code_id_key` from the code id that it is bound to
/// over to `code_id`.
pub fn update_code_id(
    execute_env: &mut ExecuteContext,
    code_id_key: &str,
    code_id: u64,
) -> (r: Result<Response, ContractError>)
    requires
        old(execute_env).wf(),
    ensures
        is_outcome(
            *old(execute_env),
            *final(execute_env),
            r,
            update_code_id_error(old(execute_env).state(), old(execute_env).sender@, code_id_key@, code_id),
            code_id_updated(
                old(execute_env).state(),
                old(execute_env).sender@,
                old(execute_env).block_time,
                code_id_key@,
                code_id,
            ),
            update_code_id_log(code_id_key@, code_id),
        ),
{
    let ghost before = execute_env.state();
    if !ADOContract::default().is_owner_or_operator(&execute_env.storage, execute_env.sender.as_str()) {
        return Err(ContractError::Unauthorized);
    }
    let previous = match load_code_id(&execute_env.storage, code_id_key) {
        Some(previous) => previous,
        None => {
            return Err(ContractError::InvalidIdentity);
        },
    };
    if load_ado_type(&execute_env.storage, code_id).is_some() {
        return Err(ContractError::InvalidIdentity);
    }
    let ado_version = ADOVersion::from_string(code_id_key);
    remove_ado_type(&mut execute_env.storage, previous);
    proof {
        assert(execute_env.state().latest_published()) by {
            reveal(RegistryState::latest_published);
        }
    }
    let mut log = Attributes::update_code_id(ado_version.as_str(), code_id);
    let mut more = bind_code_id(execute_env, &ado_version, code_id);
    log.append(&mut more);
    proof {
        lemma_rebind_keeps_wf(before, code_id_key@, code_id, execute_env.sender@, execute_env.block_time);
    }
    let response = Response::new().add_attributes(log);
    assert(response@ =~= update_code_id_log(code_id_key@, code_id));
    Ok(response)
}

/// Names `publisher`, or the caller where none is given, as the publisher
/// of the bound identity `ado_version`. Whether the host accepts the
/// address of that publisher is for the host to say: `address_accepted` is
/// its answer.
pub fn update_publisher(
    execute_env: &mut ExecuteContext,
    ado_version: &str,
    publisher: Option<String>,
    address_accepted: bool,
) -> (r: Result<Response, ContractError>)
    requires
        old(execute_env).wf(),
    ensures
        is_outcome(
            *old(execute_env),
            *final(execute_env),
            r,
            publisher_error(
                old(execute_env).state(),
                old(execute_env).sender@,
                ado_version@,
                address_accepted,
            ),
            old(execute_env).state().with_publisher(
                ado_version@,
                publisher_or(text_of(publisher), old(execute_env).sender@),
            ),
            Attributes::update_publisher_view(publisher_or(text_of(publisher), old(execute_env).sender@)),
        ),
{
    let ghost before = execute_env.state();
    if !ADOContract::default().is_owner_or_operator(&execute_env.storage, execute_env.sender.as_str()) {
        return Err(ContractError::Unauthorized);
    }
    if load_code_id(&execute_env.storage, ado_version).is_none() {
        return Err(ContractError::InvalidIdentity);
    }
    if !address_accepted {
        return Err(ContractError::InvalidAddress);
    }
    let who = match publisher {
        Some(named) => named,
        None => execute_env.sender.clone(),
    };
    let log = set_publisher(execute_env, ado_version, who.as_str());
    proof {
        lemma_publisher_keeps_wf(before, ado_version@, who@);
    }
    Ok(Response::new().add_attributes(log))
}

/// Sets each of `fees` as a fee of the bound identity `ado_version`.
pub fn update_action_fees(
    execute_env: &mut ExecuteContext,
    ado_version: &str,
    fees: Vec<ActionFee>,
) -> (r: Result<Response, ContractError>)
    requires
        old(execute_env).wf(),
    ensures
        is_outcome(
            *old(execute_env),
            *final(execute_env),
            r,
            fees_error(old(execute_env).state(), old(execute_env).sender@, ado_version@, fee_views(fees@)),
            old(execute_env).state().with_fees(ado_version@, fee_views(fees@)),
            fees_log(ado_version@, fee_views(fees@)),
        ),
{
    let ghost before = execute_env.state();
    if !ADOContract::default().is_owner_or_operator(&execute_env.storage, execute_env.sender.as_str()) {
        return Err(ContractError::Unauthorized);
    }
    let identity = ADOVersion::from_string(ado_version);
    ado_exists(&execute_env.storage, &identity)?;
    if !fee_table_holds(identity.as_str(), &fees) {
        return Err(ContractError::InvalidIdentity);
    }
    let log = set_fees(execute_env, identity.as_str(), &fees);
    proof {
        lemma_fees_keep_wf(before, ado_version@, fee_views(fees@));
    }
    Ok(Response::new().add_attributes(log))
}

/// Removes the fees of the bound identity `ado_version` for each of
/// `actions`. An action without a fee is passed over.
pub fn remove_action_fees(
    execute_env: &mut ExecuteContext,
    ado_version: &str,
    actions: Vec<String>,
) -> (r: Result<Response, ContractError>)
    requires
        old(execute_env).wf(),
    ensures
        is_outcome(
            *old(execute_env),
            *final(execute_env),
            r,
            identity_error(old(execute_env).state(), old(execute_env).sender@, ado_version@),
            old(execute_env).state().without_fees(ado_version@, texts(actions@)),
            removal_log(ado_version@, texts(actions@)),
        ),
{
    let ghost before = execute_env.state();
    if !ADOContract::default().is_owner_or_operator(&execute_env.storage, execute_env.sender.as_str()) {
        return Err(ContractError::Unauthorized);
    }
    let identity = ADOVersion::from_string(ado_version);
    ado_exists(&execute_env.storage, &identity)?;
    let log = clear_fees(execute_env, identity.as_str(), &actions);
    proof {
        lemma_fee_removal_keeps_wf(before, ado_version@, texts(actions@));
    }
    Ok(Response::new().add_attributes(log))
}

} // verus!
