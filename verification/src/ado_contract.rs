//! Who may change the registry: its owner and its operators.

use vstd::prelude::*;
use cosmwasm_std::MemoryStorage;
use crate::context::holds_registry;
use crate::error::ContractError;
use crate::records::{text_of, texts};
use crate::registry::lemma_guard_change_keeps_wf;
use crate::response::{attr, Response};
use crate::state::RegistryState;
use crate::key_order::{is_ascending, lists_all};
use crate::store::{
    decodes, has_operator, list_operators, load_owner, save_operator, save_owner, state_of,
};

verus! {

/// What is needed to set up the guard of a module.
#[derive(Debug, Clone, PartialEq, Eq)]
pub struct InstantiateMsg {
    pub ado_type: String,
    pub operators: Option<Vec<String>>,
    pub owner: Option<String>,
}

/// The answer to the question who owns the registry.
#[derive(Debug, Clone, PartialEq, Eq)]
pub struct ContractOwnerResponse {
    pub owner: String,
}

/// The answer to the question whether someone is an operator.
#[derive(Debug, Clone, Copy, PartialEq, Eq)]
pub struct IsOperatorResponse {
    pub is_operator: bool,
}

/// The answer to the question who the operators are.
#[derive(Debug, Clone, PartialEq, Eq)]
pub struct OperatorsResponse {
    pub operators: Vec<String>,
}

/// The guard of the registry.
#[derive(Debug, Clone, Copy)]
pub struct ADOContract;

impl Default for ADOContract {
    fn default() -> (r: ADOContract)
        ensures
            r == ADOContract,
    {
        ADOContract
    }
}

/// The operators of a registry once each of `added` is one.
pub open spec fn with_operators(operators: Set<Seq<char>>, added: Seq<Seq<char>>) -> Set<Seq<char>> {
    Set::new(|who: Seq<char>| operators.contains(who) || added.contains(who))
}

/// The registry once it is set up by `sender`: its owner is `owner`, or
/// `sender` where none is given, and each of `operators` is an operator.
pub open spec fn instantiated(
    s: RegistryState,
    sender: Seq<char>,
    owner: Option<Seq<char>>,
    operators: Option<Seq<Seq<char>>>,
) -> RegistryState {
    RegistryState {
        owner: Some(
            match owner {
                Some(who) => who,
                None => sender,
            },
        ),
        operators: match operators {
            Some(added) => with_operators(s.operators, added),
            None => s.operators,
        },
        ..s
    }
}

/// The texts of an optional list of strings.
pub open spec fn texts_of(items: Option<Vec<String>>) -> Option<Seq<Seq<char>>> {
    match items {
        Some(list) => Some(texts(list@)),
        None => None,
    }
}

/// What setting up the guard for a module of type `ado_type` logs.
pub open spec fn instantiate_log(ado_type: Seq<char>) -> Seq<(Seq<char>, Seq<char>)> {
    seq![("method"@, "instantiate"@), ("type"@, ado_type)]
}

impl ADOContract {
    /// Sets up the guard: `sender` or the owner that `msg` names owns the
    /// registry, and the operators that `msg` names are its operators.
    pub fn instantiate(
        &self,
        storage: &mut MemoryStorage,
        sender: &str,
        msg: InstantiateMsg,
    ) -> (r: Result<Response, ContractError>)
        requires
            holds_registry(*old(storage)),
        ensures
            holds_registry(*final(storage)),
            state_of(*final(storage)) == instantiated(
                state_of(*old(storage)),
                sender@,
                text_of(msg.owner),
                texts_of(msg.operators),
            ),
            r is Ok,
            r->Ok_0@ == instantiate_log(msg.ado_type@),
    {
        let ghost before = state_of(*storage);
        match &msg.owner {
            Some(who) => save_owner(storage, who.as_str()),
            None => save_owner(storage, sender),
        }
        let ghost owned = state_of(*storage);
        match &msg.operators {
            Some(list) => {
                let mut i: usize = 0;
                proof {
                    assert(with_operators(before.operators, texts(list@).take(0)) =~= owned.operators);
                }
                while i < list.len()
                    invariant
                        i <= list.len(),
                        decodes(*storage),
                        state_of(*storage) == (RegistryState {
                            operators: with_operators(before.operators, texts(list@).take(i as int)),
                            ..owned
                        }),
                    decreases list.len() - i,
                {
                    save_operator(storage, list[i].as_str());
                    proof {
                        let added = texts(list@).take(i as int);
                        let more = texts(list@).take(i + 1);
                        assert(more =~= added.push(list@[i as int]@));
                        assert forall|who: Seq<char>| more.contains(who) <==> added.contains(who) || who
                            == list@[i as int]@ by {
                            if added.contains(who) {
                                let j = choose|j: int| 0 <= j < added.len() && added[j] == who;
                                assert(more[j] == who);
                            }
                            if who == list@[i as int]@ {
                                assert(more[i as int] == who);
                            }
                        }
                        assert(with_operators(before.operators, added).insert(list@[i as int]@) =~= with_operators(
                            before.operators,
                            more,
                        ));
                    }
                    i += 1;
                }
                proof {
                    assert(texts(list@).take(list@.len() as int) =~= texts(list@));
                }
            },
            None => {
                proof {
                    assert(with_operators(before.operators, Seq::<Seq<char>>::empty()) =~= before.operators);
                }
            },
        }
        proof {
            lemma_guard_change_keeps_wf(before, state_of(*storage).owner, state_of(*storage).operators);
        }
        let mut log = Vec::new();
        log.push(attr("method", "instantiate"));
        log.push(attr("type", msg.ado_type.as_str()));
        let response = Response::new().add_attributes(log);
        assert(response@ =~= instantiate_log(msg.ado_type@));
        Ok(response)
    }

    /// Whether `addr` owns the registry.
    pub fn is_contract_owner(&self, storage: &MemoryStorage, addr: &str) -> (r: bool)
        requires
            decodes(*storage),
        ensures
            r == (state_of(*storage).owner == Some(addr@)),
    {
        match load_owner(storage) {
            Some(owner) => {
                let same = owner == addr.to_owned();
                same
            },
            None => false,
        }
    }

    /// Whether `addr` is an operator of the registry.
    pub fn is_operator(&self, storage: &MemoryStorage, addr: &str) -> (r: bool)
        requires
            decodes(*storage),
        ensures
            r == state_of(*storage).operators.contains(addr@),
    {
        has_operator(storage, addr)
    }

    /// Whether `addr` may change the registry.
    pub fn is_owner_or_operator(&self, storage: &MemoryStorage, addr: &str) -> (r: bool)
        requires
            decodes(*storage),
        ensures
            r == state_of(*storage).authorizes(addr@),
    {
        self.is_contract_owner(storage, addr) || self.is_operator(storage, addr)
    }

    /// Who owns the registry; `NotFound` before it is set up.
    pub fn query_contract_owner(
        &self,
        storage: &MemoryStorage,
    ) -> (r: Result<ContractOwnerResponse, ContractError>)
        requires
            decodes(*storage),
        ensures
            state_of(*storage).owner is Some ==> r is Ok && Some(r->Ok_0.owner@) == state_of(*storage).owner,
            state_of(*storage).owner is None ==> r == Err::<ContractOwnerResponse, ContractError>(
                ContractError::NotFound,
            ),
    {
        match load_owner(storage) {
            Some(owner) => Ok(ContractOwnerResponse { owner }),
            None => Err(ContractError::NotFound),
        }
    }

    /// Whether `addr` is an operator of the registry.
    pub fn query_is_operator(
        &self,
        storage: &MemoryStorage,
        addr: &str,
    ) -> (r: Result<IsOperatorResponse, ContractError>)
        requires
            decodes(*storage),
        ensures
            r == Ok::<IsOperatorResponse, ContractError>(
                IsOperatorResponse { is_operator: state_of(*storage).operators.contains(addr@) },
            ),
    {
        Ok(IsOperatorResponse { is_operator: has_operator(storage, addr) })
    }

    /// The operators of the registry, each once, in the order of the storage.
    pub fn query_operators(&self, storage: &MemoryStorage) -> (r: Result<OperatorsResponse, ContractError>)
        requires
            decodes(*storage),
        ensures
            r is Ok,
            is_ascending(texts(r->Ok_0.operators@)),
            lists_all(texts(r->Ok_0.operators@), state_of(*storage).operators),
    {
        Ok(OperatorsResponse { operators: list_operators(storage) })
    }
}

} // verus!
