//! What an operation is given: the storage, the caller, and the time.

use vstd::prelude::*;
use cosmwasm_std::MemoryStorage;
use crate::error::ContractError;
use crate::registry::lemma_empty_wf;
use crate::response::Response;
use crate::state::RegistryState;
use crate::store::{decodes, state_of};

verus! {

/// Whether `storage` holds a well-formed registry.
pub open spec fn holds_registry(storage: MemoryStorage) -> bool {
    decodes(storage) && state_of(storage).wf()
}

/// A storage that holds the empty registry.
pub fn empty_registry() -> (r: MemoryStorage)
    ensures
        holds_registry(r),
        state_of(r) == RegistryState::empty(),
{
    proof {
        lemma_empty_wf();
    }
    MemoryStorage::new()
}

/// The storage of the registry, who calls, and when. The time is in
/// nanoseconds since the epoch.
pub struct ExecuteContext {
    pub storage: MemoryStorage,
    pub sender: String,
    pub block_time: u64,
}

/// What a step of a change to the registry comes to. Where something
/// stands in its way, the step reports that `error` and leaves everything
/// as it was. Otherwise it succeeds, the registry becomes `next`, and the
/// response holds `log`. The caller and the time stay the same either way.
pub open spec fn is_step(
    before: ExecuteContext,
    after: ExecuteContext,
    r: Result<Response, ContractError>,
    error: Option<ContractError>,
    next: RegistryState,
    log: Seq<(Seq<char>, Seq<char>)>,
) -> bool {
    &&& after.same_call(&before)
    &&& decodes(after.storage)
    &&& match error {
        Some(e) => after == before && r == Err::<Response, ContractError>(e),
        None => r is Ok && after.state() == next && r->Ok_0@ == log,
    }
}

/// What a change to the registry comes to: what a step comes to, and a
/// registry that is well formed.
pub open spec fn is_outcome(
    before: ExecuteContext,
    after: ExecuteContext,
    r: Result<Response, ContractError>,
    error: Option<ContractError>,
    next: RegistryState,
    log: Seq<(Seq<char>, Seq<char>)>,
) -> bool {
    is_step(before, after, r, error, next, log) && after.wf()
}

impl ExecuteContext {
    /// The registry that the storage holds.
    pub open spec fn state(&self) -> RegistryState {
        state_of(self.storage)
    }

    /// Whether the storage holds a well-formed registry.
    pub open spec fn wf(&self) -> bool {
        holds_registry(self.storage)
    }

    /// Whether `other` has the same caller and time.
    pub open spec fn same_call(&self, other: &ExecuteContext) -> bool {
        self.sender == other.sender && self.block_time == other.block_time
    }

    /// A call by `sender` at `block_time` on `storage`.
    pub fn new(storage: MemoryStorage, sender: &str, block_time: u64) -> (r: ExecuteContext)
        ensures
            r.storage == storage,
            r.sender@ == sender@,
            r.block_time == block_time,
    {
        ExecuteContext { storage, sender: sender.to_owned(), block_time }
    }
}

} // verus!
