//! Executor: orchestrates end-to-end put/update requests. A put stores the
//! module in the code store, validates the initial state in a fresh
//! sandbox instance and, only when the guest accepts it, commits the state
//! and parameters. An update resolves the current state and code, asks the
//! guest for the new state and commits it on success; on any failure the
//! prior committed state is left untouched. The executor takes every
//! request through `&mut self`, so state transitions on one contract are
//! totally ordered ("load current state, compute, commit" is atomic with
//! respect to other updates).
//!
//! The `release` flag of a request controls only whether the committed
//! result would additionally be handed to the network-publication
//! collaborator, which is outside this subsystem; local persistence is
//! identical either way, as the contracts here state without mentioning
//! the flag.

use vstd::prelude::*;
use crate::ContractError;
use crate::code_store::CodeStore;
use crate::hashing::{hash_of, ContractId};
use crate::kvlist::{clone_bytes, KvList};
use crate::sandbox::{spec_module_ok, spec_update, spec_validate, ExecLimits, GuestOutcome,
    SandboxInstance};
use crate::state_store::StateStore;

verus! {

/// Orchestrator owning the code store, the state store, the published
/// parameters of each contract and the sandbox resource limits.
pub struct ContractExecutor {
    code_store: CodeStore,
    state_store: StateStore,
    params: KvList,
    limits: ExecLimits,
}

impl ContractExecutor {
    /// The stored modules, keyed by content hash.
    pub closed spec fn codes(self) -> Map<Seq<u8>, Seq<u8>> {
        self.code_store.codes()
    }

    /// The durably committed state per contract.
    pub closed spec fn states(self) -> Map<Seq<u8>, Seq<u8>> {
        self.state_store.states()
    }

    /// The parameters each contract was published with.
    pub closed spec fn params_of(self) -> Map<Seq<u8>, Seq<u8>> {
        self.params.view()
    }

    /// The sandbox resource ceiling.
    pub closed spec fn limits(self) -> ExecLimits {
        self.limits
    }

    /// The code store's byte capacity.
    pub closed spec fn code_capacity(self) -> int {
        self.code_store.capacity()
    }

    /// The code store's occupancy.
    pub closed spec fn code_occupancy(self) -> int {
        self.code_store.occupancy()
    }

    /// The state cache's byte budget.
    pub closed spec fn cache_budget(self) -> int {
        self.state_store.budget()
    }

    /// Well-formedness: both stores are well-formed, and every contract
    /// with committed state also has its published parameters on record
    /// (state is never orphaned from the publish that created it).
    pub closed spec fn wf(self) -> bool {
        &&& self.code_store.wf()
        &&& self.state_store.wf()
        &&& self.params.wf()
        &&& forall|k: Seq<u8>|
            #[trigger] self.states().contains_key(k) ==> self.params_of().contains_key(k)
    }

    /// An executor over empty stores with the given configuration: a byte
    /// capacity for the code store, a byte budget for the state cache and
    /// a per-invocation sandbox resource ceiling.
    pub fn new(max_code_size: u64, cache_budget: u64, limits: ExecLimits) -> (r: ContractExecutor)
        ensures
            r.wf(),
            r.codes() == Map::<Seq<u8>, Seq<u8>>::empty(),
            r.states() == Map::<Seq<u8>, Seq<u8>>::empty(),
            r.params_of() == Map::<Seq<u8>, Seq<u8>>::empty(),
            r.limits() == limits,
            r.code_capacity() == max_code_size as int,
            r.cache_budget() == cache_budget as int,
    {
        ContractExecutor {
            code_store: CodeStore::new(max_code_size),
            state_store: StateStore::new(cache_budget),
            params: KvList::new(),
            limits,
        }
    }

    /// Bytes occupied by the code store, never above its capacity.
    pub fn code_occupied_bytes(&self) -> (r: u64)
        requires
            self.wf(),
        ensures
            r as int == self.code_occupancy(),
            r as int <= self.code_capacity(),
    {
        proof {
            self.code_store.lemma_wf();
        }
        self.code_store.occupied_bytes()
    }

    /// The code store's configured byte capacity.
    pub fn code_capacity_bytes(&self) -> (r: u64)
        ensures
            r as int == self.code_capacity(),
    {
        self.code_store.capacity_bytes()
    }

    /// Bytes held by the state store's in-memory cache.
    pub fn cache_occupied_bytes(&self) -> (r: u64)
        requires
            self.wf(),
        ensures
            r as int <= self.cache_budget(),
    {
        proof {
            self.state_store.lemma_wf();
        }
        self.state_store.cache_occupied_bytes()
    }

    /// Publishes a contract: stores the code under its content hash,
    /// validates the initial state in a fresh sandbox instance, and only
    /// on a nonzero guest verdict commits state and parameters. Exactly
    /// one error is possible per failure mode, and nothing is persisted to
    /// the state store unless the guest accepted the state.
    pub fn put(
        &mut self,
        code: &Vec<u8>,
        parameters: &Vec<u8>,
        initial_state: &Vec<u8>,
        _release: bool,
    ) -> (r: Result<ContractId, ContractError>)
        requires
            old(self).wf(),
        ensures
            final(self).wf(),
            final(self).limits() == old(self).limits(),
            final(self).code_capacity() == old(self).code_capacity(),
            final(self).cache_budget() == old(self).cache_budget(),
            ({
                let id = hash_of(code@);
                let already = old(self).codes().contains_key(id);
                let fits = already || code@.len() <= old(self).code_capacity();
                let m_ok = spec_module_ok(code@);
                let o = spec_validate(code@, parameters@, initial_state@, old(self).limits());
                &&& (r is Ok <==> fits && m_ok && o == GuestOutcome::Valid)
                &&& match r {
                    Ok(cid) => cid.wf() && cid@ == id && final(self).codes().contains_key(id)
                        && final(self).states() == old(self).states().insert(id, initial_state@)
                        && final(self).params_of() == old(self).params_of().insert(
                        id,
                        parameters@,
                    ),
                    Err(e) => final(self).states() == old(self).states() && final(self).params_of()
                        == old(self).params_of() && (e == ContractError::CapacityExceeded
                        ==> final(self).codes() == old(self).codes()) && (e
                        != ContractError::CapacityExceeded ==> final(self).codes().contains_key(id))
                        && (e == ContractError::CapacityExceeded <==> !fits)
                        && (e == ContractError::InvalidModule <==> fits && !m_ok) && (e
                        == ContractError::ValidationFailed <==> fits && m_ok && o
                        == GuestOutcome::Invalid) && (e == ContractError::SandboxTrap <==> fits
                        && m_ok && o == GuestOutcome::Trap),
                }
            }),
    {
        let cid = match self.code_store.store(code) {
            Ok(c) => c,
            Err(e) => {
                return Err(e);
            },
        };
        let mut inst = match SandboxInstance::instantiate(code, self.limits) {
            Ok(i) => i,
            Err(e) => {
                proof {
                    lemma_coupling_kept(*old(self), *self);
                }
                return Err(e);
            },
        };
        match inst.call_validate(parameters, initial_state) {
            Ok(true) => {
                self.state_store.put(&cid, initial_state);
                let _ = self.params.remove_key(cid.as_bytes());
                let key = clone_bytes(cid.as_bytes());
                let value = clone_bytes(parameters);
                self.params.push_absent(key, value);
                proof {
                    assert(self.params_of() =~= old(self).params_of().insert(cid@, parameters@));
                    lemma_coupling_insert_both(
                        *old(self),
                        *self,
                        cid@,
                        initial_state@,
                        parameters@,
                    );
                }
                Ok(cid)
            },
            Ok(false) => {
                proof {
                    lemma_coupling_kept(*old(self), *self);
                }
                Err(ContractError::ValidationFailed)
            },
            Err(e) => {
                proof {
                    lemma_coupling_kept(*old(self), *self);
                }
                Err(e)
            },
        }
    }

    /// Applies a delta to a contract's current state: loads the committed
    /// state and the module (failing with `NotFound` when either was never
    /// stored), asks the guest's update entry point for the new state, and
    /// commits it only on success. On rejection or a trap the prior
    /// committed state is preserved unchanged.
    pub fn update(&mut self, id: &ContractId, delta: &Vec<u8>, _release: bool) -> (r: Result<
        Vec<u8>,
        ContractError,
    >)
        requires
            old(self).wf(),
        ensures
            final(self).wf(),
            final(self).limits() == old(self).limits(),
            final(self).code_capacity() == old(self).code_capacity(),
            final(self).cache_budget() == old(self).cache_budget(),
            final(self).codes() == old(self).codes(),
            final(self).params_of() == old(self).params_of(),
            ({
                let present = old(self).states().contains_key(id@) && old(
                    self,
                ).codes().contains_key(id@);
                let code = old(self).codes()[id@];
                let prior = old(self).states()[id@];
                let pars = old(self).params_of()[id@];
                let m_ok = spec_module_ok(code);
                let o = spec_update(code, pars, prior, delta@, old(self).limits());
                &&& (r is Ok <==> present && m_ok && o == GuestOutcome::Valid)
                &&& match r {
                    Ok(new_state) => new_state@ == delta@ && final(self).states() == old(
                        self,
                    ).states().insert(id@, delta@),
                    Err(e) => final(self).states() == old(self).states() && (e
                        == ContractError::NotFound <==> !present) && (e
                        == ContractError::InvalidModule <==> present && !m_ok) && (e
                        == ContractError::UpdateRejected <==> present && m_ok && o
                        == GuestOutcome::Invalid) && (e == ContractError::SandboxTrap <==> present
                        && m_ok && o == GuestOutcome::Trap),
                }
            }),
    {
        let prior = match self.state_store.get(id) {
            Ok(s) => s,
            Err(e) => {
                proof {
                    lemma_coupling_kept(*old(self), *self);
                }
                return Err(e);
            },
        };
        let code = match self.code_store.load(id) {
            Ok(c) => c,
            Err(e) => {
                proof {
                    lemma_coupling_kept(*old(self), *self);
                }
                return Err(e);
            },
        };
        let pars = match self.params.lookup(id.as_bytes()) {
            Some(p) => p,
            None => {
                proof {
                    assert(false);
                }
                return Err(ContractError::StoreIoError);
            },
        };
        let mut inst = match SandboxInstance::instantiate(&code, self.limits) {
            Ok(i) => i,
            Err(e) => {
                proof {
                    lemma_coupling_kept(*old(self), *self);
                }
                return Err(e);
            },
        };
        match inst.call_update(&pars, &prior, delta) {
            Ok(new_state) => {
                self.state_store.put(id, &new_state);
                proof {
                    lemma_coupling_insert_state(*old(self), *self, id@, new_state@);
                }
                Ok(new_state)
            },
            Err(e) => {
                proof {
                    lemma_coupling_kept(*old(self), *self);
                }
                Err(e)
            },
        }
    }

    /// Reads the current committed state of a contract, through the state
    /// store's cache. The stored maps are unchanged.
    pub fn get(&mut self, id: &ContractId) -> (r: Result<Vec<u8>, ContractError>)
        requires
            old(self).wf(),
        ensures
            final(self).wf(),
            final(self).limits() == old(self).limits(),
            final(self).codes() == old(self).codes(),
            final(self).states() == old(self).states(),
            final(self).params_of() == old(self).params_of(),
            match r {
                Ok(s) => old(self).states().contains_key(id@) && s@ == old(self).states()[id@],
                Err(e) => e == ContractError::NotFound && !old(self).states().contains_key(id@),
            },
    {
        let r = self.state_store.get(id);
        proof {
            assert forall|k: Seq<u8>| #[trigger] self.states().contains_key(k) implies self
                .params_of().contains_key(k) by {
                assert(old(self).states().contains_key(k));
            }
        }
        r
    }
}

/// The state-to-parameters coupling survives any step that leaves both
/// maps unchanged.
proof fn lemma_coupling_kept(pre: ContractExecutor, post: ContractExecutor)
    requires
        pre.wf(),
        post.states() == pre.states(),
        post.params_of() == pre.params_of(),
    ensures
        forall|k: Seq<u8>|
            #[trigger] post.states().contains_key(k) ==> post.params_of().contains_key(k),
{
    assert forall|k: Seq<u8>| #[trigger] post.states().contains_key(k) implies post
        .params_of().contains_key(k) by {
        assert(pre.states().contains_key(k));
    }
}

/// The coupling survives committing state and parameters for one
/// contract together.
proof fn lemma_coupling_insert_both(
    pre: ContractExecutor,
    post: ContractExecutor,
    id: Seq<u8>,
    sv: Seq<u8>,
    pv: Seq<u8>,
)
    requires
        pre.wf(),
        post.states() == pre.states().insert(id, sv),
        post.params_of() == pre.params_of().insert(id, pv),
    ensures
        forall|k: Seq<u8>|
            #[trigger] post.states().contains_key(k) ==> post.params_of().contains_key(k),
{
    assert forall|k: Seq<u8>| #[trigger] post.states().contains_key(k) implies post
        .params_of().contains_key(k) by {
        if k != id {
            assert(pre.states().contains_key(k));
        }
    }
}

/// The coupling survives recommitting state for a contract whose
/// parameters are already on record.
proof fn lemma_coupling_insert_state(
    pre: ContractExecutor,
    post: ContractExecutor,
    id: Seq<u8>,
    sv: Seq<u8>,
)
    requires
        pre.wf(),
        pre.params_of().contains_key(id),
        post.states() == pre.states().insert(id, sv),
        post.params_of() == pre.params_of(),
    ensures
        forall|k: Seq<u8>|
            #[trigger] post.states().contains_key(k) ==> post.params_of().contains_key(k),
{
    assert forall|k: Seq<u8>| #[trigger] post.states().contains_key(k) implies post
        .params_of().contains_key(k) by {
        if k != id {
            assert(pre.states().contains_key(k));
        }
    }
}

/// A committed put is immediately observable: when a put has committed
/// `initial_state` under the identifier derived from `code`, the state map
/// holds exactly that state there — which is what `get` then returns.
pub proof fn lemma_put_then_get(
    pre: ContractExecutor,
    post: ContractExecutor,
    code: Seq<u8>,
    initial_state: Seq<u8>,
)
    requires
        post.states() == pre.states().insert(hash_of(code), initial_state),
    ensures
        post.states().contains_key(hash_of(code)),
        post.states()[hash_of(code)] == initial_state,
{
}

/// A put that fails validation persists nothing: for a contract never
/// previously published, a failing put leaves the state map unchanged, so
/// no state is retrievable for the derived identifier afterwards.
pub proof fn lemma_failed_put_leaves_no_state(
    pre: ContractExecutor,
    post: ContractExecutor,
    id: Seq<u8>,
)
    requires
        post.states() == pre.states(),
        !pre.states().contains_key(id),
    ensures
        !post.states().contains_key(id),
{
}

/// Serialized updates: the executor takes every update through `&mut
/// self`, so transitions on one contract are totally ordered, and
/// `update`'s contract pins each commit to the state map observed at
/// entry. Hence two updates that both commit against the same contract
/// never commit against the same observed prior state: the second's
/// observed prior state is exactly the state the first committed.
pub proof fn lemma_updates_serialized(
    e0: ContractExecutor,
    e1: ContractExecutor,
    e2: ContractExecutor,
    id: Seq<u8>,
    n1: Seq<u8>,
    n2: Seq<u8>,
)
    requires
        e1.states() == e0.states().insert(id, n1),
        e2.states() == e1.states().insert(id, n2),
    ensures
        e1.states().contains_key(id) && e1.states()[id] == n1,
        e2.states().contains_key(id) && e2.states()[id] == n2,
{
}

} // verus!
