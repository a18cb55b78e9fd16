//! Durable persistence of the current state per contract, fronted by a
//! bounded in-memory cache for hot entries. The durable layer is
//! authoritative: the cache is a performance layer holding a subset of the
//! durable entries, its occupancy never exceeds the configured budget, and
//! eviction never loses durable data. `get` returns the durably committed
//! state whether or not the entry is currently cached.

use vstd::prelude::*;
use crate::ContractError;
use crate::hashing::ContractId;
use crate::kvlist::{clone_bytes, KvList};

verus! {

/// State store: authoritative durable entries plus a least-recently-used
/// in-memory cache bounded by `cache_budget` bytes.
pub struct StateStore {
    durable: KvList,
    cache: KvList,
    cache_budget: u64,
    cache_occ: u64,
}

impl StateStore {
    /// The durably committed state of each contract.
    pub closed spec fn states(self) -> Map<Seq<u8>, Seq<u8>> {
        self.durable.view()
    }

    /// The entries currently held in the in-memory cache.
    pub closed spec fn cached(self) -> Map<Seq<u8>, Seq<u8>> {
        self.cache.view()
    }

    /// Bytes currently held by the cache.
    pub closed spec fn cache_occupancy(self) -> int {
        self.cache.occupancy()
    }

    /// The configured cache byte budget.
    pub closed spec fn budget(self) -> int {
        self.cache_budget as int
    }

    /// Well-formedness: the cache stays within its budget and holds only
    /// entries that agree with the durable layer.
    pub closed spec fn wf(self) -> bool {
        &&& self.durable.wf()
        &&& self.cache.wf()
        &&& self.cache_occ as int == self.cache.occupancy()
        &&& self.cache_occ <= self.cache_budget
        &&& forall|k: Seq<u8>|
            #[trigger] self.cached().contains_key(k) ==> self.states().contains_key(k)
                && self.cached()[k] == self.states()[k]
    }

    /// The cache bound and cache consistency, as facts every well-formed
    /// store grants: after any sequence of operations the cache occupancy
    /// never exceeds its budget, and every cached entry agrees with the
    /// authoritative durable entry.
    pub proof fn lemma_wf(self)
        requires
            self.wf(),
        ensures
            0 <= self.cache_occupancy() <= self.budget(),
            forall|k: Seq<u8>|
                #[trigger] self.cached().contains_key(k) ==> self.states().contains_key(k)
                    && self.cached()[k] == self.states()[k],
    {
        crate::kvlist::lemma_kv_occ_nonneg(self.cache.kvs());
    }

    /// An empty store with the given cache byte budget.
    pub fn new(cache_budget: u64) -> (r: StateStore)
        ensures
            r.wf(),
            r.states() == Map::<Seq<u8>, Seq<u8>>::empty(),
            r.cached() == Map::<Seq<u8>, Seq<u8>>::empty(),
            r.budget() == cache_budget as int,
    {
        StateStore { durable: KvList::new(), cache: KvList::new(), cache_budget, cache_occ: 0 }
    }

    /// Bytes currently held by the in-memory cache.
    pub fn cache_occupied_bytes(&self) -> (r: u64)
        requires
            self.wf(),
        ensures
            r as int == self.cache_occupancy(),
    {
        self.cache_occ
    }

    /// The configured cache byte budget.
    pub fn cache_budget_bytes(&self) -> (r: u64)
        ensures
            r as int == self.budget(),
    {
        self.cache_budget
    }

    /// Drops `id` from the cache if present, keeping the occupancy count.
    fn cache_remove(&mut self, id: &ContractId)
        requires
            old(self).cache.wf(),
            old(self).cache_occ as int == old(self).cache.occupancy(),
        ensures
            final(self).cache.wf(),
            final(self).cache_occ as int == final(self).cache.occupancy(),
            final(self).cache_occ <= old(self).cache_occ,
            final(self).cached() == old(self).cached().remove(id@),
            final(self).durable == old(self).durable,
            final(self).cache_budget == old(self).cache_budget,
    {
        let removed = self.cache.remove_key(id.as_bytes());
        match removed {
            Some(v) => {
                proof {
                    crate::kvlist::lemma_kv_occ_nonneg(self.cache.kvs());
                }
                self.cache_occ = self.cache_occ - v.len() as u64;
            },
            None => {
                proof {
                    assert(self.cached() =~= old(self).cached().remove(id@));
                }
            },
        }
    }

    /// Inserts `state` for `id` into the cache, evicting the
    /// least-recently-used entries until it fits; an entry larger than the
    /// whole budget is simply not cached (the durable layer already holds
    /// it, so this skip loses nothing).
    fn cache_insert(&mut self, id: &ContractId, state: &Vec<u8>)
        requires
            old(self).wf(),
            !old(self).cached().contains_key(id@),
            old(self).states().contains_key(id@),
            old(self).states()[id@] == state@,
        ensures
            final(self).wf(),
            final(self).durable == old(self).durable,
            final(self).cache_budget == old(self).cache_budget,
    {
        let len: u64 = state.len() as u64;
        if len > self.cache_budget {
            return;
        }
        while self.cache_occ > self.cache_budget - len
            invariant
                self.cache.wf(),
                self.cache_occ as int == self.cache.occupancy(),
                self.cache_occ <= self.cache_budget,
                self.durable == old(self).durable,
                self.cache_budget == old(self).cache_budget,
                len == state@.len(),
                len <= self.cache_budget,
                !self.cached().contains_key(id@),
                forall|k: Seq<u8>|
                    #[trigger] self.cached().contains_key(k) ==> self.states().contains_key(k)
                        && self.cached()[k] == self.states()[k],
            decreases self.cache.kvs().len(),
        {
            proof {
                if self.cache.kvs().len() == 0 {
                    assert(self.cache.occupancy() == 0);
                }
            }
            let e = self.cache.evict_coldest();
            proof {
                crate::kvlist::lemma_kv_occ_nonneg(self.cache.kvs());
            }
            self.cache_occ = self.cache_occ - e.1.len() as u64;
        }
        let key = clone_bytes(id.as_bytes());
        let value = clone_bytes(state);
        self.cache.push_absent(key, value);
        self.cache_occ = self.cache_occ + len;
    }

    /// Commits `state` as the current state of `id`: the write goes through
    /// to durable storage synchronously, then the cache is refreshed. A
    /// state too large for the cache budget is still a committed success —
    /// the cache is a performance layer, never a consistency requirement.
    pub fn put(&mut self, id: &ContractId, state: &Vec<u8>)
        requires
            old(self).wf(),
        ensures
            final(self).wf(),
            final(self).budget() == old(self).budget(),
            final(self).states() == old(self).states().insert(id@, state@),
    {
        self.cache_remove(id);
        let _ = self.durable.remove_key(id.as_bytes());
        let key = clone_bytes(id.as_bytes());
        let value = clone_bytes(state);
        self.durable.push_absent(key, value);
        proof {
            assert(self.states() =~= old(self).states().insert(id@, state@));
            assert forall|k: Seq<u8>| #[trigger] self.cached().contains_key(k) implies self
                .states().contains_key(k) && self.cached()[k] == self.states()[k] by {
                assert(old(self).cached().contains_key(k));
                assert(k != id@);
            }
        }
        self.cache_insert(id, state);
    }

    /// Reads the current state of `id`: the cache is checked first, and on
    /// a miss the durable layer is read and the entry cached. Fails with
    /// `NotFound` exactly when no state was ever committed for `id`. The
    /// result is the durably committed state, whether or not the entry was
    /// cached.
    pub fn get(&mut self, id: &ContractId) -> (r: Result<Vec<u8>, ContractError>)
        requires
            old(self).wf(),
        ensures
            final(self).wf(),
            final(self).budget() == old(self).budget(),
            final(self).states() == old(self).states(),
            match r {
                Ok(s) => old(self).states().contains_key(id@) && s@ == old(self).states()[id@],
                Err(e) => e == ContractError::NotFound && !old(self).states().contains_key(id@)
                    && *final(self) == *old(self),
            },
    {
        let cached = self.cache.remove_key(id.as_bytes());
        match cached {
            Some(v) => {
                proof {
                    crate::kvlist::lemma_kv_occ_nonneg(self.cache.kvs());
                }
                self.cache_occ = self.cache_occ - v.len() as u64;
                proof {
                    assert(old(self).cached().contains_key(id@));
                    assert(v@ == old(self).states()[id@]);
                    assert forall|k: Seq<u8>| #[trigger] self.cached().contains_key(k) implies self
                        .states().contains_key(k) && self.cached()[k] == self.states()[k] by {
                        assert(old(self).cached().contains_key(k));
                    }
                    assert(self.wf());
                }
                self.cache_insert(id, &v);
                Ok(v)
            },
            None => {
                match self.durable.lookup(id.as_bytes()) {
                    Some(v) => {
                        proof {
                            assert(self.cached() =~= old(self).cached().remove(id@));
                        }
                        self.cache_insert(id, &v);
                        Ok(v)
                    },
                    None => Err(ContractError::NotFound),
                }
            },
        }
    }
}

} // verus!
