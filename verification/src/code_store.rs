//! Content-addressed, capacity-bounded storage for compiled contract
//! modules. Code is keyed by the hash of its own bytes — the identifier is
//! recomputed on every store and never trusted from the caller — and the
//! total stored bytes never exceed the configured capacity: when an insert
//! would overflow, the least-recently-used entries are evicted first, and a
//! module larger than the whole capacity is refused outright.

use vstd::prelude::*;
use crate::ContractError;
use crate::hashing::{hash_of, ContractId};
use crate::kvlist::{clone_bytes, KvList};

verus! {

/// Content addressing is deterministic: identical code bytes derive the
/// same identifier, whenever they are stored. Together with `store`'s
/// contract — a store whose derived identifier is already on record
/// changes nothing — storing identical code twice yields the same
/// identifier both times and does not double-count occupancy.
pub proof fn lemma_same_code_same_id(c1: Seq<u8>, c2: Seq<u8>)
    requires
        c1 == c2,
    ensures
        hash_of(c1) == hash_of(c2),
{
}

/// Durable, content-addressed code store bounded by `max_size` bytes.
pub struct CodeStore {
    list: KvList,
    max_size: u64,
    occ: u64,
}

impl CodeStore {
    /// The stored modules, keyed by their content hash.
    pub closed spec fn codes(self) -> Map<Seq<u8>, Seq<u8>> {
        self.list.view()
    }

    /// Total bytes currently occupied.
    pub closed spec fn occupancy(self) -> int {
        self.list.occupancy()
    }

    /// The configured maximum total size.
    pub closed spec fn capacity(self) -> int {
        self.max_size as int
    }

    /// Stored keys in recency order, coldest first.
    pub closed spec fn recency(self) -> Seq<Seq<u8>> {
        self.list.keys_in_order()
    }

    /// Well-formedness: occupancy within capacity and every entry keyed by
    /// the hash of its own bytes.
    pub closed spec fn wf(self) -> bool {
        &&& self.list.wf()
        &&& self.occ as int == self.list.occupancy()
        &&& self.occ <= self.max_size
        &&& forall|k: Seq<u8>|
            #[trigger] self.codes().contains_key(k) ==> k == hash_of(self.codes()[k]) && k.len()
                == 32
    }

    /// The capacity bound and the content-addressing invariant, as facts
    /// every well-formed store grants: after any sequence of operations the
    /// occupancy never exceeds the configured maximum.
    pub proof fn lemma_wf(self)
        requires
            self.wf(),
        ensures
            0 <= self.occupancy() <= self.capacity(),
            forall|k: Seq<u8>|
                #[trigger] self.codes().contains_key(k) ==> k == hash_of(self.codes()[k])
                    && k.len() == 32,
    {
        crate::kvlist::lemma_kv_occ_nonneg(self.list.kvs());
    }

    /// An empty store with the given byte capacity.
    pub fn new(max_size: u64) -> (r: CodeStore)
        ensures
            r.wf(),
            r.codes() == Map::<Seq<u8>, Seq<u8>>::empty(),
            r.occupancy() == 0,
            r.capacity() == max_size as int,
    {
        CodeStore { list: KvList::new(), max_size, occ: 0 }
    }

    /// Occupied bytes.
    pub fn occupied_bytes(&self) -> (r: u64)
        requires
            self.wf(),
        ensures
            r as int == self.occupancy(),
    {
        self.occ
    }

    /// The configured maximum total size in bytes.
    pub fn capacity_bytes(&self) -> (r: u64)
        ensures
            r as int == self.capacity(),
    {
        self.max_size
    }

    /// Existence check, side-effect-free.
    pub fn contains(&self, id: &ContractId) -> (r: bool)
        requires
            self.wf(),
        ensures
            r <==> self.codes().contains_key(id@),
    {
        self.list.contains(id.as_bytes())
    }

    /// Computes the content hash of `code` and persists the module under
    /// it. Re-storing identical bytes is a no-op success that changes
    /// nothing; a fresh module evicts the least-recently-used entries (a
    /// prefix of the recency order) until it fits, and is refused with
    /// `CapacityExceeded` exactly when it alone exceeds the capacity.
    pub fn store(&mut self, code: &Vec<u8>) -> (r: Result<ContractId, ContractError>)
        requires
            old(self).wf(),
        ensures
            final(self).wf(),
            final(self).capacity() == old(self).capacity(),
            r is Err <==> !old(self).codes().contains_key(hash_of(code@)) && code@.len() > old(
                self,
            ).capacity(),
            match r {
                Ok(cid) => cid.wf() && cid@ == hash_of(code@) && final(self).codes().contains_key(
                    cid@,
                ) && (old(self).codes().contains_key(hash_of(code@)) ==> *final(self) == *old(
                    self,
                )) && (!old(self).codes().contains_key(hash_of(code@))
                    ==> final(self).codes()[cid@] == code@ && code@.len() <= old(self).capacity()
                    && final(self).occupancy() <= old(self).occupancy() + code@.len() && (forall|
                    k: Seq<u8>,
                |
                    #[trigger] final(self).codes().contains_key(k) && k != hash_of(code@) ==> old(
                        self,
                    ).codes().contains_key(k) && final(self).codes()[k] == old(self).codes()[k]) && (
                exists|n: int|
                    0 <= n <= old(self).recency().len() && final(self).recency() == old(
                        self,
                    ).recency().skip(n).push(hash_of(code@)))),
                Err(e) => e == ContractError::CapacityExceeded && *final(self) == *old(self),
            },
    {
        let id = ContractId::from_code(code);
        if self.list.contains(id.as_bytes()) {
            return Ok(id);
        }
        let code_len: u64 = code.len() as u64;
        if code_len > self.max_size {
            return Err(ContractError::CapacityExceeded);
        }
        let ghost pre = *self;
        let ghost mut n: int = 0;
        while self.occ > self.max_size - code_len
            invariant
                self.list.wf(),
                self.occ as int == self.list.occupancy(),
                self.occ <= self.max_size,
                self.occ <= pre.occ,
                self.max_size == pre.max_size,
                code_len == code@.len(),
                code_len <= self.max_size,
                0 <= n <= pre.recency().len(),
                self.recency() == pre.recency().skip(n),
                !self.codes().contains_key(hash_of(code@)),
                forall|k: Seq<u8>|
                    #[trigger] self.codes().contains_key(k) ==> pre.codes().contains_key(k)
                        && self.codes()[k] == pre.codes()[k],
            decreases self.list.kvs().len(),
        {
            proof {
                if self.list.kvs().len() == 0 {
                    assert(self.list.occupancy() == 0);
                }
            }
            let ghost before = *self;
            let e = self.list.evict_coldest();
            proof {
                crate::kvlist::lemma_kv_occ_nonneg(self.list.kvs());
                assert(self.list.kvs() == before.list.kvs().remove(0));
                assert(before.recency().len() > 0);
                assert forall|j: int| 0 <= j < self.recency().len() implies self.recency()[j]
                    == pre.recency().skip(n + 1)[j] by {
                    assert(self.recency()[j] == self.list.kvs()[j].0@);
                    assert(self.list.kvs()[j] == before.list.kvs()[j + 1]);
                    assert(before.recency()[j + 1] == before.list.kvs()[j + 1].0@);
                    assert(before.recency()[j + 1] == pre.recency().skip(n)[j + 1]);
                }
                assert(self.recency().len() == pre.recency().skip(n + 1).len());
                assert(self.recency() =~= pre.recency().skip(n + 1));
                n = n + 1;
            }
            self.occ = self.occ - e.1.len() as u64;
        }
        let ghost evicted = *self;
        let key = clone_bytes(id.as_bytes());
        let value = clone_bytes(code);
        self.list.push_absent(key, value);
        self.occ = self.occ + code_len;
        proof {
            assert(self.list.kvs() == evicted.list.kvs().push((key, value)));
            assert forall|j: int| 0 <= j < self.recency().len() implies self.recency()[j]
                == pre.recency().skip(n).push(hash_of(code@))[j] by {
                assert(self.recency()[j] == self.list.kvs()[j].0@);
                if j < self.recency().len() - 1 {
                    assert(self.list.kvs()[j] == evicted.list.kvs()[j]);
                    assert(evicted.recency()[j] == evicted.list.kvs()[j].0@);
                    assert(evicted.recency()[j] == pre.recency().skip(n)[j]);
                } else {
                    assert(self.list.kvs()[j].0@ == key@);
                }
            }
            assert(self.recency().len() == pre.recency().skip(n).push(hash_of(code@)).len());
            assert(self.recency() =~= pre.recency().skip(n).push(hash_of(code@)));
            assert(self.codes() == evicted.codes().insert(id@, code@));
            assert(self.codes().contains_key(id@));
            assert(forall|k: Seq<u8>|
                #[trigger] self.codes().contains_key(k) && k != hash_of(code@)
                    ==> pre.codes().contains_key(k) && self.codes()[k] == pre.codes()[k]);
            assert(self.wf());
        }
        Ok(id)
    }

    /// Reads the module stored under `id`, refreshing its recency. Fails
    /// with `NotFound` exactly when no code is stored under `id`; the
    /// stored contents and the occupancy are unchanged either way.
    pub fn load(&mut self, id: &ContractId) -> (r: Result<Vec<u8>, ContractError>)
        requires
            old(self).wf(),
        ensures
            final(self).wf(),
            final(self).capacity() == old(self).capacity(),
            final(self).codes() == old(self).codes(),
            final(self).occupancy() == old(self).occupancy(),
            match r {
                Ok(c) => old(self).codes().contains_key(id@) && c@ == old(self).codes()[id@],
                Err(e) => e == ContractError::NotFound && !old(self).codes().contains_key(id@)
                    && *final(self) == *old(self),
            },
    {
        match self.list.remove_key(id.as_bytes()) {
            Some(v) => {
                let key = clone_bytes(id.as_bytes());
                let value = clone_bytes(&v);
                self.list.push_absent(key, value);
                proof {
                    assert(final(self).codes() =~= old(self).codes());
                }
                Ok(v)
            },
            None => Err(ContractError::NotFound),
        }
    }
}

} // verus!
