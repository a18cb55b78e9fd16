//! Association list from byte-string keys to byte-string values, the shared
//! backing structure of the code store, the state store and its cache.
//!
//! Entries are kept in recency order: index 0 holds the coldest (least
//! recently used) entry, the last index the hottest. The list is viewed in
//! specifications as a `Map<Seq<u8>, Seq<u8>>` together with the key order
//! and the total number of value bytes (the occupancy).

use vstd::prelude::*;

verus! {

/// Map denoted by a sequence of key/value entries (later entries win,
/// though entries are kept with distinct keys).
pub open spec fn kv_map(s: Seq<(Vec<u8>, Vec<u8>)>) -> Map<Seq<u8>, Seq<u8>>
    decreases s.len(),
{
    if s.len() == 0 {
        Map::empty()
    } else {
        kv_map(s.drop_last()).insert(s.last().0@, s.last().1@)
    }
}

/// Total number of value bytes held by the entries.
pub open spec fn kv_occ(s: Seq<(Vec<u8>, Vec<u8>)>) -> int
    decreases s.len(),
{
    if s.len() == 0 {
        0
    } else {
        kv_occ(s.drop_last()) + s.last().1@.len()
    }
}

/// All keys distinct.
pub open spec fn kv_distinct(s: Seq<(Vec<u8>, Vec<u8>)>) -> bool {
    forall|i: int, j: int| 0 <= i < j < s.len() ==> s[i].0@ != s[j].0@
}

pub proof fn lemma_kv_occ_nonneg(s: Seq<(Vec<u8>, Vec<u8>)>)
    ensures
        kv_occ(s) >= 0,
    decreases s.len(),
{
    if s.len() > 0 {
        lemma_kv_occ_nonneg(s.drop_last());
    }
}

/// Each entry of a distinct-keyed list is denoted by the map.
pub proof fn lemma_kv_map_index(s: Seq<(Vec<u8>, Vec<u8>)>, i: int)
    requires
        kv_distinct(s),
        0 <= i < s.len(),
    ensures
        kv_map(s).contains_key(s[i].0@),
        kv_map(s)[s[i].0@] == s[i].1@,
    decreases s.len(),
{
    if i < s.len() - 1 {
        assert(kv_distinct(s.drop_last()));
        lemma_kv_map_index(s.drop_last(), i);
        assert(s[i].0@ != s.last().0@);
    }
}

/// A key the map contains is held by some entry.
pub proof fn lemma_kv_map_contains(s: Seq<(Vec<u8>, Vec<u8>)>, k: Seq<u8>)
    requires
        kv_map(s).contains_key(k),
    ensures
        exists|i: int| 0 <= i < s.len() && s[i].0@ == k,
    decreases s.len(),
{
    if s.len() > 0 && s.last().0@ != k {
        lemma_kv_map_contains(s.drop_last(), k);
        let j = choose|j: int| 0 <= j < s.drop_last().len() && s.drop_last()[j].0@ == k;
        assert(s[j].0@ == k);
    }
}

/// Removing the entry at `i` removes exactly its key from the map and its
/// value bytes from the occupancy.
pub proof fn lemma_kv_remove(s: Seq<(Vec<u8>, Vec<u8>)>, i: int)
    requires
        kv_distinct(s),
        0 <= i < s.len(),
    ensures
        kv_distinct(s.remove(i)),
        kv_map(s.remove(i)) == kv_map(s).remove(s[i].0@),
        kv_occ(s.remove(i)) == kv_occ(s) - s[i].1@.len(),
    decreases s.len(),
{
    assert(kv_distinct(s.remove(i)));
    if i == s.len() - 1 {
        assert(s.remove(i) =~= s.drop_last());
        if kv_map(s.drop_last()).contains_key(s[i].0@) {
            lemma_kv_map_contains(s.drop_last(), s[i].0@);
            let j = choose|j: int|
                0 <= j < s.drop_last().len() && s.drop_last()[j].0@ == s[i].0@;
            assert(s[j].0@ == s[i].0@);
            assert(false);
        }
        assert(kv_map(s.remove(i)) =~= kv_map(s).remove(s[i].0@));
    } else {
        let dl = s.drop_last();
        assert(kv_distinct(dl));
        lemma_kv_remove(dl, i);
        assert(s.remove(i).drop_last() =~= dl.remove(i));
        assert(s.remove(i).last() == s.last());
        assert(s.remove(i).len() > 0);
        assert(kv_map(s.remove(i)) == kv_map(dl.remove(i)).insert(s.last().0@, s.last().1@));
        assert(s[i].0@ != s.last().0@);
        assert(kv_map(dl).remove(s[i].0@).insert(s.last().0@, s.last().1@) =~= kv_map(
            dl,
        ).insert(s.last().0@, s.last().1@).remove(s[i].0@));
        assert(kv_occ(s.remove(i)) == kv_occ(dl.remove(i)) + s.last().1@.len());
    }
}

/// Byte-for-byte equality of two byte vectors.
pub fn bytes_eq(a: &Vec<u8>, b: &Vec<u8>) -> (r: bool)
    ensures
        r <==> a@ == b@,
{
    if a.len() != b.len() {
        return false;
    }
    let mut i: usize = 0;
    while i < a.len()
        invariant
            i <= a.len(),
            a.len() == b.len(),
            forall|j: int| 0 <= j < i ==> a@[j] == b@[j],
        decreases a.len() - i,
    {
        if a[i] != b[i] {
            return false;
        }
        i += 1;
    }
    proof {
        assert(a@ =~= b@);
    }
    true
}

/// Copy of a byte vector.
pub fn clone_bytes(v: &Vec<u8>) -> (r: Vec<u8>)
    ensures
        r@ == v@,
{
    let mut r: Vec<u8> = Vec::new();
    let mut i: usize = 0;
    while i < v.len()
        invariant
            i <= v.len(),
            r@ =~= v@.take(i as int),
        decreases v.len() - i,
    {
        r.push(v[i]);
        i += 1;
    }
    proof {
        assert(r@ =~= v@);
    }
    r
}

/// Recency-ordered association list with distinct byte-string keys.
pub struct KvList {
    entries: Vec<(Vec<u8>, Vec<u8>)>,
}

impl KvList {
    /// The entries as a sequence, coldest first.
    pub closed spec fn kvs(self) -> Seq<(Vec<u8>, Vec<u8>)> {
        self.entries@
    }

    /// The denoted key/value map.
    pub open spec fn view(self) -> Map<Seq<u8>, Seq<u8>> {
        kv_map(self.kvs())
    }

    /// Keys in recency order, coldest first.
    pub open spec fn keys_in_order(self) -> Seq<Seq<u8>> {
        self.kvs().map_values(|e: (Vec<u8>, Vec<u8>)| e.0@)
    }

    /// Total number of value bytes held.
    pub open spec fn occupancy(self) -> int {
        kv_occ(self.kvs())
    }

    pub open spec fn wf(self) -> bool {
        kv_distinct(self.kvs())
    }

    pub fn new() -> (r: KvList)
        ensures
            r.wf(),
            r.view() == Map::<Seq<u8>, Seq<u8>>::empty(),
            r.occupancy() == 0,
            r.kvs().len() == 0,
    {
        KvList { entries: Vec::new() }
    }

    /// Index of the entry holding `k`, if any.
    fn find(&self, k: &Vec<u8>) -> (r: Option<usize>)
        ensures
            match r {
                Some(i) => i < self.kvs().len() && self.kvs()[i as int].0@ == k@,
                None => forall|i: int| 0 <= i < self.kvs().len() ==> self.kvs()[i].0@ != k@,
            },
    {
        let mut i: usize = 0;
        while i < self.entries.len()
            invariant
                i <= self.kvs().len(),
                forall|j: int| 0 <= j < i ==> self.kvs()[j].0@ != k@,
            decreases self.kvs().len() - i,
        {
            if bytes_eq(&self.entries[i].0, k) {
                return Some(i);
            }
            i += 1;
        }
        None
    }

    pub fn contains(&self, k: &Vec<u8>) -> (r: bool)
        requires
            self.wf(),
        ensures
            r <==> self.view().contains_key(k@),
    {
        let r = self.find(k);
        proof {
            match r {
                Some(i) => lemma_kv_map_index(self.kvs(), i as int),
                None => {
                    if self.view().contains_key(k@) {
                        lemma_kv_map_contains(self.kvs(), k@);
                    }
                },
            }
        }
        r.is_some()
    }

    /// Value bound to `k`, copied out, without a recency update.
    pub fn lookup(&self, k: &Vec<u8>) -> (r: Option<Vec<u8>>)
        requires
            self.wf(),
        ensures
            match r {
                Some(v) => self.view().contains_key(k@) && v@ == self.view()[k@],
                None => !self.view().contains_key(k@),
            },
    {
        match self.find(k) {
            Some(i) => {
                proof {
                    lemma_kv_map_index(self.kvs(), i as int);
                }
                Some(clone_bytes(&self.entries[i].1))
            },
            None => {
                proof {
                    if self.view().contains_key(k@) {
                        lemma_kv_map_contains(self.kvs(), k@);
                    }
                }
                None
            },
        }
    }

    /// Detaches the entry holding `k` and hands its value back.
    pub fn remove_key(&mut self, k: &Vec<u8>) -> (r: Option<Vec<u8>>)
        requires
            old(self).wf(),
        ensures
            final(self).wf(),
            final(self).view() == old(self).view().remove(k@),
            match r {
                Some(v) => old(self).view().contains_key(k@) && v@ == old(self).view()[k@]
                    && final(self).occupancy() == old(self).occupancy() - v@.len()
                    && (exists|i: int|
                        0 <= i < old(self).kvs().len() && old(self).kvs()[i].0@ == k@
                            && final(self).kvs() == old(self).kvs().remove(i)),
                None => !old(self).view().contains_key(k@) && *final(self) == *old(self),
            },
    {
        match self.find(k) {
            Some(i) => {
                proof {
                    lemma_kv_map_index(self.kvs(), i as int);
                    lemma_kv_remove(self.kvs(), i as int);
                }
                let e = self.entries.remove(i);
                Some(e.1)
            },
            None => {
                proof {
                    if self.view().contains_key(k@) {
                        lemma_kv_map_contains(self.kvs(), k@);
                    }
                }
                None
            },
        }
    }

    /// Appends an entry for a key not yet present, as the hottest.
    pub fn push_absent(&mut self, k: Vec<u8>, v: Vec<u8>)
        requires
            old(self).wf(),
            !old(self).view().contains_key(k@),
        ensures
            final(self).wf(),
            final(self).view() == old(self).view().insert(k@, v@),
            final(self).kvs() == old(self).kvs().push((k, v)),
            final(self).occupancy() == old(self).occupancy() + v@.len(),
    {
        proof {
            let s = self.kvs().push((k, v));
            assert(s.drop_last() =~= self.kvs());
            if !kv_distinct(s) {
                let (i, j) = choose|i: int, j: int|
                    0 <= i < j < s.len() && s[i].0@ == s[j].0@;
                assert(j == s.len() - 1);
                lemma_kv_map_index(self.kvs(), i);
                assert(false);
            }
        }
        self.entries.push((k, v));
    }

    /// Removes and returns the coldest entry.
    pub fn evict_coldest(&mut self) -> (r: (Vec<u8>, Vec<u8>))
        requires
            old(self).wf(),
            old(self).kvs().len() > 0,
        ensures
            final(self).wf(),
            r == old(self).kvs()[0],
            final(self).kvs() == old(self).kvs().remove(0),
            final(self).view() == old(self).view().remove(r.0@),
            final(self).occupancy() == old(self).occupancy() - r.1@.len(),
            old(self).view().contains_key(r.0@) && old(self).view()[r.0@] == r.1@,
    {
        proof {
            lemma_kv_map_index(self.kvs(), 0);
            lemma_kv_remove(self.kvs(), 0);
        }
        self.entries.remove(0)
    }
}

} // verus!
