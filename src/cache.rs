use vstd::prelude::*;

use lru_cache::LruCache;

use crate::attributes::{DatasetAttributes, ElementType};
use crate::block::{copy_opt_block, opt_block_view, BlockView, DecodedBlock};
use crate::error::N5Error;
use crate::lru::{
    distinct, has_key, inserted, key_index, lemma_reads_eviction_bound, lemma_repeated_reads, read_value, reads_all, keys_unique, lemma_inserted, lemma_key_index, lemma_touched, lemma_touched_entries, lookup,
    lru_ok, touched, touched_origin,
};

verus! {

/// Declares lru_cache's cache type.
#[verifier::external_type_specification]
#[verifier::external_body]
#[verifier::reject_recursive_types(K)]
#[verifier::reject_recursive_types(V)]
#[verifier::reject_recursive_types(S)]
pub struct ExLruCache<K: Eq + std::hash::Hash, V, S: std::hash::BuildHasher>(LruCache<K, V, S>);

/// The entries of an LRU cache of grid positions, least recently used first.
pub uninterp spec fn lru_entries(c: LruCache<Vec<u64>, usize>) -> Seq<(Seq<u64>, usize)>;

/// The number of entries an LRU cache was made to hold.
pub uninterp spec fn lru_capacity(c: LruCache<Vec<u64>, usize>) -> nat;

/// Relies on `LruCache::new`: an empty cache that holds at most `capacity`
/// entries.
#[verifier::external_body]
fn lru_new(capacity: usize) -> (r: LruCache<Vec<u64>, usize>)
    ensures
        lru_entries(r) == Seq::<(Seq<u64>, usize)>::empty(),
        lru_capacity(r) == capacity,
{
    LruCache::new(capacity)
}

/// Relies on `LruCache::len`: the number of entries.
#[verifier::external_body]
fn lru_len(c: &LruCache<Vec<u64>, usize>) -> (r: usize)
    ensures
        r == lru_entries(*c).len(),
{
    c.len()
}

/// Relies on `LruCache::get_mut`: the value under a key, whose entry becomes
/// the most recently used one.
#[verifier::external_body]
fn lru_get(c: &mut LruCache<Vec<u64>, usize>, k: &Vec<u64>) -> (r: Option<usize>)
    requires
        keys_unique(lru_entries(*old(c))),
    ensures
        r == lookup(lru_entries(*old(c)), k@),
        lru_entries(*final(c)) == touched(lru_entries(*old(c)), k@),
        lru_capacity(*final(c)) == lru_capacity(*old(c)),
{
    c.get_mut(k).map(|v| *v)
}

/// Relies on `LruCache::insert`: the entry becomes the most recently used
/// one, replacing an entry of the same key; past the capacity the least
/// recently used entry leaves. The replaced value is returned.
#[verifier::external_body]
fn lru_insert(c: &mut LruCache<Vec<u64>, usize>, k: Vec<u64>, v: usize) -> (r: Option<usize>)
    requires
        keys_unique(lru_entries(*old(c))),
    ensures
        r == lookup(lru_entries(*old(c)), k@),
        lru_entries(*final(c)) == inserted(lru_entries(*old(c)), k@, v, lru_capacity(*old(c))),
        lru_capacity(*final(c)) == lru_capacity(*old(c)),
{
    c.insert(k, v)
}

/// Relies on `LruCache::remove_lru`: the least recently used entry leaves
/// and is returned.
#[verifier::external_body]
fn lru_remove_lru(c: &mut LruCache<Vec<u64>, usize>) -> (r: Option<(Vec<u64>, usize)>)
    ensures
        lru_entries(*old(c)).len() == 0 ==> r is None && lru_entries(*final(c)) == lru_entries(*old(c)),
        lru_entries(*old(c)).len() > 0 ==> (r matches Some((k, v)) && (k@, v) == lru_entries(*old(c))[0]
            && lru_entries(*final(c)) == lru_entries(*old(c)).drop_first()),
        lru_capacity(*final(c)) == lru_capacity(*old(c)),
{
    c.remove_lru()
}

/// What the cache makes of a block read.
pub enum CacheLookup {
    /// The read is for another dataset: the inner reader serves it and
    /// nothing is stored.
    Bypass,
    /// The block is resident; a copy of the stored result.
    Hit(Option<DecodedBlock>),
    /// The block is not resident: the inner reader serves it, and its
    /// result goes to `finish_read_block`.
    Miss,
}

/// A bounded least-recently-used cache of decoded blocks of one dataset in
/// front of an inner reader.
///
/// A block read goes in two steps. `begin_read_block` answers from the
/// cache where it can; otherwise the caller reads through the inner reader
/// and hands the outcome to `finish_read_block`, which stores a successful
/// result (including the absence of a block) before passing it on.
pub struct N5AsyncCacheReader<N> {
    reader: N,
    dataset: String,
    data_type: ElementType,
    capacity: usize,
    blocks: LruCache<Vec<u64>, usize>,
    slots: Vec<Option<DecodedBlock>>,
}

impl<N> N5AsyncCacheReader<N> {
    /// The resident blocks by grid position, least recently used first.
    pub closed spec fn resident(&self) -> Seq<(Seq<u64>, Option<BlockView>)> {
        let e = lru_entries(self.blocks);
        Seq::new(e.len(), |i: int| (e[i].0, opt_block_view(self.slots[e[i].1 as int])))
    }

    /// The inner reader.
    pub closed spec fn reader_spec(&self) -> N {
        self.reader
    }

    /// The dataset whose blocks are cached.
    pub closed spec fn dataset_spec(&self) -> Seq<char> {
        self.dataset@
    }

    /// The element type of the cached dataset.
    pub closed spec fn data_type_spec(&self) -> ElementType {
        self.data_type
    }

    /// The most entries the cache holds.
    pub closed spec fn capacity_spec(&self) -> nat {
        self.capacity as nat
    }

    /// The cache's internal consistency: every entry names its own slot.
    pub closed spec fn wf(&self) -> bool {
        let e = lru_entries(self.blocks);
        &&& lru_capacity(self.blocks) == self.capacity
        &&& lru_ok(e, self.capacity as nat)
        &&& self.slots.len() == e.len()
        &&& forall|i: int| 0 <= i < e.len() ==> #[trigger] e[i].1 < self.slots.len()
        &&& forall|i: int, j: int| 0 <= i < e.len() && 0 <= j < e.len() && #[trigger] e[i].1 == #[trigger] e[j].1 ==> i == j
    }

    /// A cache in front of `reader` for the blocks of `dataset`, whose
    /// elements are of type `data_type`, holding at most `blocks_capacity`
    /// blocks.
    pub fn wrap(reader: N, dataset: String, data_type: ElementType, blocks_capacity: usize) -> (r: Self)
        ensures
            r.wf(),
            r.resident() == Seq::<(Seq<u64>, Option<BlockView>)>::empty(),
            r.reader_spec() == reader,
            r.dataset_spec() == dataset@,
            r.data_type_spec() == data_type,
            r.capacity_spec() == blocks_capacity,
    {
        let r = N5AsyncCacheReader {
            reader,
            dataset,
            data_type,
            capacity: blocks_capacity,
            blocks: lru_new(blocks_capacity),
            slots: Vec::new(),
        };
        assert(r.resident() =~= Seq::<(Seq<u64>, Option<BlockView>)>::empty());
        r
    }

    /// The inner reader.
    pub fn reader(&self) -> (r: &N)
        ensures
            *r == self.reader_spec(),
    {
        &self.reader
    }

    /// The dataset whose blocks are cached.
    pub fn dataset(&self) -> (r: &str)
        ensures
            r@ == self.dataset_spec(),
    {
        self.dataset.as_str()
    }

    /// The element type of the cached dataset.
    pub fn data_type(&self) -> (r: ElementType)
        ensures
            r == self.data_type_spec(),
    {
        self.data_type
    }

    /// The most blocks the cache holds.
    pub fn capacity(&self) -> (r: usize)
        ensures
            r == self.capacity_spec(),
    {
        self.capacity
    }

    /// The number of resident blocks.
    pub fn len(&self) -> (r: usize)
        requires
            self.wf(),
        ensures
            r == self.resident().len(),
    {
        lru_len(&self.blocks)
    }

    /// The first step of a block read: the stored result where the block
    /// of the cached dataset is resident, which then becomes the most
    /// recently used entry.
    ///
    /// A read of the cached dataset must give its element type.
    pub fn begin_read_block(&mut self, path_name: &str, data_attrs: &DatasetAttributes, grid_position: &Vec<u64>) -> (r: CacheLookup)
        requires
            old(self).wf(),
            path_name@ == old(self).dataset_spec() ==> data_attrs@.data_type == old(self).data_type_spec(),
        ensures
            final(self).wf(),
            final(self).reader_spec() == old(self).reader_spec(),
            final(self).dataset_spec() == old(self).dataset_spec(),
            final(self).data_type_spec() == old(self).data_type_spec(),
            final(self).capacity_spec() == old(self).capacity_spec(),
            path_name@ != old(self).dataset_spec() ==> r is Bypass && final(self).resident() == old(self).resident(),
            path_name@ == old(self).dataset_spec() ==> match lookup(old(self).resident(), grid_position@) {
                Some(v) => (r matches CacheLookup::Hit(b) && opt_block_view(b) == v)
                    && final(self).resident() == touched(old(self).resident(), grid_position@),
                None => r is Miss && final(self).resident() == old(self).resident(),
            },
    {
        if !self.is_dataset(path_name) {
            return CacheLookup::Bypass;
        }
        let ghost e = lru_entries(self.blocks);
        let ghost res = self.resident();
        proof {
            self.lemma_resident_keys();
        }
        match lru_get(&mut self.blocks, grid_position) {
            Some(s) => {
                proof {
                    let i = key_index(e, grid_position@);
                    lemma_key_index(e, grid_position@, i);
                    lemma_key_index(res, grid_position@, i);
                    lemma_touched(e, grid_position@, self.capacity as nat);
                    let t = touched(e, grid_position@);
                    assert(lru_entries(self.blocks) == t);
                    lemma_touched_entries(e, grid_position@);
                    assert forall|a: int, b: int| 0 <= a < t.len() && 0 <= b < t.len() && #[trigger] t[a].1 == #[trigger] t[b].1 implies a == b by {
                        assert(t[a] == e[touched_origin(e, grid_position@, a)]);
                        assert(t[b] == e[touched_origin(e, grid_position@, b)]);
                    }
                    assert forall|a: int| 0 <= a < t.len() implies #[trigger] t[a].1 < self.slots.len() by {
                        assert(t[a] == e[touched_origin(e, grid_position@, a)]);
                    }
                    assert(self.resident() =~= touched(res, grid_position@));
                }
                CacheLookup::Hit(copy_opt_block(&self.slots[s]))
            },
            None => {
                proof {
                    assert(self.resident() =~= res);
                }
                CacheLookup::Miss
            },
        }
    }

    /// The resident blocks of a consistent cache have distinct positions and
    /// fit its capacity, so the laws of `crate::lru` apply to them.
    pub proof fn lemma_resident_ok(&self)
        requires
            self.wf(),
        ensures
            lru_ok(self.resident(), self.capacity_spec()),
    {
        self.lemma_resident_keys();
    }

    /// Reading one block position of the cached dataset `n` times: every
    /// `begin_read_block` after the first finds it resident (a `Hit`, so the
    /// inner reader is not asked again), and every read returns what the
    /// first returned. A read is `begin_read_block`, and on a `Miss` the
    /// inner result handed to `finish_read_block`; `vals[i]` is what the
    /// inner reader would give the `i`-th read.
    pub proof fn lemma_reads_exact(&self, k: Seq<u64>, vals: Seq<Option<BlockView>>, n: nat)
        requires
            self.wf(),
            self.capacity_spec() > 0,
            1 <= n <= vals.len(),
        ensures
            has_key(reads_all(self.resident(), Seq::new(n, |j: int| k), vals.subrange(0, n as int), self.capacity_spec()), k),
            lookup(reads_all(self.resident(), Seq::new(n, |j: int| k), vals.subrange(0, n as int), self.capacity_spec()), k)
                == Some(read_value(self.resident(), k, vals[0])),
    {
        self.lemma_resident_keys();
        lemma_repeated_reads(self.resident(), k, vals, self.capacity_spec(), n);
    }

    /// A block found absent is cached as absent: after a read of a position
    /// that was not resident and that the inner reader reports missing,
    /// every later read of it is a `Hit` with `None`.
    pub proof fn lemma_sparse_reads_cached(&self, k: Seq<u64>, vals: Seq<Option<BlockView>>, n: nat)
        requires
            self.wf(),
            self.capacity_spec() > 0,
            1 <= n <= vals.len(),
            !has_key(self.resident(), k),
            vals[0] is None,
        ensures
            has_key(reads_all(self.resident(), Seq::new(n, |j: int| k), vals.subrange(0, n as int), self.capacity_spec()), k),
            lookup(reads_all(self.resident(), Seq::new(n, |j: int| k), vals.subrange(0, n as int), self.capacity_spec()), k)
                == Some(None::<BlockView>),
    {
        self.lemma_reads_exact(k, vals, n);
    }

    /// Reading M pairwise distinct block positions of the cached dataset
    /// with room for N < M blocks leaves exactly N resident: those of the N
    /// positions read last, least recently read first.
    pub proof fn lemma_reads_evict(&self, keys: Seq<Seq<u64>>, vals: Seq<Option<BlockView>>)
        requires
            self.wf(),
            self.capacity_spec() > 0,
            keys.len() == vals.len(),
            keys.len() > self.capacity_spec(),
            distinct(keys),
        ensures
            reads_all(self.resident(), keys, vals, self.capacity_spec()).len() == self.capacity_spec(),
            forall|i: int| 0 <= i < self.capacity_spec() ==> #[trigger] reads_all(self.resident(), keys, vals, self.capacity_spec())[i].0
                == keys[keys.len() - self.capacity_spec() + i],
    {
        self.lemma_resident_keys();
        lemma_reads_eviction_bound(self.resident(), keys, vals, self.capacity_spec());
    }

    /// Whether `path_name` is the cached dataset.
    fn is_dataset(&self, path_name: &str) -> (r: bool)
        ensures
            r == (path_name@ == self.dataset@),
    {
        let p = String::from_str(path_name);
        p == self.dataset
    }

    proof fn lemma_resident_keys(&self)
        requires
            self.wf(),
        ensures
            keys_unique(self.resident()),
            self.resident().len() == lru_entries(self.blocks).len(),
            forall|k: Seq<u64>| has_key(self.resident(), k) <==> has_key(lru_entries(self.blocks), k),
    {
        let e = lru_entries(self.blocks);
        let res = self.resident();
        assert forall|k: Seq<u64>| has_key(res, k) <==> has_key(e, k) by {
            if has_key(res, k) {
                let i = choose|i: int| 0 <= i < res.len() && res[i].0 == k;
                assert(e[i].0 == k);
            }
            if has_key(e, k) {
                let i = choose|i: int| 0 <= i < e.len() && e[i].0 == k;
                assert(res[i].0 == k);
            }
        }
    }

    /// The second step of a block read that missed: a successful result of
    /// the inner reader is stored as the most recently used entry, evicting
    /// the least recently used one when the cache is full; an error is not
    /// stored. The result is passed on unchanged.
    pub fn finish_read_block(
        &mut self,
        path_name: &str,
        grid_position: Vec<u64>,
        fetched: Result<Option<DecodedBlock>, N5Error>,
    ) -> (r: Result<Option<DecodedBlock>, N5Error>)
        requires
            old(self).wf(),
        ensures
            r == fetched,
            final(self).wf(),
            final(self).reader_spec() == old(self).reader_spec(),
            final(self).dataset_spec() == old(self).dataset_spec(),
            final(self).data_type_spec() == old(self).data_type_spec(),
            final(self).capacity_spec() == old(self).capacity_spec(),
            match fetched {
                Ok(b) => if path_name@ == old(self).dataset_spec() {
                    final(self).resident() == inserted(old(self).resident(), grid_position@, opt_block_view(b), old(self).capacity_spec())
                } else {
                    final(self).resident() == old(self).resident()
                },
                Err(_) => final(self).resident() == old(self).resident(),
            },
    {
        if !self.is_dataset(path_name) {
            return fetched;
        }
        match &fetched {
            Err(_) => {},
            Ok(b) => {
                self.store(grid_position, copy_opt_block(b));
            },
        }
        fetched
    }

    /// Stores `b` under `k` as the most recently used entry.
    fn store(&mut self, k: Vec<u64>, b: Option<DecodedBlock>)
        requires
            old(self).wf(),
        ensures
            final(self).wf(),
            final(self).reader == old(self).reader,
            final(self).dataset == old(self).dataset,
            final(self).data_type == old(self).data_type,
            final(self).capacity == old(self).capacity,
            final(self).resident() == inserted(old(self).resident(), k@, opt_block_view(b), old(self).capacity as nat),
    {
        let ghost e = lru_entries(self.blocks);
        let ghost res = self.resident();
        let ghost v = opt_block_view(b);
        let ghost cap = self.capacity as nat;
        proof {
            self.lemma_resident_keys();
        }
        if self.capacity == 0 {
            proof {
                assert(res.len() == 0);
                assert(inserted(res, k@, v, cap) =~= res);
            }
            return;
        }
        match lru_get(&mut self.blocks, &k) {
            Some(s) => {
                let ghost i = key_index(e, k@);
                proof {
                    lemma_key_index(e, k@, i);
                    lemma_touched(e, k@, cap);
                }
                let ghost t = lru_entries(self.blocks);
                let ghost old_slots = self.slots@;
                self.slots.set(s, b);
                proof {
                    lemma_touched_entries(e, k@);
                    assert forall|a: int, c: int| 0 <= a < t.len() && 0 <= c < t.len() && #[trigger] t[a].1 == #[trigger] t[c].1 implies a == c by {
                        assert(t[a] == e[touched_origin(e, k@, a)]);
                        assert(t[c] == e[touched_origin(e, k@, c)]);
                    }
                    assert forall|a: int| 0 <= a < t.len() implies #[trigger] t[a].1 < self.slots.len() by {
                        assert(t[a] == e[touched_origin(e, k@, a)]);
                    }
                    lemma_key_index(res, k@, i);
                    let expect = res.remove(i).push((k@, v));
                    assert(inserted(res, k@, v, cap) == expect);
                    assert forall|a: int| 0 <= a < t.len() implies #[trigger] self.resident()[a] == expect[a] by {
                        let oa = touched_origin(e, k@, a);
                        assert(t[a] == e[oa]);
                        if a < t.len() - 1 {
                            assert(e[oa].1 != e[i].1);
                            assert(self.slots@[t[a].1 as int] == old_slots[e[oa].1 as int]);
                        }
                    }
                    assert(self.resident() =~= expect);
                }
            },
            None => {
                proof {
                    assert(!has_key(e, k@));
                    assert(!has_key(res, k@));
                }
                let n = lru_len(&self.blocks);
                let ghost old_slots = self.slots@;
                if n < self.capacity {
                    let s = self.slots.len();
                    self.slots.push(b);
                    lru_insert(&mut self.blocks, k, s);
                    proof {
                        let t = lru_entries(self.blocks);
                        lemma_inserted(e, k@, s, cap);
                        assert(t == e.push((k@, s)));
                        assert forall|a: int| 0 <= a < t.len() implies #[trigger] t[a].1 < self.slots.len() by {
                            if a < e.len() {
                                assert(t[a] == e[a]);
                            }
                        }
                        assert forall|a: int, c: int| 0 <= a < t.len() && 0 <= c < t.len() && #[trigger] t[a].1 == #[trigger] t[c].1 implies a == c by {
                            if a < e.len() {
                                assert(t[a] == e[a]);
                            }
                            if c < e.len() {
                                assert(t[c] == e[c]);
                            }
                        }
                        let expect = res.push((k@, v));
                        assert(inserted(res, k@, v, cap) == expect);
                        assert forall|a: int| 0 <= a < t.len() implies #[trigger] self.resident()[a] == expect[a] by {
                            if a < e.len() {
                                assert(t[a] == e[a]);
                                assert(self.slots@[e[a].1 as int] == old_slots[e[a].1 as int]);
                            }
                        }
                        assert(self.resident() =~= expect);
                    }
                } else {
                    match lru_remove_lru(&mut self.blocks) {
                        Some((_evicted, s)) => {
                            let ghost d = lru_entries(self.blocks);
                            proof {
                                assert(d == e.drop_first());
                                assert(s == e[0].1);
                                assert(keys_unique(d)) by {
                                    assert forall|a: int, c: int| 0 <= a < d.len() && 0 <= c < d.len() && d[a].0 == d[c].0 implies a == c by {
                                        assert(d[a] == e[a + 1]);
                                        assert(d[c] == e[c + 1]);
                                    }
                                }
                                assert(!has_key(d, k@)) by {
                                    if has_key(d, k@) {
                                        let a = choose|a: int| 0 <= a < d.len() && d[a].0 == k@;
                                        assert(d[a] == e[a + 1]);
                                    }
                                }
                            }
                            self.slots.set(s, b);
                            lru_insert(&mut self.blocks, k, s);
                            proof {
                                let t = lru_entries(self.blocks);
                                lemma_inserted(d, k@, s, cap);
                                assert(t == d.push((k@, s)));
                                assert forall|a: int| 0 <= a < t.len() implies #[trigger] t[a].1 < self.slots.len() by {
                                    if a < d.len() {
                                        assert(t[a] == e[a + 1]);
                                    }
                                }
                                assert forall|a: int, c: int| 0 <= a < t.len() && 0 <= c < t.len() && #[trigger] t[a].1 == #[trigger] t[c].1 implies a == c by {
                                    if a < d.len() {
                                        assert(t[a] == e[a + 1]);
                                    }
                                    if c < d.len() {
                                        assert(t[c] == e[c + 1]);
                                    }
                                }
                                let expect = res.drop_first().push((k@, v));
                                assert(inserted(res, k@, v, cap) =~= expect);
                                assert forall|a: int| 0 <= a < t.len() implies #[trigger] self.resident()[a] == expect[a] by {
                                    if a < d.len() {
                                        assert(t[a] == e[a + 1]);
                                        assert(e[a + 1].1 != e[0].1);
                                        assert(self.slots@[e[a + 1].1 as int] == old_slots[e[a + 1].1 as int]);
                                    }
                                }
                                assert(self.resident() =~= expect);
                            }
                        },
                        None => {},
                    }
                }
            },
        }
    }
}

} // verus!
