use vstd::prelude::*;

verus! {

// An LRU cache's contents as a sequence of (key, value) pairs, least
// recently used first.

/// Whether some entry has key `k`.
pub open spec fn has_key<K, V>(e: Seq<(K, V)>, k: K) -> bool {
    exists|i: int| 0 <= i < e.len() && e[i].0 == k
}

/// The position of the entry with key `k`, where there is one.
pub open spec fn key_index<K, V>(e: Seq<(K, V)>, k: K) -> int {
    choose|i: int| 0 <= i < e.len() && e[i].0 == k
}

/// Whether no two entries share a key.
pub open spec fn keys_unique<K, V>(e: Seq<(K, V)>) -> bool {
    forall|i: int, j: int| 0 <= i < e.len() && 0 <= j < e.len() && e[i].0 == e[j].0 ==> i == j
}

/// The value under `k`, where there is one.
pub open spec fn lookup<K, V>(e: Seq<(K, V)>, k: K) -> Option<V> {
    if has_key(e, k) {
        Some(e[key_index(e, k)].1)
    } else {
        None
    }
}

/// The contents after a read of `k`: a present entry becomes the most
/// recently used one.
pub open spec fn touched<K, V>(e: Seq<(K, V)>, k: K) -> Seq<(K, V)> {
    if has_key(e, k) {
        e.remove(key_index(e, k)).push(e[key_index(e, k)])
    } else {
        e
    }
}

/// The contents after storing `v` under `k` with room for `cap` entries:
/// the entry becomes the most recently used one, and past the capacity the
/// least recently used entry leaves.
pub open spec fn inserted<K, V>(e: Seq<(K, V)>, k: K, v: V, cap: nat) -> Seq<(K, V)> {
    let base = if has_key(e, k) {
        e.remove(key_index(e, k))
    } else {
        e
    };
    let grown = base.push((k, v));
    if grown.len() > cap {
        grown.drop_first()
    } else {
        grown
    }
}

/// The contents after storing `vals[i]` under `keys[i]` for each `i` in turn.
pub open spec fn inserted_all<K, V>(e: Seq<(K, V)>, keys: Seq<K>, vals: Seq<V>, cap: nat) -> Seq<(K, V)>
    decreases keys.len(),
{
    if keys.len() == 0 || vals.len() == 0 {
        e
    } else {
        inserted(inserted_all(e, keys.drop_last(), vals.drop_last(), cap), keys.last(), vals.last(), cap)
    }
}

/// Whether a sequence holds no value twice.
pub open spec fn distinct<K>(s: Seq<K>) -> bool {
    forall|i: int, j: int| 0 <= i < s.len() && 0 <= j < s.len() && s[i] == s[j] ==> i == j
}

/// A contents sequence is well formed: keys are unique and it fits.
pub open spec fn lru_ok<K, V>(e: Seq<(K, V)>, cap: nat) -> bool {
    keys_unique(e) && e.len() <= cap
}

pub proof fn lemma_key_index<K, V>(e: Seq<(K, V)>, k: K, i: int)
    requires
        keys_unique(e),
        0 <= i < e.len(),
        e[i].0 == k,
    ensures
        has_key(e, k),
        key_index(e, k) == i,
        lookup(e, k) == Some(e[i].1),
{
    let j = key_index(e, k);
}

/// The position in `e` that entry `a` of `touched(e, k)` comes from.
pub open spec fn touched_origin<K, V>(e: Seq<(K, V)>, k: K, a: int) -> int {
    if a == e.len() - 1 {
        key_index(e, k)
    } else if a < key_index(e, k) {
        a
    } else {
        a + 1
    }
}

/// Each entry after a read of a present key comes from one distinct entry
/// before it.
pub proof fn lemma_touched_entries<K, V>(e: Seq<(K, V)>, k: K)
    requires
        has_key(e, k),
    ensures
        touched(e, k).len() == e.len(),
        forall|a: int| 0 <= a < e.len() ==> 0 <= #[trigger] touched_origin(e, k, a) < e.len()
            && touched(e, k)[a] == e[touched_origin(e, k, a)],
        forall|a: int, b: int| 0 <= a < e.len() && 0 <= b < e.len()
            && #[trigger] touched_origin(e, k, a) == #[trigger] touched_origin(e, k, b) ==> a == b,
{
    let i = key_index(e, k);
    assert(0 <= i < e.len());
}

pub proof fn lemma_touched<K, V>(e: Seq<(K, V)>, k: K, cap: nat)
    requires
        lru_ok(e, cap),
    ensures
        lru_ok(touched(e, k), cap),
        touched(e, k).len() == e.len(),
        lookup(touched(e, k), k) == lookup(e, k),
        has_key(e, k) ==> touched(e, k).last() == e[key_index(e, k)],
{
    if has_key(e, k) {
        let t = touched(e, k);
        lemma_touched_entries(e, k);
        assert forall|a: int, b: int| 0 <= a < t.len() && 0 <= b < t.len() && t[a].0 == t[b].0 implies a == b by {
            assert(t[a] == e[touched_origin(e, k, a)]);
            assert(t[b] == e[touched_origin(e, k, b)]);
        }
        lemma_key_index(t, k, t.len() - 1);
    }
}

pub proof fn lemma_inserted<K, V>(e: Seq<(K, V)>, k: K, v: V, cap: nat)
    requires
        lru_ok(e, cap),
        cap > 0,
    ensures
        lru_ok(inserted(e, k, v, cap), cap),
        inserted(e, k, v, cap).last() == (k, v),
        lookup(inserted(e, k, v, cap), k) == Some(v),
        inserted(e, k, v, cap).len() > 0,
{
    let base = if has_key(e, k) {
        e.remove(key_index(e, k))
    } else {
        e
    };
    let grown = base.push((k, v));
    let r = inserted(e, k, v, cap);
    // Every entry of `base` comes from `e` at a known position, and none has key `k`.
    assert forall|a: int| 0 <= a < base.len() implies base[a].0 != k && exists|o: int| 0 <= o < e.len() && base[a] == e[o] && (o == a || o == a + 1) by {
        if has_key(e, k) {
            let i = key_index(e, k);
            let o = if a < i { a } else { a + 1 };
            assert(base[a] == e[o]);
        } else {
            assert(base[a] == e[a]);
        }
    }
    assert(keys_unique(grown)) by {
        assert forall|a: int, b: int| 0 <= a < grown.len() && 0 <= b < grown.len() && grown[a].0 == grown[b].0 implies a == b by {
            if a < base.len() && b < base.len() {
                let oa = choose|o: int| 0 <= o < e.len() && base[a] == e[o] && (o == a || o == a + 1);
                let ob = choose|o: int| 0 <= o < e.len() && base[b] == e[o] && (o == b || o == b + 1);
                if has_key(e, k) {
                    let i = key_index(e, k);
                    assert(oa == if a < i { a } else { a + 1 });
                    assert(ob == if b < i { b } else { b + 1 });
                } else {
                    assert(oa == a);
                    assert(ob == b);
                }
            }
        }
    }
    if grown.len() > cap {
        assert forall|a: int, b: int| 0 <= a < r.len() && 0 <= b < r.len() && r[a].0 == r[b].0 implies a == b by {
            assert(r[a] == grown[a + 1]);
            assert(r[b] == grown[b + 1]);
        }
    }
    lemma_key_index(r, k, r.len() - 1);
}

/// The smaller of two naturals.
pub open spec fn min_nat(a: nat, b: nat) -> nat {
    if a < b { a } else { b }
}

/// After storing distinct keys in turn, the most recently used entries are
/// those of the keys stored last, in the order they were stored.
proof fn lemma_recent_tail<K, V>(e: Seq<(K, V)>, keys: Seq<K>, vals: Seq<V>, cap: nat)
    requires
        lru_ok(e, cap),
        cap > 0,
        keys.len() == vals.len(),
        distinct(keys),
    ensures
        lru_ok(inserted_all(e, keys, vals, cap), cap),
        inserted_all(e, keys, vals, cap).len() >= min_nat(keys.len(), cap),
        forall|t: int| 0 <= t < min_nat(keys.len(), cap) ==> #[trigger] inserted_all(e, keys, vals, cap)[
            inserted_all(e, keys, vals, cap).len() - 1 - t].0 == keys[keys.len() - 1 - t],
    decreases keys.len(),
{
    if keys.len() > 0 {
        let kp = keys.drop_last();
        let vp = vals.drop_last();
        assert(distinct(kp)) by {
            assert forall|i: int, j: int| 0 <= i < kp.len() && 0 <= j < kp.len() && kp[i] == kp[j] implies i == j by {
                assert(kp[i] == keys[i]);
                assert(kp[j] == keys[j]);
            }
        }
        lemma_recent_tail(e, kp, vp, cap);
        let p = inserted_all(e, kp, vp, cap);
        let mp = min_nat(kp.len(), cap);
        let k = keys.last();
        let v = vals.last();
        assert(inserted_all(e, keys, vals, cap) == inserted(p, k, v, cap));
        lemma_inserted(p, k, v, cap);
        let r = inserted(p, k, v, cap);
        // None of the most recent entries of `p` has key `k`.
        assert forall|t: int| 0 <= t < mp implies #[trigger] p[p.len() - 1 - t].0 != k by {
            assert(p[p.len() - 1 - t].0 == kp[kp.len() - 1 - t]);
            assert(kp[kp.len() - 1 - t] == keys[keys.len() - 2 - t]);
        }
        if has_key(p, k) {
            let i = key_index(p, k);
            assert(i < p.len() - mp) by {
                if i >= p.len() - mp {
                    let t = p.len() - 1 - i;
                    assert(p[p.len() - 1 - t].0 != k);
                }
            }
            let base = p.remove(i);
            assert(r == base.push((k, v)));
            assert forall|t: int| 0 <= t < min_nat(keys.len(), cap) implies #[trigger] r[r.len() - 1 - t].0
                == keys[keys.len() - 1 - t] by {
                if t > 0 {
                    let u = t - 1;
                    assert(r[r.len() - 1 - t] == base[base.len() - 1 - u]);
                    assert(base[base.len() - 1 - u] == p[p.len() - 1 - u]);
                    assert(p[p.len() - 1 - u].0 == kp[kp.len() - 1 - u]);
                }
            }
        } else {
            let grown = p.push((k, v));
            assert forall|t: int| 0 <= t < min_nat(keys.len(), cap) implies #[trigger] r[r.len() - 1 - t].0
                == keys[keys.len() - 1 - t] by {
                assert(r[r.len() - 1 - t] == grown[grown.len() - 1 - t]);
                if t > 0 {
                    let u = t - 1;
                    assert(grown[grown.len() - 1 - t] == p[p.len() - 1 - u]);
                    assert(p[p.len() - 1 - u].0 == kp[kp.len() - 1 - u]);
                }
            }
        }
    }
}

/// After storing M distinct keys in a cache with room for N < M entries, it
/// holds exactly N entries: those of the N keys stored last, least recently
/// stored first.
pub proof fn lemma_eviction_bound<K, V>(e: Seq<(K, V)>, keys: Seq<K>, vals: Seq<V>, cap: nat)
    requires
        lru_ok(e, cap),
        cap > 0,
        keys.len() == vals.len(),
        keys.len() > cap,
        distinct(keys),
    ensures
        inserted_all(e, keys, vals, cap).len() == cap,
        forall|i: int| 0 <= i < cap ==> #[trigger] inserted_all(e, keys, vals, cap)[i].0 == keys[keys.len() - cap + i],
{
    lemma_recent_tail(e, keys, vals, cap);
    let r = inserted_all(e, keys, vals, cap);
    assert forall|i: int| 0 <= i < cap implies #[trigger] r[i].0 == keys[keys.len() - cap + i] by {
        let t = cap - 1 - i;
        assert(r[r.len() - 1 - t].0 == keys[keys.len() - 1 - t]);
    }
}

/// The contents after a whole cached read of `k`, where the inner reader
/// would give `v`: a resident entry is touched and the inner reader is not
/// asked; otherwise its result is stored.
pub open spec fn after_read<K, V>(e: Seq<(K, V)>, k: K, v: V, cap: nat) -> Seq<(K, V)> {
    if has_key(e, k) {
        touched(e, k)
    } else {
        inserted(e, k, v, cap)
    }
}

/// The contents after whole cached reads of `keys[i]` in turn, where the
/// inner reader would give `vals[i]`.
pub open spec fn reads_all<K, V>(e: Seq<(K, V)>, keys: Seq<K>, vals: Seq<V>, cap: nat) -> Seq<(K, V)>
    decreases keys.len(),
{
    if keys.len() == 0 || vals.len() == 0 {
        e
    } else {
        after_read(reads_all(e, keys.drop_last(), vals.drop_last(), cap), keys.last(), vals.last(), cap)
    }
}

/// The value a read of `k` returns: the resident one, else the inner one.
pub open spec fn read_value<K, V>(e: Seq<(K, V)>, k: K, v: V) -> V {
    match lookup(e, k) {
        Some(x) => x,
        None => v,
    }
}

/// A read is a store of the value it returns.
proof fn lemma_read_is_insert<K, V>(e: Seq<(K, V)>, k: K, v: V, cap: nat)
    requires
        lru_ok(e, cap),
        cap > 0,
    ensures
        after_read(e, k, v, cap) == inserted(e, k, read_value(e, k, v), cap),
{
    if has_key(e, k) {
        let i = key_index(e, k);
        lemma_key_index(e, k, i);
        assert(e[i] == (k, e[i].1));
        assert(touched(e, k) =~= inserted(e, k, read_value(e, k, v), cap));
    }
}

/// Reads are stores of the values they return.
proof fn lemma_reads_are_inserts<K, V>(e: Seq<(K, V)>, keys: Seq<K>, vals: Seq<V>, cap: nat) -> (w: Seq<V>)
    requires
        lru_ok(e, cap),
        cap > 0,
        keys.len() == vals.len(),
    ensures
        w.len() == keys.len(),
        reads_all(e, keys, vals, cap) == inserted_all(e, keys, w, cap),
        lru_ok(reads_all(e, keys, vals, cap), cap),
    decreases keys.len(),
{
    if keys.len() == 0 {
        Seq::empty()
    } else {
        let wp = lemma_reads_are_inserts(e, keys.drop_last(), vals.drop_last(), cap);
        let p = reads_all(e, keys.drop_last(), vals.drop_last(), cap);
        let x = read_value(p, keys.last(), vals.last());
        lemma_read_is_insert(p, keys.last(), vals.last(), cap);
        lemma_inserted(p, keys.last(), x, cap);
        let w = wp.push(x);
        assert(w.drop_last() =~= wp);
        w
    }
}

/// Reading the same key `n` times in a cache with room for it: every read
/// after the first finds the entry resident, so the inner reader is asked at
/// most once, and every read returns what the first one returned.
pub proof fn lemma_repeated_reads<K, V>(e: Seq<(K, V)>, k: K, vals: Seq<V>, cap: nat, n: nat)
    requires
        lru_ok(e, cap),
        cap > 0,
        1 <= n <= vals.len(),
    ensures
        has_key(reads_all(e, Seq::new(n, |j: int| k), vals.subrange(0, n as int), cap), k),
        lookup(reads_all(e, Seq::new(n, |j: int| k), vals.subrange(0, n as int), cap), k) == Some(read_value(e, k, vals[0])),
        lru_ok(reads_all(e, Seq::new(n, |j: int| k), vals.subrange(0, n as int), cap), cap),
    decreases n,
{
    let ks = Seq::new(n, |j: int| k);
    let vs = vals.subrange(0, n as int);
    assert(ks.drop_last() =~= Seq::new((n - 1) as nat, |j: int| k));
    assert(vs.drop_last() =~= vals.subrange(0, n - 1));
    if n == 1 {
        assert(Seq::new(0, |j: int| k) =~= Seq::<K>::empty());
        assert(reads_all(e, ks.drop_last(), vs.drop_last(), cap) == e);
        lemma_read_is_insert(e, k, vals[0], cap);
        lemma_inserted(e, k, read_value(e, k, vals[0]), cap);
    } else {
        lemma_repeated_reads(e, k, vals, cap, (n - 1) as nat);
        let p = reads_all(e, ks.drop_last(), vs.drop_last(), cap);
        lemma_touched(p, k, cap);
        let i = key_index(p, k);
        lemma_key_index(p, k, i);
    }
}

/// Reading M distinct keys in a cache with room for N < M entries leaves
/// exactly N entries: those of the N keys read last, in the order read.
pub proof fn lemma_reads_eviction_bound<K, V>(e: Seq<(K, V)>, keys: Seq<K>, vals: Seq<V>, cap: nat)
    requires
        lru_ok(e, cap),
        cap > 0,
        keys.len() == vals.len(),
        keys.len() > cap,
        distinct(keys),
    ensures
        reads_all(e, keys, vals, cap).len() == cap,
        forall|i: int| 0 <= i < cap ==> #[trigger] reads_all(e, keys, vals, cap)[i].0 == keys[keys.len() - cap + i],
{
    let w = lemma_reads_are_inserts(e, keys, vals, cap);
    lemma_eviction_bound(e, keys, w, cap);
}

} // verus!
