//! Association lists: a sequence of key/value entries read as a finite map.
//! The session store keeps its tables this way, with distinct keys.

use vstd::prelude::*;

verus! {

/// The map that a list of entries describes (a later entry wins over an earlier one).
pub open spec fn entries_map<K, V>(s: Seq<(K, V)>) -> Map<K, V>
    decreases s.len(),
{
    if s.len() == 0 {
        Map::empty()
    } else {
        entries_map(s.drop_last()).insert(s.last().0, s.last().1)
    }
}

/// No key occurs twice in the list.
pub open spec fn keys_distinct<K, V>(s: Seq<(K, V)>) -> bool {
    forall|i: int, j: int| 0 <= i < j < s.len() ==> #[trigger] s[i].0 != #[trigger] s[j].0
}

/// The entries of `m` that satisfy `p`.
pub open spec fn retain_entries<K, V>(m: Map<K, V>, p: spec_fn(K, V) -> bool) -> Map<K, V> {
    Map::new(|k: K| m.contains_key(k) && p(k, m[k]), |k: K| m[k])
}

/// Every entry but the one under `key`.
pub open spec fn other_than<K, V>(key: K) -> spec_fn(K, V) -> bool {
    |k: K, v: V| k != key
}

/// The keys of `m` whose value satisfies `p`.
pub open spec fn keys_where<K, V>(m: Map<K, V>, p: spec_fn(V) -> bool) -> Set<K> {
    m.dom().filter(|k: K| p(m[k]))
}

/// How many entries of the list have a value that satisfies `p`.
pub open spec fn count_values<K, V>(s: Seq<(K, V)>, p: spec_fn(V) -> bool) -> nat
    decreases s.len(),
{
    if s.len() == 0 {
        0
    } else {
        count_values(s.drop_last(), p) + if p(s.last().1) {
            1nat
        } else {
            0nat
        }
    }
}

/// With distinct keys, the list and its map hold the same entries.
pub proof fn lemma_entries_map<K, V>(s: Seq<(K, V)>)
    requires
        keys_distinct(s),
    ensures
        entries_map(s).dom().finite(),
        entries_map(s).dom().len() == s.len(),
        forall|i: int|
            0 <= i < s.len() ==> entries_map(s).contains_key(#[trigger] s[i].0) && entries_map(
                s,
            )[s[i].0] == s[i].1,
        forall|k: K|
            #[trigger] entries_map(s).contains_key(k) ==> exists|i: int|
                0 <= i < s.len() && s[i].0 == k,
    decreases s.len(),
{
    if s.len() > 0 {
        let t = s.drop_last();
        assert(keys_distinct(t)) by {
            assert forall|i: int, j: int| 0 <= i < j < t.len() implies #[trigger] t[i].0
                != #[trigger] t[j].0 by {
                assert(t[i] == s[i] && t[j] == s[j]);
            }
        }
        lemma_entries_map(t);
        let k = s.last().0;
        assert(!entries_map(t).contains_key(k)) by {
            if entries_map(t).contains_key(k) {
                let i = choose|i: int| 0 <= i < t.len() && t[i].0 == k;
                assert(s[i].0 == s[s.len() - 1].0);
            }
        }
        assert forall|i: int| 0 <= i < s.len() implies entries_map(s).contains_key(
            #[trigger] s[i].0,
        ) && entries_map(s)[s[i].0] == s[i].1 by {
            if i < s.len() - 1 {
                assert(t[i] == s[i]);
                assert(s[i].0 != s[s.len() - 1].0);
            }
        }
        assert forall|x: K| #[trigger] entries_map(s).contains_key(x) implies exists|i: int|
            0 <= i < s.len() && s[i].0 == x by {
            if x != k {
                let i = choose|i: int| 0 <= i < t.len() && t[i].0 == x;
                assert(s[i] == t[i]);
            } else {
                assert(s[s.len() - 1].0 == x);
            }
        }
    }
}

/// Adding an entry whose key is new keeps the keys distinct.
pub proof fn lemma_push_new_key<K, V>(s: Seq<(K, V)>, e: (K, V))
    requires
        keys_distinct(s),
        !entries_map(s).contains_key(e.0),
    ensures
        keys_distinct(s.push(e)),
        entries_map(s.push(e)) == entries_map(s).insert(e.0, e.1),
{
    lemma_entries_map(s);
    let u = s.push(e);
    assert(u.drop_last() =~= s);
    assert forall|i: int, j: int| 0 <= i < j < u.len() implies #[trigger] u[i].0
        != #[trigger] u[j].0 by {
        if j == s.len() {
            assert(u[i] == s[i]);
            assert(entries_map(s).contains_key(s[i].0));
        } else {
            assert(u[i] == s[i] && u[j] == s[j]);
        }
    }
}

/// One step of filtering a list: the retained prefix of `s` grows by `s[i]` when it passes.
pub proof fn lemma_retain_step<K, V>(s: Seq<(K, V)>, i: int, out: Seq<(K, V)>, p: spec_fn(K, V) -> bool)
    requires
        keys_distinct(s),
        0 <= i < s.len(),
        keys_distinct(out),
        entries_map(out) == retain_entries(entries_map(s.take(i)), p),
    ensures
        p(s[i].0, s[i].1) ==> keys_distinct(out.push(s[i])) && entries_map(out.push(s[i]))
            == retain_entries(entries_map(s.take(i + 1)), p),
        !p(s[i].0, s[i].1) ==> entries_map(out) == retain_entries(entries_map(s.take(i + 1)), p),
{
    let t = s.take(i);
    let t1 = s.take(i + 1);
    assert(t1.drop_last() =~= t);
    assert(t1.last() == s[i]);
    let m = entries_map(t);
    let k = s[i].0;
    assert(keys_distinct(t)) by {
        assert forall|a: int, b: int| 0 <= a < b < t.len() implies #[trigger] t[a].0
            != #[trigger] t[b].0 by {
            assert(t[a] == s[a] && t[b] == s[b]);
        }
    }
    lemma_entries_map(t);
    assert(!m.contains_key(k)) by {
        if m.contains_key(k) {
            let a = choose|a: int| 0 <= a < t.len() && t[a].0 == k;
            assert(s[a].0 == s[i].0);
        }
    }
    assert(entries_map(t1) == m.insert(k, s[i].1));
    if p(s[i].0, s[i].1) {
        assert(!entries_map(out).contains_key(k));
        lemma_push_new_key(out, s[i]);
        assert(entries_map(out.push(s[i])) =~= retain_entries(entries_map(t1), p));
    } else {
        assert(entries_map(out) =~= retain_entries(entries_map(t1), p));
    }
}

/// Removing one key is retaining every other key.
pub proof fn lemma_retain_other_keys<K, V>(m: Map<K, V>, k: K)
    ensures
        retain_entries(m, other_than(k)) == m.remove(k),
{
    assert(retain_entries(m, other_than(k)) =~= m.remove(k));
}

/// With distinct keys, counting the list counts the keys of its map.
pub proof fn lemma_count_values<K, V>(s: Seq<(K, V)>, p: spec_fn(V) -> bool)
    requires
        keys_distinct(s),
    ensures
        keys_where(entries_map(s), p).finite(),
        keys_where(entries_map(s), p).len() == count_values(s, p),
    decreases s.len(),
{
    lemma_entries_map(s);
    entries_map(s).dom().lemma_len_filter(|k: K| p(entries_map(s)[k]));
    if s.len() == 0 {
        assert(keys_where(entries_map(s), p) =~= Set::empty());
    } else {
        let t = s.drop_last();
        assert(keys_distinct(t)) by {
            assert forall|a: int, b: int| 0 <= a < b < t.len() implies #[trigger] t[a].0
                != #[trigger] t[b].0 by {
                assert(t[a] == s[a] && t[b] == s[b]);
            }
        }
        lemma_count_values(t, p);
        lemma_entries_map(t);
        let k = s.last().0;
        let v = s.last().1;
        assert(!entries_map(t).contains_key(k)) by {
            if entries_map(t).contains_key(k) {
                let a = choose|a: int| 0 <= a < t.len() && t[a].0 == k;
                assert(s[a].0 == s[s.len() - 1].0);
            }
        }
        let before = keys_where(entries_map(t), p);
        let after = keys_where(entries_map(s), p);
        if p(v) {
            assert(after =~= before.insert(k));
        } else {
            assert(after =~= before);
        }
    }
}

/// Inserting one entry into a map changes the count of keys whose value satisfies `p`
/// by at most one.
pub proof fn lemma_keys_where_insert<K, V>(m: Map<K, V>, k: K, v: V, p: spec_fn(V) -> bool)
    requires
        m.dom().finite(),
    ensures
        keys_where(m, p).finite(),
        keys_where(m.insert(k, v), p).finite(),
        keys_where(m.insert(k, v), p).len() <= keys_where(m, p).len() + 1,
        !p(v) ==> keys_where(m.insert(k, v), p).len() <= keys_where(m, p).len(),
{
    let before = keys_where(m, p);
    let after = keys_where(m.insert(k, v), p);
    m.dom().lemma_len_filter(|x: K| p(m[x]));
    let bigger = before.insert(k);
    assert(after.subset_of(bigger));
    vstd::set_lib::lemma_len_subset(after, bigger);
    if !p(v) {
        assert(after.subset_of(before));
        vstd::set_lib::lemma_len_subset(after, before);
    }
}

} // verus!
